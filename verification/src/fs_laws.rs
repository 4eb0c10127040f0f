//! What holds of every notice of the kernel, of what is reported of it, of the watcher, and of the
//! scan of a device.

use vstd::prelude::*;

use crate::byte_order::ByteOrder;
use crate::clamscan;
use crate::clamscan::{ScanFinding, ScanFindingView};
use crate::clock::StampView;
use crate::digits;
use crate::fs_monitor;
use crate::fs_monitor::{FsClock, FsClockView, FsKind, FsKindView, FsReport, FsReportView, WatchRoot, WatchRootView};
use crate::incident::IdentityView;
use crate::inotify;
use crate::inotify::{Notice, NoticeView};
use crate::text;
use crate::watcher;
use crate::watcher::WatchRequest;
use crate::window;

verus! {

/// A file was deleted, or what is watched itself.
pub open spec fn tells_deleted(mask: u32) -> bool {
    mask & 0x200 != 0 || mask & 0x400 != 0
}

/// A file was moved here or away, or what is watched itself was moved.
pub open spec fn tells_moved(mask: u32) -> bool {
    mask & 0x40 != 0 || mask & 0x80 != 0 || mask & 0x800 != 0
}

/// A file was created.
pub open spec fn tells_created(mask: u32) -> bool {
    mask & 0x100 != 0
}

/// A file was modified, its attributes changed, or it was closed after it was written.
pub open spec fn tells_modified(mask: u32) -> bool {
    mask & 0x2 != 0 || mask & 0x4 != 0 || mask & 0x8 != 0
}

/// Several bits are set or not as each of them is.
proof fn lemma_bits(mask: u32)
    ensures
        mask & (0x200u32 | 0x400u32) != 0 <==> tells_deleted(mask),
        mask & (0x40u32 | 0x80u32 | 0x800u32) != 0 <==> tells_moved(mask),
        mask & (0x2u32 | 0x4u32 | 0x8u32) != 0 <==> tells_modified(mask),
{
    assert(mask & (0x200u32 | 0x400u32) != 0 <==> mask & 0x200 != 0 || mask & 0x400 != 0)
        by (bit_vector);
    assert(mask & (0x40u32 | 0x80u32 | 0x800u32) != 0 <==> mask & 0x40 != 0 || mask & 0x80 != 0
        || mask & 0x800 != 0) by (bit_vector);
    assert(mask & (0x2u32 | 0x4u32 | 0x8u32) != 0 <==> mask & 0x2 != 0 || mask & 0x4 != 0 || mask
        & 0x8 != 0) by (bit_vector);
}

/// A deletion is reported before all else, then a move, then a creation, then a modification,
/// whatever other bits the mask holds; a mask without any of these is not reported.
pub proof fn lemma_kind_of_mask(mask: u32)
    ensures
        fs_monitor::primary_kind(mask) == Some(
            FsKindView {
                incident_type_id: 11,
                severity: "high"@,
                label: "file_deleted"@,
                action_hint: "investigate_deletion"@,
            },
        ) <==> tells_deleted(mask),
        fs_monitor::primary_kind(mask) == Some(
            FsKindView {
                incident_type_id: 12,
                severity: "medium"@,
                label: "file_moved"@,
                action_hint: "log_event"@,
            },
        ) <==> tells_moved(mask) && !tells_deleted(mask),
        fs_monitor::primary_kind(mask) == Some(
            FsKindView {
                incident_type_id: 9,
                severity: "low"@,
                label: "file_created"@,
                action_hint: "log_event"@,
            },
        ) <==> tells_created(mask) && !tells_moved(mask) && !tells_deleted(mask),
        fs_monitor::primary_kind(mask) == Some(
            FsKindView {
                incident_type_id: 10,
                severity: "medium"@,
                label: "file_modified"@,
                action_hint: "log_event"@,
            },
        ) <==> tells_modified(mask) && !tells_created(mask) && !tells_moved(mask) && !tells_deleted(
            mask,
        ),
        fs_monitor::primary_kind(mask) is None <==> !tells_modified(mask) && !tells_created(mask)
            && !tells_moved(mask) && !tells_deleted(mask),
{
    lemma_bits(mask);
}

/// Bits beside the watched ones, such as the one that tells of a directory, change nothing of what
/// is reported.
pub proof fn lemma_kind_by_watched_bits(mask: u32, other: u32)
    requires
        mask & 0xfce == other & 0xfce,
    ensures
        fs_monitor::primary_kind(mask) == fs_monitor::primary_kind(other),
        fs_monitor::is_upload(mask) == fs_monitor::is_upload(other),
{
    assert(mask & 0xfce == other & 0xfce ==> {
        &&& mask & (0x200u32 | 0x400u32) == other & (0x200u32 | 0x400u32)
        &&& mask & (0x40u32 | 0x80u32 | 0x800u32) == other & (0x40u32 | 0x80u32 | 0x800u32)
        &&& mask & 0x100u32 == other & 0x100u32
        &&& mask & (0x2u32 | 0x4u32 | 0x8u32) == other & (0x2u32 | 0x4u32 | 0x8u32)
        &&& mask & 0x8u32 == other & 0x8u32
    }) by (bit_vector);
}

/// The watched bits are those of the kernel.
pub proof fn lemma_watched_bits()
    ensures
        inotify::IN_MODIFY == 0x2,
        inotify::IN_ATTRIB == 0x4,
        inotify::IN_CLOSE_WRITE == 0x8,
        inotify::IN_MOVED_FROM == 0x40,
        inotify::IN_MOVED_TO == 0x80,
        inotify::IN_CREATE == 0x100,
        inotify::IN_DELETE == 0x200,
        inotify::IN_DELETE_SELF == 0x400,
        inotify::IN_MOVE_SELF == 0x800,
        inotify::WATCH_MASK == 0xfce,
{
    assert(0x100u32 | 0x2u32 | 0x200u32 | 0x40u32 | 0x80u32 | 0x4u32 | 0x8u32 | 0x400u32 | 0x800u32
        == 0xfceu32) by (bit_vector);
}

/// Without a filter every notice is reported; with one, those alone whose name it is.
pub proof fn lemma_filter(filter_name: Seq<u8>, event_name: Seq<char>)
    ensures
        fs_monitor::is_reported(None, Some(event_name)),
        fs_monitor::is_reported(None, None),
        !fs_monitor::is_reported(Some(filter_name), None),
        fs_monitor::is_reported(Some(filter_name), Some(event_name)) <==> filter_name
            == vstd::utf8::encode_utf8(event_name),
{
}

/// The notices that are reported are those that pass the filter, in their order.
pub proof fn lemma_reported(filter_name: Option<Seq<u8>>, notices: Seq<NoticeView>, notice: NoticeView)
    ensures
        fs_monitor::reported(filter_name, Seq::empty()) == Seq::<NoticeView>::empty(),
        fs_monitor::is_reported(filter_name, notice.name) ==> fs_monitor::reported(
            filter_name,
            notices.push(notice),
        ) == fs_monitor::reported(filter_name, notices).push(notice),
        !fs_monitor::is_reported(filter_name, notice.name) ==> fs_monitor::reported(
            filter_name,
            notices.push(notice),
        ) == fs_monitor::reported(filter_name, notices),
{
    reveal(Seq::filter);
    assert(notices.push(notice).drop_last() == notices);
}

/// A file is named by the notice; without a name in it, by what is watched; and by its path where
/// that has no name.
pub proof fn lemma_file_label(root: WatchRootView, name: Seq<char>)
    ensures
        fs_monitor::file_label(root, Some(name)) == name,
        root.name matches Some(own) ==> fs_monitor::file_label(root, None) == own,
        root.name is None ==> fs_monitor::file_label(root, None) == root.path,
{
}

/// The source of an incident is the file in the watched directory; an absolute name stands for
/// itself, and without a name the source is the directory.
pub proof fn lemma_source(root: WatchRootView, name: Seq<char>)
    ensures
        fs_monitor::source_path(root, None) == root.path,
        name.len() > 0 && name[0] == '/' ==> fs_monitor::source_path(root, Some(name)) == name,
        (name.len() == 0 || name[0] != '/') && root.path.len() > 0 && root.path.last() != '/'
            ==> fs_monitor::source_path(root, Some(name)) == root.path + seq!['/'] + name,
        (name.len() == 0 || name[0] != '/') && (root.path.len() == 0 || root.path.last() == '/')
            ==> fs_monitor::source_path(root, Some(name)) == root.path + name,
{
    reveal_strlit("/");
    assert("/"@.len() == 1 && "/"@[0] == '/');
    if name.len() > 0 && name[0] == '/' {
        assert(name.subrange(0, 1) == "/"@);
    }
    if text::has_prefix(name, "/"@) {
        assert(name.subrange(0, 1)[0] == "/"@[0]);
    }
}

/// Closing a file after it was written counts as an upload, for a minute; nothing else does.
pub proof fn lemma_uploads(uploads: Seq<u128>, mask: u32, now: u128)
    ensures
        fs_monitor::is_upload(mask) <==> mask & 0x8 != 0,
        mask & 0x8 != 0 ==> fs_monitor::uploads_after(uploads, mask, now) == window::recent(
            uploads.push(now),
            now,
            60_000,
        ),
        mask & 0x8 == 0 ==> fs_monitor::uploads_after(uploads, mask, now) == uploads,
{
}

/// Uploads are reported at the tenth within a minute and at every tenth more.
pub proof fn lemma_upload_counts(count: nat)
    ensures
        fs_monitor::is_upload_burst(count) <==> count > 0 && count % 10 == 0,
        fs_monitor::upload_reason(count) == digits::decimal(count)
            + " file uploads (close-after-write) in 60 seconds — possible exfiltration"@,
{
}

/// A notice is reported at most twice: first for many uploads, then for what happened to the file.
pub proof fn lemma_event_reports(
    mask: u32,
    root: WatchRootView,
    file_name: Option<Seq<char>>,
    uploads: Seq<u128>,
    clock: FsClockView,
    identity: IdentityView,
)
    ensures
        ({
            let reports = fs_monitor::event_reports(
                mask,
                root,
                file_name,
                uploads,
                clock,
                identity,
            );
            let count = window::recent(uploads.push(clock.upload_ms), clock.upload_ms, 60_000).len();
            let many = if mask & 0x8 != 0 && count > 0 && count % 10 == 0 {
                1int
            } else {
                0
            };
            let source = fs_monitor::source_path(root, file_name);
            let label = fs_monitor::file_label(root, file_name);
            let reason = digits::decimal(count)
                + " file uploads (close-after-write) in 60 seconds — possible exfiltration"@;
            &&& reports.len() == many + if fs_monitor::primary_kind(mask) is Some {
                1int
            } else {
                0
            }
            &&& many == 1 ==> reports[0].incident == fs_monitor::fs_incident(
                13,
                "critical"@,
                "mass_file_upload_detected"@,
                reason,
                source,
                "quarantine_and_alert"@,
                clock.upload,
                identity,
            )
            &&& many == 1 ==> reports[0].diagnostic == "fs watch type=13 "@ + reason + " dir="@
                + root.path
            &&& fs_monitor::primary_kind(mask) matches Some(kind) ==> {
                &&& reports[many].incident == fs_monitor::fs_incident(
                    kind.incident_type_id,
                    kind.severity,
                    kind.label,
                    kind.label + ": "@ + label,
                    source,
                    kind.action_hint,
                    clock.primary,
                    identity,
                )
                &&& reports[many].diagnostic == "fs watch type="@ + digits::decimal(
                    kind.incident_type_id as nat,
                ) + " action="@ + kind.label + " file="@ + label + " dir="@ + root.path
            }
        }),
{
}

/// What a notice does to the uploads and asks for is what is made of it.
pub proof fn lemma_event_takes(
    mask: u32,
    root: WatchRootView,
    file_name: Option<Seq<char>>,
    before: Seq<u128>,
    clock: FsClockView,
    identity: IdentityView,
    after: Seq<u128>,
    reports: Seq<FsReportView>,
)
    requires
        fs_monitor::event_takes(mask, root, file_name, before, clock, identity, after, reports),
    ensures
        after == fs_monitor::uploads_after(before, mask, clock.upload_ms),
        reports == fs_monitor::event_reports(mask, root, file_name, before, clock, identity),
{
}

/// Notices are taken in one by one: the uploads so far are known to each, it has its own clock
/// reading, and what is reported of it comes behind what was reported before.
pub proof fn lemma_notices_in_turn(
    root: WatchRootView,
    uploads: Seq<u128>,
    notices: Seq<NoticeView>,
    notice: NoticeView,
    clocks: Seq<FsClockView>,
    identity: IdentityView,
)
    ensures
        fs_monitor::uploads_after_all(uploads, Seq::empty(), clocks) == uploads,
        fs_monitor::all_reports(root, uploads, Seq::empty(), clocks, identity) == Seq::<
            FsReportView,
        >::empty(),
        fs_monitor::uploads_after_all(uploads, notices.push(notice), clocks)
            == fs_monitor::uploads_after(
            fs_monitor::uploads_after_all(uploads, notices, clocks),
            notice.mask,
            clocks[notices.len() as int].upload_ms,
        ),
        fs_monitor::all_reports(root, uploads, notices.push(notice), clocks, identity)
            == fs_monitor::all_reports(root, uploads, notices, clocks, identity)
            + fs_monitor::event_reports(
            notice.mask,
            root,
            notice.name,
            fs_monitor::uploads_after_all(uploads, notices, clocks),
            clocks[notices.len() as int],
            identity,
        ),
{
    assert(notices.push(notice).drop_last() == notices);
}

/// What a list of notices does and asks for is what is made of them, each at a reading of the clock.
pub proof fn lemma_notices_take(
    root: WatchRootView,
    before: Seq<u128>,
    notices: Seq<NoticeView>,
    clocks: Seq<FsClockView>,
    identity: IdentityView,
    after: Seq<u128>,
    reports: Seq<FsReportView>,
)
    requires
        fs_monitor::notices_take(root, before, notices, clocks, identity, after, reports),
    ensures
        clocks.len() == notices.len(),
        forall|i: int| 0 <= i < clocks.len() ==> (#[trigger] clocks[i]).is_reading(),
        after == fs_monitor::uploads_after_all(before, notices, clocks),
        reports == fs_monitor::all_reports(root, before, notices, clocks, identity),
{
}

/// What is watched, a kind, a report and a notice say each thing in its own field, and lists of them
/// keep their order.
pub proof fn lemma_fs_views(
    root: WatchRoot,
    kind: FsKind,
    report: FsReport,
    clock: FsClock,
    notice: Notice,
    reports: Seq<FsReport>,
    notices: Seq<Notice>,
)
    ensures
        root@.path == root.path@,
        root@.name == text::opt_view(root.name),
        kind@.incident_type_id == kind.incident_type_id,
        kind@.severity == kind.severity@,
        kind@.label == kind.label@,
        kind@.action_hint == kind.action_hint@,
        report@.incident == report.incident@,
        report@.diagnostic == report.diagnostic@,
        clock@.upload_ms == clock.upload_ms,
        clock@.upload == clock.upload@,
        clock@.primary == clock.primary@,
        notice@.mask == notice.mask,
        notice@.name == text::opt_view(notice.name),
        fs_monitor::report_views(reports).len() == reports.len(),
        forall|i: int|
            0 <= i < reports.len() ==> (#[trigger] fs_monitor::report_views(reports)[i])
                == reports[i]@,
        inotify::notice_views(notices).len() == notices.len(),
        forall|i: int|
            0 <= i < notices.len() ==> (#[trigger] inotify::notice_views(notices)[i])
                == notices[i]@,
{
}

/// Bytes that are UTF-8 are read as the text that they encode, and others as none.
pub proof fn lemma_utf8_text(bytes: Seq<u8>, given: Option<&[u8]>)
    ensures
        vstd::utf8::valid_utf8(bytes) ==> fs_monitor::utf8_text(bytes) == Some(
            vstd::utf8::decode_utf8(bytes),
        ),
        !vstd::utf8::valid_utf8(bytes) ==> fs_monitor::utf8_text(bytes) is None,
        given is None ==> fs_monitor::opt_bytes_view(given) is None,
        given matches Some(inner) ==> fs_monitor::opt_bytes_view(given) == Some(inner@),
{
}

/// A number of four bytes counts each byte 256 times the one below it.
pub proof fn lemma_number(bytes: Seq<u8>)
    ensures
        inotify::number(bytes, ByteOrder::Little) == bytes[0] + 256 * (bytes[1] + 256 * (bytes[2]
            + 256 * bytes[3])),
        inotify::number(bytes, ByteOrder::Big) == bytes[3] + 256 * (bytes[2] + 256 * (bytes[1] + 256
            * bytes[0])),
{
}

/// A name ends before its first zero byte, or with the field that holds it; an empty one is none.
pub proof fn lemma_name(field: Seq<u8>, end: int)
    requires
        0 <= end <= field.len(),
        forall|k: int| 0 <= k < end ==> #[trigger] field[k] != 0,
        end < field.len() ==> field[end] == 0,
    ensures
        inotify::before_zero(field) == field.take(end),
        end == 0 ==> inotify::name_of(field) is None,
        end > 0 ==> inotify::name_of(field) == Some(inotify::lossy_text(field.take(end))),
    decreases field.len(),
{
    if end > 0 {
        let rest = field.drop_first();
        assert forall|k: int| 0 <= k < end - 1 implies #[trigger] rest[k] != 0 by {
            assert(field[k + 1] != 0);
        }
        assert(end - 1 < rest.len() ==> rest[end - 1] == field[end]);
        assert(field[0] != 0);
        lemma_name(rest, end - 1);
        assert(seq![field.first()] + rest.take(end - 1) == field.take(end));
    } else {
        assert(field.take(0) == Seq::<u8>::empty());
    }
}

/// A notice has its mask at byte 4 and the length of its name at byte 12; the name begins at byte 16
/// and reaches no further than the bytes do. The next notice begins where the name ends.
pub proof fn lemma_notices(bytes: Seq<u8>, order: ByteOrder)
    ensures
        bytes.len() < 16 ==> inotify::notices_in(bytes, order).len() == 0,
        bytes.len() >= 16 ==> {
            let end = 16int + inotify::number(bytes.subrange(12, 16), order);
            let all = inotify::notices_in(bytes, order);
            &&& all.len() > 0
            &&& all[0].mask == inotify::number(bytes.subrange(4, 8), order)
            &&& end <= bytes.len() ==> all[0].name == inotify::name_of(bytes.subrange(16, end))
            &&& end > bytes.len() ==> all[0].name == inotify::name_of(
                bytes.subrange(16, bytes.len() as int),
            )
            &&& end <= bytes.len() ==> all.drop_first() == inotify::notices_in(
                bytes.skip(end),
                order,
            )
            &&& end > bytes.len() ==> all.len() == 1
        },
{
    if bytes.len() >= 16 {
        let end = 16int + inotify::number(bytes.subrange(12, 16), order);
        let all = inotify::notices_in(bytes, order);
        let mask = bytes.subrange(4, 8);
        assert(inotify::number(mask, order) <= 0xffff_ffff);
        assert(all[0] == inotify::first_notice(bytes, order));
        if end <= bytes.len() {
            assert(all == seq![inotify::first_notice(bytes, order)] + inotify::notices_in(
                bytes.skip(end),
                order,
            ));
            assert(all.drop_first() == inotify::notices_in(bytes.skip(end), order));
        }
    }
}

/// A tilde and a slash in front of a path go, and again as long as there are any; other paths stay.
pub proof fn lemma_without_tilde(path: Seq<char>)
    ensures
        watcher::without_tilde(seq!['~', '/'] + path) == watcher::without_tilde(path),
        !(path.len() >= 2 && path[0] == '~' && path[1] == '/') ==> watcher::without_tilde(path)
            == path,
{
    assert((seq!['~', '/'] + path).skip(2) == path);
}

/// A path is joined to another with one slash between them; one that is absolute stands for itself.
pub proof fn lemma_joined(base: Seq<u8>, rest: Seq<u8>)
    ensures
        rest.len() > 0 && rest[0] == 0x2f ==> watcher::joined(base, rest) == rest,
        !(rest.len() > 0 && rest[0] == 0x2f) && base.len() > 0 && base.last() != 0x2f
            ==> watcher::joined(base, rest) == base + seq![0x2fu8] + rest,
        !(rest.len() > 0 && rest[0] == 0x2f) && (base.len() == 0 || base.last() == 0x2f)
            ==> watcher::joined(base, rest) == base + rest,
{
    assert(base.push(0x2fu8) + rest == base + seq![0x2fu8] + rest);
}

/// A path that begins with a tilde and a slash lies in the home directory, where there is one; every
/// other path stays as it is.
pub proof fn lemma_expanded(path: Seq<u8>, text: Seq<char>, home: Seq<u8>)
    ensures
        watcher::expanded_text(path, text, None) == path,
        text.len() >= 2 && text[0] == '~' && text[1] == '/' ==> watcher::expanded_text(
            path,
            text,
            Some(home),
        ) == watcher::joined(home, vstd::utf8::encode_utf8(watcher::without_tilde(text))),
        !(text.len() >= 2 && text[0] == '~' && text[1] == '/') ==> watcher::expanded_text(
            path,
            text,
            Some(home),
        ) == path,
        watcher::expanded(path, Some(home)) == watcher::expanded_text(
            path,
            inotify::lossy_text(path),
            Some(home),
        ),
        watcher::expanded(path, None) == path,
{
}

/// What is watched is the path that is configured, else the one in the home directory.
pub proof fn lemma_watch_target(path: Seq<u8>, home: Option<Seq<u8>>, given: Option<Vec<u8>>)
    ensures
        watcher::watch_target(Some(path), home) == watcher::expanded(path, home),
        watcher::watch_target(None, home) == watcher::expanded(
            vstd::utf8::encode_utf8("~/Projects/rust/sensor"@),
            home,
        ),
        given is None ==> watcher::opt_bytes(given) is None,
        given matches Some(inner) ==> watcher::opt_bytes(given) == Some(inner@),
{
}

/// A start takes hold where no watcher runs and changes nothing where one does; a stop leaves none.
pub proof fn lemma_watcher_slot<W>(running: W, watcher: W)
    ensures
        watcher::after_start(None, watcher) == Some(watcher),
        watcher::after_start(Some(running), watcher) == Some(running),
        watcher::after_stop(Some(running)) is None,
        watcher::after_stop(None::<W>) is None,
        watcher::is_heeded(false, WatchRequest::Start),
        !watcher::is_heeded(true, WatchRequest::Start),
        watcher::is_heeded(true, WatchRequest::Stop),
        !watcher::is_heeded(false, WatchRequest::Stop),
{
}

/// A line tells of a threat exactly when it ends with ` FOUND`, white space at its ends aside. What
/// stands before its first `: ` is the file, and what stands behind it the threat; a line without
/// one is both.
pub proof fn lemma_scan_line(
    line: Seq<char>,
    target: Seq<char>,
    stamp: StampView,
    identity: IdentityView,
)
    ensures
        ({
            let kept = text::trimmed(line);
            let found = clamscan::finding(line, target, stamp, identity);
            &&& clamscan::is_threat(line) <==> text::has_suffix(kept, " FOUND"@)
            &&& found is Blank <==> kept.len() == 0
            &&& found is Threat <==> kept.len() > 0 && text::has_suffix(kept, " FOUND"@)
            &&& kept.len() > 0 && !text::has_suffix(kept, " FOUND"@) ==> found
                == ScanFindingView::Remark("clamscan: "@ + kept)
            &&& found is Threat ==> found == ScanFindingView::Threat(
                clamscan::threat_incident(
                    clamscan::threat_parts(kept).0,
                    clamscan::threat_parts(kept).1,
                    target,
                    stamp,
                    identity,
                ),
            )
        }),
        !text::occurs_in(line, ": "@) ==> clamscan::threat_parts(line).0 == line
            && clamscan::threat_parts(line).1 == line,
        text::occurs_in(line, ": "@) ==> clamscan::threat_parts(line).0 + ": "@
            + clamscan::threat_parts(line).1 == line && !text::occurs_in(
            clamscan::threat_parts(line).0,
            ": "@,
        ),
{
    if text::occurs_in(line, ": "@) {
        clamscan::lemma_threat_parts(line);
    }
}

/// Threats are counted one by one, and the summary tells their number, or how the scan ended where
/// there were none.
pub proof fn lemma_scan_summary(threats: u32, found: ScanFindingView, status: Seq<char>)
    ensures
        found is Threat ==> clamscan::threats_after(threats, found) == threats + 1,
        !(found is Threat) ==> clamscan::threats_after(threats, found) == threats,
        threats > 0 ==> clamscan::summary(threats, Some(status)) == "clamscan: scan complete — "@
            + digits::decimal(threats as nat) + " threat(s) found"@,
        threats > 0 ==> clamscan::summary(threats, None) == "clamscan: scan complete — "@
            + digits::decimal(threats as nat) + " threat(s) found"@,
        clamscan::summary(0, Some(status))
            == "clamscan: scan complete — no threats found (exit code: "@ + status + ")"@,
        clamscan::summary(0, None) == "clamscan: scan complete — no threats found"@,
{
}

/// What a line of a scan tells is viewed as what it is.
pub proof fn lemma_finding_view(found: ScanFinding)
    ensures
        found is Blank <==> found@ is Blank,
        found matches ScanFinding::Threat(record) ==> found@ == ScanFindingView::Threat(record@),
        found matches ScanFinding::Remark(remark) ==> found@ == ScanFindingView::Remark(remark@),
{
}

} // verus!
