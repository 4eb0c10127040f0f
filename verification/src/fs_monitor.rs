//! What the sensor makes of changes in the file system.

use vstd::prelude::*;

use crate::clock::{current_timestamp_ms, Stamp, StampView};
use crate::digest;
use crate::digest::{build_event_id, build_evidence_hash};
use crate::digits;
use crate::digits::write_decimal;
use crate::incident;
use crate::incident::{assemble, Details, DetailsView, IdentityView, IncidentRecord, IncidentView, SensorIdentity};
use crate::inotify;
use crate::inotify::{from_utf8_lossy, Notice, NoticeView, IN_ATTRIB, IN_CLOSE_WRITE, IN_CREATE, IN_DELETE};
use crate::inotify::{IN_DELETE_SELF, IN_MODIFY, IN_MOVED_FROM, IN_MOVED_TO, IN_MOVE_SELF};
use crate::sysfs;
use crate::sysfs::join_file;
use crate::text;
use crate::text::{as_opt_str, starts_with};
use crate::usb_monitor;
use crate::window;
use crate::window::note_time;

verus! {

/// How far back uploads count, in milliseconds.
pub const UPLOAD_SPAN_MS: u128 = 60_000;

/// How many uploads within the span, and every so many more, make an incident.
pub const UPLOAD_LIMIT: usize = 10;

/// The incident of a file system event.
pub open spec fn fs_incident(
    incident_type_id: u8,
    severity: Seq<char>,
    signature: Seq<char>,
    description: Seq<char>,
    source: Seq<char>,
    action_hint: Seq<char>,
    stamp: StampView,
    identity: IdentityView,
) -> IncidentView {
    incident::assembled(
        DetailsView {
            event_id: digest::identifier("FS_EVENT"@, source, stamp.millis, identity.byte_order),
            incident_type_id,
            timestamp: stamp.timestamp,
            source,
            severity,
            confidence: 90,
            signature: description,
            evidence_hash: digest::evidence(source, signature, severity),
            action_hint,
        },
        identity,
    )
}

/// The incident of a file system event. The record carries the description as its signature; the
/// signature itself goes into the evidence hash.
pub fn emit_fs_incident(
    incident_type_id: u8,
    severity: &str,
    signature: &str,
    description: &str,
    source: &str,
    action_hint: &str,
    stamp: &Stamp,
    identity: &SensorIdentity,
) -> (record: IncidentRecord)
    ensures
        record@ == fs_incident(
            incident_type_id,
            severity@,
            signature@,
            description@,
            source@,
            action_hint@,
            stamp@,
            identity@,
        ),
{
    assemble(
        Details {
            event_id: build_event_id("FS_EVENT", source, stamp.millis, identity.byte_order),
            incident_type_id,
            timestamp: stamp.timestamp.as_str(),
            source,
            severity,
            confidence: 90,
            signature: description,
            evidence_hash: build_evidence_hash(source, signature, severity),
            action_hint,
        },
        identity,
    )
}

/// Whether an event concerns the file that is watched for. A watch without a name takes every
/// event; one with a name, given as its bytes, takes just the events that carry that name.
pub open spec fn is_reported(filter_name: Option<Seq<u8>>, event_name: Option<Seq<char>>) -> bool {
    match filter_name {
        Some(expected) => event_name is Some && expected == vstd::utf8::encode_utf8(event_name->0),
        None => true,
    }
}

/// The bytes of an optional slice.
pub open spec fn opt_bytes_view(bytes: Option<&[u8]>) -> Option<Seq<u8>> {
    match bytes {
        Some(inner) => Some(inner@),
        None => None,
    }
}

/// Whether two runs of bytes are the same.
fn same_bytes(a: &[u8], b: &[u8]) -> (result: bool)
    ensures
        result == (a@ == b@),
{
    if a.len() != b.len() {
        return false;
    }
    let mut i: usize = 0;
    while i < a.len()
        invariant
            i <= a@.len(),
            a@.len() == b@.len(),
            forall|k: int| 0 <= k < i ==> a@[k] == b@[k],
        decreases a@.len() - i,
    {
        if a[i] != b[i] {
            return false;
        }
        i += 1;
    }
    assert(a@ == b@);
    true
}

/// Whether an event concerns the file that is watched for.
pub fn should_report_event(filter_name: Option<&[u8]>, event_name: Option<&str>) -> (result: bool)
    ensures
        result == is_reported(
            opt_bytes_view(filter_name),
            text::opt_str_view(event_name),
        ),
{
    match (filter_name, event_name) {
        (Some(expected), Some(actual)) => same_bytes(expected, actual.as_bytes()),
        (Some(_), None) => false,
        (None, _) => true,
    }
}

/// The directory that is watched: its path, and the name of its last component where it has one
/// that is text.
pub struct WatchRoot {
    pub path: String,
    pub name: Option<String>,
}

/// The contents of a [`WatchRoot`].
pub struct WatchRootView {
    pub path: Seq<char>,
    pub name: Option<Seq<char>>,
}

impl View for WatchRoot {
    type V = WatchRootView;

    open spec fn view(&self) -> WatchRootView {
        WatchRootView { path: self.path@, name: text::opt_view(self.name) }
    }
}

/// The text of some bytes, where they are valid UTF-8.
pub open spec fn utf8_text(bytes: Seq<u8>) -> Option<Seq<char>> {
    if vstd::utf8::valid_utf8(bytes) {
        Some(vstd::utf8::decode_utf8(bytes))
    } else {
        None
    }
}

/// The text of some bytes, where they are valid UTF-8.
fn read_utf8(bytes: &[u8]) -> (text: Option<String>)
    ensures
        text::opt_view(text) == utf8_text(bytes@),
{
    let read = from_utf8_lossy(bytes);
    proof {
        vstd::utf8::encode_utf8_valid_utf8(read@);
        if vstd::utf8::valid_utf8(bytes@) {
            vstd::utf8::decode_utf8_encode_utf8(bytes@);
        }
    }
    if same_bytes(read.as_str().as_bytes(), bytes) {
        Some(read)
    } else {
        None
    }
}

/// The directory that is watched, from the bytes of its path and of its last component.
pub fn watch_root(path: &[u8], file_name: Option<&[u8]>) -> (root: WatchRoot)
    ensures
        root@.path == inotify::lossy_text(path@),
        vstd::utf8::valid_utf8(path@) ==> root@.path == vstd::utf8::decode_utf8(path@),
        root@.name == (match file_name {
            Some(name) => utf8_text(name@),
            None => None,
        }),
{
    WatchRoot {
        path: from_utf8_lossy(path),
        name: match file_name {
            Some(name) => read_utf8(name),
            None => None,
        },
    }
}

/// How an event names its file: by the name that it carries, else by the watched directory.
pub open spec fn file_label(root: WatchRootView, file_name: Option<Seq<char>>) -> Seq<char> {
    text::text_or(file_name, text::text_or(root.name, root.path))
}

/// The path that an event is about.
pub open spec fn source_path(root: WatchRootView, file_name: Option<Seq<char>>) -> Seq<char> {
    match file_name {
        Some(name) => if text::has_prefix(name, "/"@) {
            name
        } else {
            sysfs::file_in(root.path, name)
        },
        None => root.path,
    }
}

/// What a kind of file system event is reported as.
pub struct FsKind {
    pub incident_type_id: u8,
    pub severity: &'static str,
    pub label: &'static str,
    pub action_hint: &'static str,
}

/// The contents of an [`FsKind`].
pub struct FsKindView {
    pub incident_type_id: u8,
    pub severity: Seq<char>,
    pub label: Seq<char>,
    pub action_hint: Seq<char>,
}

impl View for FsKind {
    type V = FsKindView;

    open spec fn view(&self) -> FsKindView {
        FsKindView {
            incident_type_id: self.incident_type_id,
            severity: self.severity@,
            label: self.label@,
            action_hint: self.action_hint@,
        }
    }
}

/// What an event is reported as: deleted before moved before created before modified.
pub open spec fn primary_kind(mask: u32) -> Option<FsKindView> {
    if mask & (IN_DELETE | IN_DELETE_SELF) != 0 {
        Some(
            FsKindView {
                incident_type_id: 11,
                severity: "high"@,
                label: "file_deleted"@,
                action_hint: "investigate_deletion"@,
            },
        )
    } else if mask & (IN_MOVED_FROM | IN_MOVED_TO | IN_MOVE_SELF) != 0 {
        Some(
            FsKindView {
                incident_type_id: 12,
                severity: "medium"@,
                label: "file_moved"@,
                action_hint: "log_event"@,
            },
        )
    } else if mask & IN_CREATE != 0 {
        Some(
            FsKindView {
                incident_type_id: 9,
                severity: "low"@,
                label: "file_created"@,
                action_hint: "log_event"@,
            },
        )
    } else if mask & (IN_MODIFY | IN_ATTRIB | IN_CLOSE_WRITE) != 0 {
        Some(
            FsKindView {
                incident_type_id: 10,
                severity: "medium"@,
                label: "file_modified"@,
                action_hint: "log_event"@,
            },
        )
    } else {
        None
    }
}

/// What an event is reported as: deleted before moved before created before modified.
pub fn select_primary_kind(mask: u32) -> (kind: Option<FsKind>)
    ensures
        match kind {
            Some(inner) => primary_kind(mask) == Some(inner@),
            None => primary_kind(mask) is None,
        },
{
    if mask & (IN_DELETE | IN_DELETE_SELF) != 0 {
        Some(
            FsKind {
                incident_type_id: 11,
                severity: "high",
                label: "file_deleted",
                action_hint: "investigate_deletion",
            },
        )
    } else if mask & (IN_MOVED_FROM | IN_MOVED_TO | IN_MOVE_SELF) != 0 {
        Some(
            FsKind {
                incident_type_id: 12,
                severity: "medium",
                label: "file_moved",
                action_hint: "log_event",
            },
        )
    } else if mask & IN_CREATE != 0 {
        Some(
            FsKind {
                incident_type_id: 9,
                severity: "low",
                label: "file_created",
                action_hint: "log_event",
            },
        )
    } else if mask & (IN_MODIFY | IN_ATTRIB | IN_CLOSE_WRITE) != 0 {
        Some(
            FsKind {
                incident_type_id: 10,
                severity: "medium",
                label: "file_modified",
                action_hint: "log_event",
            },
        )
    } else {
        None
    }
}

/// An incident, and the diagnostic line that goes with it.
pub struct FsReport {
    pub incident: IncidentRecord,
    pub diagnostic: String,
}

/// The contents of an [`FsReport`].
pub struct FsReportView {
    pub incident: IncidentView,
    pub diagnostic: Seq<char>,
}

impl View for FsReport {
    type V = FsReportView;

    open spec fn view(&self) -> FsReportView {
        FsReportView { incident: self.incident@, diagnostic: self.diagnostic@ }
    }
}

/// The contents of the reports of a list.
pub open spec fn report_views(reports: Seq<FsReport>) -> Seq<FsReportView> {
    reports.map_values(|r: FsReport| r@)
}

/// The clock readings that go into one event.
pub struct FsClock {
    /// When an upload is noted, in milliseconds.
    pub upload_ms: u128,
    /// For the incident of many uploads.
    pub upload: Stamp,
    /// For the incident of the event itself.
    pub primary: Stamp,
}

/// The contents of an [`FsClock`].
pub struct FsClockView {
    pub upload_ms: u128,
    pub upload: StampView,
    pub primary: StampView,
}

impl View for FsClock {
    type V = FsClockView;

    open spec fn view(&self) -> FsClockView {
        FsClockView {
            upload_ms: self.upload_ms,
            upload: self.upload@,
            primary: self.primary@,
        }
    }
}

impl FsClockView {
    /// Readings that the clock can give.
    pub open spec fn is_reading(self) -> bool {
        &&& usb_monitor::is_millis(self.upload_ms)
        &&& self.upload.is_reading()
        &&& self.primary.is_reading()
    }
}

impl FsClock {
    /// Reads the clock for one event.
    pub fn read() -> (clock: Self)
        ensures
            clock@.is_reading(),
    {
        let upload_ms: u128 = current_timestamp_ms();
        let upload = Stamp::read();
        let primary = Stamp::read();
        FsClock { upload_ms, upload, primary }
    }
}

/// The event closes a file that was open for writing.
pub open spec fn is_upload(mask: u32) -> bool {
    mask & IN_CLOSE_WRITE != 0
}

/// The recent uploads after an event.
pub open spec fn uploads_after(uploads: Seq<u128>, mask: u32, now: u128) -> Seq<u128> {
    if is_upload(mask) {
        window::recent(uploads.push(now), now, UPLOAD_SPAN_MS)
    } else {
        uploads
    }
}

/// So many recent uploads are reported.
pub open spec fn is_upload_burst(count: nat) -> bool {
    count >= UPLOAD_LIMIT && count % (UPLOAD_LIMIT as nat) == 0
}

/// What the incident of many uploads says.
pub open spec fn upload_reason(count: nat) -> Seq<char> {
    digits::decimal(count)
        + " file uploads (close-after-write) in 60 seconds — possible exfiltration"@
}

/// The report of many uploads.
pub open spec fn upload_report(
    count: nat,
    root: WatchRootView,
    source: Seq<char>,
    stamp: StampView,
    identity: IdentityView,
) -> FsReportView {
    FsReportView {
        incident: fs_incident(
            13,
            "critical"@,
            "mass_file_upload_detected"@,
            upload_reason(count),
            source,
            "quarantine_and_alert"@,
            stamp,
            identity,
        ),
        diagnostic: "fs watch type=13 "@ + upload_reason(count) + " dir="@ + root.path,
    }
}

/// The report of an event itself.
pub open spec fn primary_report(
    kind: FsKindView,
    root: WatchRootView,
    label: Seq<char>,
    source: Seq<char>,
    stamp: StampView,
    identity: IdentityView,
) -> FsReportView {
    FsReportView {
        incident: fs_incident(
            kind.incident_type_id,
            kind.severity,
            kind.label,
            kind.label + ": "@ + label,
            source,
            kind.action_hint,
            stamp,
            identity,
        ),
        diagnostic: "fs watch type="@ + digits::decimal(kind.incident_type_id as nat) + " action="@
            + kind.label + " file="@ + label + " dir="@ + root.path,
    }
}

/// A list of one report, or none.
pub open spec fn report_if(condition: bool, report: FsReportView) -> Seq<FsReportView> {
    if condition {
        seq![report]
    } else {
        Seq::empty()
    }
}

/// The reports of an event: of many uploads, where it is one too many, and of the event itself.
pub open spec fn event_reports(
    mask: u32,
    root: WatchRootView,
    file_name: Option<Seq<char>>,
    uploads: Seq<u128>,
    clock: FsClockView,
    identity: IdentityView,
) -> Seq<FsReportView> {
    let count = uploads_after(uploads, mask, clock.upload_ms).len();
    let source = source_path(root, file_name);
    report_if(
        is_upload(mask) && is_upload_burst(count),
        upload_report(count, root, source, clock.upload, identity),
    ) + report_if(
        primary_kind(mask) is Some,
        primary_report(
            primary_kind(mask)->0,
            root,
            file_label(root, file_name),
            source,
            clock.primary,
            identity,
        ),
    )
}

/// How an event names its file.
fn label_of<'a>(root: &'a WatchRoot, file_name: Option<&'a str>) -> (label: &'a str)
    ensures
        label@ == file_label(root@, text::opt_str_view(file_name)),
{
    match file_name {
        Some(name) => name,
        None => match &root.name {
            Some(name) => name.as_str(),
            None => root.path.as_str(),
        },
    }
}

/// The path that an event is about.
fn source_of(root: &WatchRoot, file_name: Option<&str>) -> (source: String)
    ensures
        source@ == source_path(root@, text::opt_str_view(file_name)),
{
    match file_name {
        Some(name) => if starts_with(name, "/") {
            name.to_owned()
        } else {
            join_file(root.path.as_str(), name)
        },
        None => root.path.clone(),
    }
}

/// Reports many uploads.
fn report_uploads(
    count: usize,
    root: &WatchRoot,
    source: &str,
    stamp: &Stamp,
    identity: &SensorIdentity,
) -> (report: FsReport)
    ensures
        report@ == upload_report(count as nat, root@, source@, stamp@, identity@),
{
    let mut reason = write_decimal(count as u128);
    reason.append(" file uploads (close-after-write) in 60 seconds — possible exfiltration");
    let record = emit_fs_incident(
        13,
        "critical",
        "mass_file_upload_detected",
        reason.as_str(),
        source,
        "quarantine_and_alert",
        stamp,
        identity,
    );
    let mut diagnostic = "fs watch type=13 ".to_owned();
    diagnostic.append(reason.as_str());
    diagnostic.append(" dir=");
    diagnostic.append(root.path.as_str());
    FsReport { incident: record, diagnostic }
}

/// Reports an event itself.
fn report_primary(
    kind: &FsKind,
    root: &WatchRoot,
    label: &str,
    source: &str,
    stamp: &Stamp,
    identity: &SensorIdentity,
) -> (report: FsReport)
    ensures
        report@ == primary_report(kind@, root@, label@, source@, stamp@, identity@),
{
    let mut description = kind.label.to_owned();
    description.append(": ");
    description.append(label);
    let record = emit_fs_incident(
        kind.incident_type_id,
        kind.severity,
        kind.label,
        description.as_str(),
        source,
        kind.action_hint,
        stamp,
        identity,
    );
    let mut diagnostic = "fs watch type=".to_owned();
    diagnostic.append(write_decimal(kind.incident_type_id as u128).as_str());
    diagnostic.append(" action=");
    diagnostic.append(kind.label);
    diagnostic.append(" file=");
    diagnostic.append(label);
    diagnostic.append(" dir=");
    diagnostic.append(root.path.as_str());
    FsReport { incident: record, diagnostic }
}

/// Reports an event at the times of `clock`.
pub fn report_inotify_event_at(
    mask: u32,
    root: &WatchRoot,
    file_name: Option<&str>,
    upload_times: &mut Vec<u128>,
    clock: &FsClock,
    identity: &SensorIdentity,
) -> (reports: Vec<FsReport>)
    ensures
        final(upload_times)@ == uploads_after(old(upload_times)@, mask, clock@.upload_ms),
        report_views(reports@) == event_reports(
            mask,
            root@,
            text::opt_str_view(file_name),
            old(upload_times)@,
            clock@,
            identity@,
        ),
{
    let ghost before = upload_times@;
    let label = label_of(root, file_name);
    let source = source_of(root, file_name);
    let mut reports: Vec<FsReport> = Vec::new();
    if mask & IN_CLOSE_WRITE != 0 {
        note_time(upload_times, clock.upload_ms, UPLOAD_SPAN_MS);
        let count: usize = upload_times.len();
        if count >= UPLOAD_LIMIT && count % UPLOAD_LIMIT == 0 {
            reports.push(report_uploads(count, root, source.as_str(), &clock.upload, identity));
        }
    }
    let ghost count = uploads_after(before, mask, clock@.upload_ms).len();
    let ghost first = report_if(
        is_upload(mask) && is_upload_burst(count),
        upload_report(count, root@, source@, clock@.upload, identity@),
    );
    assert(report_views(reports@) == first);
    if let Some(kind) = select_primary_kind(mask) {
        reports.push(report_primary(&kind, root, label, source.as_str(), &clock.primary, identity));
    }
    assert(report_views(reports@) == event_reports(
        mask,
        root@,
        text::opt_str_view(file_name),
        before,
        clock@,
        identity@,
    ));
    reports
}

/// What an event at the times of `clock` does to the recent uploads and reports.
pub open spec fn event_takes(
    mask: u32,
    root: WatchRootView,
    file_name: Option<Seq<char>>,
    before: Seq<u128>,
    clock: FsClockView,
    identity: IdentityView,
    after: Seq<u128>,
    reports: Seq<FsReportView>,
) -> bool {
    &&& after == uploads_after(before, mask, clock.upload_ms)
    &&& reports == event_reports(mask, root, file_name, before, clock, identity)
}

/// Reports an event at the present time.
pub fn report_inotify_event(
    mask: u32,
    root: &WatchRoot,
    file_name: Option<&str>,
    upload_times: &mut Vec<u128>,
    identity: &SensorIdentity,
) -> (reports: Vec<FsReport>)
    ensures
        exists|clock: FsClockView|
            clock.is_reading() && #[trigger] event_takes(
                mask,
                root@,
                text::opt_str_view(file_name),
                old(upload_times)@,
                clock,
                identity@,
                final(upload_times)@,
                report_views(reports@),
            ),
{
    let clock = FsClock::read();
    let reports = report_inotify_event_at(mask, root, file_name, upload_times, &clock, identity);
    assert(event_takes(
        mask,
        root@,
        text::opt_str_view(file_name),
        old(upload_times)@,
        clock@,
        identity@,
        upload_times@,
        report_views(reports@),
    ));
    reports
}

/// The notices that concern the file that is watched for.
pub open spec fn reported(filter_name: Option<Seq<u8>>, notices: Seq<NoticeView>) -> Seq<NoticeView> {
    notices.filter(|notice: NoticeView| is_reported(filter_name, notice.name))
}

/// The recent uploads after a run of notices, each at its own times.
pub open spec fn uploads_after_all(
    uploads: Seq<u128>,
    notices: Seq<NoticeView>,
    clocks: Seq<FsClockView>,
) -> Seq<u128>
    decreases notices.len(),
{
    if notices.len() == 0 {
        uploads
    } else {
        uploads_after(
            uploads_after_all(uploads, notices.drop_last(), clocks),
            notices.last().mask,
            clocks[notices.len() - 1].upload_ms,
        )
    }
}

/// The reports of a run of notices, each at its own times.
pub open spec fn all_reports(
    root: WatchRootView,
    uploads: Seq<u128>,
    notices: Seq<NoticeView>,
    clocks: Seq<FsClockView>,
    identity: IdentityView,
) -> Seq<FsReportView>
    decreases notices.len(),
{
    if notices.len() == 0 {
        Seq::empty()
    } else {
        let front = notices.drop_last();
        let last = notices.last();
        all_reports(root, uploads, front, clocks, identity) + event_reports(
            last.mask,
            root,
            last.name,
            uploads_after_all(uploads, front, clocks),
            clocks[notices.len() - 1],
            identity,
        )
    }
}

/// What a run of notices does to the recent uploads and reports.
pub open spec fn notices_take(
    root: WatchRootView,
    before: Seq<u128>,
    notices: Seq<NoticeView>,
    clocks: Seq<FsClockView>,
    identity: IdentityView,
    after: Seq<u128>,
    reports: Seq<FsReportView>,
) -> bool {
    &&& clocks.len() == notices.len()
    &&& forall|i: int| 0 <= i < clocks.len() ==> (#[trigger] clocks[i]).is_reading()
    &&& after == uploads_after_all(before, notices, clocks)
    &&& reports == all_reports(root, before, notices, clocks, identity)
}

/// What a run of notices does depends on the clock just up to its end.
proof fn lemma_later_clock(
    root: WatchRootView,
    uploads: Seq<u128>,
    notices: Seq<NoticeView>,
    clocks: Seq<FsClockView>,
    later: FsClockView,
    identity: IdentityView,
)
    requires
        notices.len() <= clocks.len(),
    ensures
        uploads_after_all(uploads, notices, clocks.push(later)) == uploads_after_all(
            uploads,
            notices,
            clocks,
        ),
        all_reports(root, uploads, notices, clocks.push(later), identity) == all_reports(
            root,
            uploads,
            notices,
            clocks,
            identity,
        ),
    decreases notices.len(),
{
    if notices.len() > 0 {
        lemma_later_clock(root, uploads, notices.drop_last(), clocks, later, identity);
        assert(clocks.push(later)[notices.len() - 1] == clocks[notices.len() - 1]);
    }
}

/// Adds the reports of `more` to those of `reports`.
fn append_reports(reports: &mut Vec<FsReport>, more: Vec<FsReport>)
    ensures
        report_views(final(reports)@) == report_views(old(reports)@) + report_views(more@),
{
    let mut rest = more;
    reports.append(&mut rest);
    assert(report_views(reports@) == report_views(old(reports)@) + report_views(more@));
}

/// Reports the notices that concern the file that is watched for, each at the time when its turn
/// comes.
pub fn report_notices(
    notices: &Vec<Notice>,
    filter_name: Option<&[u8]>,
    root: &WatchRoot,
    upload_times: &mut Vec<u128>,
    identity: &SensorIdentity,
) -> (reports: Vec<FsReport>)
    ensures
        exists|clocks: Seq<FsClockView>| #[trigger]
            notices_take(
                root@,
                old(upload_times)@,
                reported(opt_bytes_view(filter_name), inotify::notice_views(notices@)),
                clocks,
                identity@,
                final(upload_times)@,
                report_views(reports@),
            ),
{
    let ghost filter = opt_bytes_view(filter_name);
    let ghost all = inotify::notice_views(notices@);
    let ghost concerns = |notice: NoticeView| is_reported(filter, notice.name);
    let ghost before = upload_times@;
    let ghost mut clocks: Seq<FsClockView> = Seq::empty();
    let mut reports: Vec<FsReport> = Vec::new();
    let mut i: usize = 0;
    assert(all.take(0).filter(concerns) == Seq::<NoticeView>::empty()) by {
        reveal(Seq::filter);
    }
    assert(report_views(reports@) == Seq::<FsReportView>::empty());
    while i < notices.len()
        invariant
            i <= notices@.len(),
            filter == opt_bytes_view(filter_name),
            all == inotify::notice_views(notices@),
            concerns == (|notice: NoticeView| is_reported(filter, notice.name)),
            notices_take(
                root@,
                before,
                all.take(i as int).filter(concerns),
                clocks,
                identity@,
                upload_times@,
                report_views(reports@),
            ),
        decreases notices@.len() - i,
    {
        let notice = &notices[i];
        let name = as_opt_str(&notice.name);
        let ghost front = all.take(i as int).filter(concerns);
        proof {
            reveal(Seq::filter);
            assert(all.take(i + 1).drop_last() == all.take(i as int));
            assert(all.take(i + 1).last() == notice@);
        }
        if should_report_event(filter_name, name) {
            let clock = FsClock::read();
            let more = report_inotify_event_at(
                notice.mask,
                root,
                name,
                upload_times,
                &clock,
                identity,
            );
            append_reports(&mut reports, more);
            proof {
                lemma_later_clock(root@, before, front, clocks, clock@, identity@);
                clocks = clocks.push(clock@);
                assert(front.push(notice@).drop_last() == front);
            }
        }
        i += 1;
    }
    assert(all.take(i as int) == all);
    assert(notices_take(
        root@,
        before,
        reported(filter, all),
        clocks,
        identity@,
        upload_times@,
        report_views(reports@),
    ));
    reports
}

/// All reports of an event carry incidents of the taxonomy: type 9 to 12 for the event itself, and
/// type 13 for many uploads.
pub proof fn lemma_fs_incidents_in_taxonomy(
    mask: u32,
    root: WatchRootView,
    file_name: Option<Seq<char>>,
    uploads: Seq<u128>,
    clock: FsClockView,
    identity: IdentityView,
)
    ensures
        ({
            let reports = event_reports(mask, root, file_name, uploads, clock, identity);
            forall|i: int|
                0 <= i < reports.len() ==> incident::in_taxonomy(
                    (#[trigger] reports[i]).incident,
                ) && 9 <= reports[i].incident.incident_type_id <= 13
        }),
{
}

/// An event reports many uploads exactly when it is an upload itself, and with it the uploads of
/// the last 60 seconds are a multiple of ten.
pub proof fn lemma_upload_threshold(
    mask: u32,
    root: WatchRootView,
    file_name: Option<Seq<char>>,
    uploads: Seq<u128>,
    clock: FsClockView,
    identity: IdentityView,
)
    ensures
        ({
            let reports = event_reports(mask, root, file_name, uploads, clock, identity);
            let earlier = window::recent(uploads, clock.upload_ms, UPLOAD_SPAN_MS).len();
            (exists|i: int|
                0 <= i < reports.len() && (#[trigger] reports[i]).incident.incident_type_id == 13)
                <==> mask & IN_CLOSE_WRITE != 0 && (earlier + 1) % 10 == 0
        }),
{
    window::lemma_recent(uploads, clock.upload_ms, UPLOAD_SPAN_MS);
    let reports = event_reports(mask, root, file_name, uploads, clock, identity);
    let earlier = window::recent(uploads, clock.upload_ms, UPLOAD_SPAN_MS).len();
    if mask & IN_CLOSE_WRITE != 0 && (earlier + 1) % 10 == 0 {
        assert(reports[0].incident.incident_type_id == 13);
    }
}

/// Where fewer than ten uploads were recent and an upload makes them ten or more, they are exactly
/// ten, and that is reported.
pub proof fn lemma_first_upload_burst(mask: u32, uploads: Seq<u128>, now: u128)
    requires
        uploads.len() < 10,
        uploads_after(uploads, mask, now).len() >= 10,
    ensures
        is_upload(mask),
        uploads_after(uploads, mask, now).len() == 10,
        is_upload_burst(uploads_after(uploads, mask, now).len()),
{
    window::lemma_recent(uploads, now, UPLOAD_SPAN_MS);
}

/// An event has a kind of its own exactly when its mask holds an event that is watched for.
pub proof fn lemma_watched_events_are_reported(mask: u32)
    ensures
        primary_kind(mask) is Some <==> mask & inotify::WATCH_MASK != 0,
{
    assert(mask & (0x100u32 | 0x2 | 0x200 | 0x40 | 0x80 | 0x4 | 0x8 | 0x400 | 0x800) != 0 <==> (mask
        & (0x200u32 | 0x400) != 0 || mask & (0x40u32 | 0x80 | 0x800) != 0 || mask & 0x100u32 != 0
        || mask & (0x2u32 | 0x4 | 0x8) != 0)) by (bit_vector);
}

/// The severity of a kind of event.
pub open spec fn kind_level(mask: u32) -> u8 {
    match primary_kind(mask) {
        Some(kind) => incident::severity_level(kind.severity),
        None => 0,
    }
}

/// Of the events that a mask holds, one of the highest severity is reported, unless the mask says
/// of one and the same file both that it was created and that it was modified: that is reported as
/// created.
pub proof fn lemma_highest_severity_wins(mask: u32, event: u32)
    requires
        mask & IN_CREATE == 0 || mask & (IN_MODIFY | IN_ATTRIB | IN_CLOSE_WRITE) == 0,
        mask & event == event,
    ensures
        kind_level(event) <= kind_level(mask),
{
    incident::lemma_severity_levels();
    assert(mask & event == event ==> {
        &&& mask & (0x200u32 | 0x400) == 0 ==> event & (0x200u32 | 0x400) == 0
        &&& mask & (0x40u32 | 0x80 | 0x800) == 0 ==> event & (0x40u32 | 0x80 | 0x800) == 0
        &&& mask & 0x100u32 == 0 ==> event & 0x100u32 == 0
        &&& mask & (0x2u32 | 0x4 | 0x8) == 0 ==> event & (0x2u32 | 0x4 | 0x8) == 0
    }) by (bit_vector);
}

} // verus!
