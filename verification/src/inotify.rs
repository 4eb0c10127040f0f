//! What the kernel tells through inotify, as bytes and as notices.

use vstd::prelude::*;

use crate::byte_order::ByteOrder;
use crate::text;

verus! {

/// A file was created in the watched directory.
pub const IN_CREATE: u32 = 0x0000_0100;

/// A file was modified.
pub const IN_MODIFY: u32 = 0x0000_0002;

/// A file was deleted from the watched directory.
pub const IN_DELETE: u32 = 0x0000_0200;

/// A file was moved out of the watched directory.
pub const IN_MOVED_FROM: u32 = 0x0000_0040;

/// A file was moved into the watched directory.
pub const IN_MOVED_TO: u32 = 0x0000_0080;

/// The attributes of a file were changed.
pub const IN_ATTRIB: u32 = 0x0000_0004;

/// A file that was open for writing was closed.
pub const IN_CLOSE_WRITE: u32 = 0x0000_0008;

/// The watched directory itself was deleted.
pub const IN_DELETE_SELF: u32 = 0x0000_0400;

/// The watched directory itself was moved.
pub const IN_MOVE_SELF: u32 = 0x0000_0800;

/// The events that are watched for: all of the above.
pub const WATCH_MASK: u32 = IN_CREATE | IN_MODIFY | IN_DELETE | IN_MOVED_FROM | IN_MOVED_TO
    | IN_ATTRIB | IN_CLOSE_WRITE | IN_DELETE_SELF | IN_MOVE_SELF;

/// The size of an inotify record without its name.
pub const RECORD_HEADER: usize = 16;

/// The number that four bytes stand for.
pub open spec fn number(bytes: Seq<u8>, order: ByteOrder) -> nat {
    match order {
        ByteOrder::Little => (bytes[0] + 0x100 * bytes[1] + 0x1_0000 * bytes[2] + 0x100_0000
            * bytes[3]) as nat,
        ByteOrder::Big => (bytes[3] + 0x100 * bytes[2] + 0x1_0000 * bytes[1] + 0x100_0000
            * bytes[0]) as nat,
    }
}

/// Reads the number at position `at`.
fn read_number(bytes: &[u8], at: usize, order: ByteOrder) -> (value: u32)
    requires
        at + 4 <= bytes@.len(),
    ensures
        value == number(bytes@.subrange(at as int, at + 4), order),
{
    let a: u32 = bytes[at] as u32;
    let b: u32 = bytes[at + 1] as u32;
    let c: u32 = bytes[at + 2] as u32;
    let d: u32 = bytes[at + 3] as u32;
    match order {
        ByteOrder::Little => a + 0x100 * b + 0x1_0000 * c + 0x100_0000 * d,
        ByteOrder::Big => d + 0x100 * c + 0x1_0000 * b + 0x100_0000 * a,
    }
}

/// The text that `String::from_utf8_lossy` makes of bytes.
pub uninterp spec fn lossy_text(bytes: Seq<u8>) -> Seq<char>;

/// `String::from_utf8_lossy` reads bytes as UTF-8. Bytes that are valid UTF-8 give just the text
/// that they encode; in others, what is invalid is replaced, in a way that depends on the bytes
/// alone.
#[verifier::external_body]
pub(crate) fn from_utf8_lossy(bytes: &[u8]) -> (text: String)
    ensures
        text@ == lossy_text(bytes@),
        vstd::utf8::valid_utf8(bytes@) ==> text@ == vstd::utf8::decode_utf8(bytes@),
{
    String::from_utf8_lossy(bytes).into_owned()
}

/// The bytes before the first zero byte.
pub open spec fn before_zero(bytes: Seq<u8>) -> Seq<u8>
    decreases bytes.len(),
{
    if bytes.len() == 0 || bytes.first() == 0 {
        Seq::empty()
    } else {
        seq![bytes.first()] + before_zero(bytes.drop_first())
    }
}

/// The file name in the name field of a record, where there is one.
pub open spec fn name_of(field: Seq<u8>) -> Option<Seq<char>> {
    if before_zero(field).len() == 0 {
        None
    } else {
        Some(lossy_text(before_zero(field)))
    }
}

/// Without a zero byte before `end`, and one at `end` unless the field ends there, the name has
/// `end` bytes.
pub proof fn lemma_before_zero(bytes: Seq<u8>, end: int)
    requires
        0 <= end <= bytes.len(),
        forall|i: int| 0 <= i < end ==> bytes[i] != 0,
        end < bytes.len() ==> bytes[end] == 0,
    ensures
        before_zero(bytes) == bytes.subrange(0, end),
    decreases end,
{
    if end > 0 {
        let rest = bytes.drop_first();
        assert forall|i: int| 0 <= i < end - 1 implies rest[i] != 0 by {
            assert(rest[i] == bytes[i + 1]);
        }
        lemma_before_zero(rest, end - 1);
        assert(seq![bytes.first()] + rest.subrange(0, end - 1) == bytes.subrange(0, end));
    } else {
        assert(bytes.subrange(0, 0) == Seq::<u8>::empty());
    }
}

/// The part of a name field that holds the name.
pub fn name_bytes(field: &[u8]) -> (name: &[u8])
    ensures
        name@ == before_zero(field@),
{
    let mut end: usize = 0;
    while end < field.len() && field[end] != 0
        invariant
            end <= field@.len(),
            forall|i: int| 0 <= i < end ==> field@[i] != 0,
        decreases field@.len() - end,
    {
        end += 1;
    }
    proof {
        lemma_before_zero(field@, end as int);
    }
    vstd::slice::slice_subrange(field, 0, end)
}

/// The file name in the name field of a record, where there is one.
pub fn decode_inotify_name(bytes: &[u8]) -> (name: Option<String>)
    ensures
        text::opt_view(name) == name_of(bytes@),
        name matches Some(text) ==> vstd::utf8::valid_utf8(before_zero(bytes@)) ==> text@
            == vstd::utf8::decode_utf8(before_zero(bytes@)),
{
    let value = name_bytes(bytes);
    if value.len() == 0 {
        return None;
    }
    Some(from_utf8_lossy(value))
}

/// One notice: what happened, and to which file.
pub struct Notice {
    pub mask: u32,
    pub name: Option<String>,
}

/// The contents of a [`Notice`].
pub struct NoticeView {
    pub mask: u32,
    pub name: Option<Seq<char>>,
}

impl View for Notice {
    type V = NoticeView;

    open spec fn view(&self) -> NoticeView {
        NoticeView { mask: self.mask, name: text::opt_view(self.name) }
    }
}

/// The contents of the notices of a list.
pub open spec fn notice_views(notices: Seq<Notice>) -> Seq<NoticeView> {
    notices.map_values(|n: Notice| n@)
}

/// The length of the name field of the record at the front of `bytes`.
pub open spec fn name_length(bytes: Seq<u8>, order: ByteOrder) -> nat {
    number(bytes.subrange(12, 16), order)
}

/// The notice of the record at the front of `bytes`; a name field that runs past the end is cut
/// off there.
pub open spec fn first_notice(bytes: Seq<u8>, order: ByteOrder) -> NoticeView {
    let end = RECORD_HEADER + name_length(bytes, order);
    NoticeView {
        mask: number(bytes.subrange(4, 8), order) as u32,
        name: name_of(
            bytes.subrange(
                16,
                if end <= bytes.len() {
                    end
                } else {
                    bytes.len() as int
                },
            ),
        ),
    }
}

/// The notices of a run of records.
pub open spec fn notices_in(bytes: Seq<u8>, order: ByteOrder) -> Seq<NoticeView>
    decreases bytes.len(),
{
    if bytes.len() < RECORD_HEADER {
        Seq::empty()
    } else {
        let end = RECORD_HEADER + name_length(bytes, order);
        seq![first_notice(bytes, order)] + if end <= bytes.len() {
            notices_in(bytes.skip(end), order)
        } else {
            Seq::empty()
        }
    }
}

/// Reads the record at `offset`: its notice, and where the next record begins, unless the name
/// field runs past the end.
fn parse_record(buffer: &[u8], offset: usize, order: ByteOrder) -> (result: (
    Notice,
    Option<usize>,
))
    requires
        offset + RECORD_HEADER <= buffer@.len(),
    ensures
        result.0@ == first_notice(buffer@.skip(offset as int), order),
        match result.1 {
            Some(next) => next <= buffer@.len() && next == offset + RECORD_HEADER + name_length(
                buffer@.skip(offset as int),
                order,
            ),
            None => offset + RECORD_HEADER + name_length(buffer@.skip(offset as int), order)
                > buffer@.len(),
        },
{
    let ghost rest = buffer@.skip(offset as int);
    let length: usize = buffer.len();
    let mask: u32 = read_number(buffer, offset + 4, order);
    let name_len: usize = read_number(buffer, offset + 12, order) as usize;
    assert(rest.subrange(4, 8) == buffer@.subrange(offset + 4, offset + 8));
    assert(rest.subrange(12, 16) == buffer@.subrange(offset + 12, offset + 16));
    let name_start: usize = offset + RECORD_HEADER;
    let fits = name_len <= length - name_start;
    let name_end: usize = if fits {
        name_start + name_len
    } else {
        length
    };
    let field = vstd::slice::slice_subrange(buffer, name_start, name_end);
    assert(field@ == rest.subrange(16, name_end - offset));
    let notice = Notice { mask, name: decode_inotify_name(field) };
    if fits {
        (notice, Some(name_end))
    } else {
        (notice, None)
    }
}

/// The notices of the records that were read.
pub fn parse_notices(buffer: &[u8], order: ByteOrder) -> (notices: Vec<Notice>)
    ensures
        notice_views(notices@) == notices_in(buffer@, order),
{
    let mut notices: Vec<Notice> = Vec::new();
    let mut offset: usize = 0;
    assert(buffer@.skip(0) == buffer@);
    assert(notice_views(notices@) + notices_in(buffer@, order) == notices_in(buffer@, order));
    while buffer.len() - offset >= RECORD_HEADER
        invariant
            offset <= buffer@.len(),
            notice_views(notices@) + notices_in(buffer@.skip(offset as int), order) == notices_in(
                buffer@,
                order,
            ),
        decreases buffer@.len() - offset,
    {
        let ghost rest = buffer@.skip(offset as int);
        let ghost before = notice_views(notices@);
        let (notice, next) = parse_record(buffer, offset, order);
        let ghost one = notice@;
        notices.push(notice);
        assert(notice_views(notices@) == before.push(one));
        match next {
            Some(at) => {
                let ghost end = RECORD_HEADER + name_length(rest, order);
                assert(rest.skip(end) == buffer@.skip(at as int));
                assert(before + notices_in(rest, order) == before.push(one) + notices_in(
                    buffer@.skip(at as int),
                    order,
                ));
                offset = at;
            },
            None => {
                assert(before + notices_in(rest, order) == before.push(one));
                return notices;
            },
        }
    }
    assert(notices_in(buffer@.skip(offset as int), order) == Seq::<NoticeView>::empty());
    assert(notice_views(notices@) == notices_in(buffer@, order));
    notices
}

/// A record as the kernel writes it: a watch, a mask, a cookie, and a name field.
pub struct RecordView {
    pub watch: u32,
    pub mask: u32,
    pub cookie: u32,
    pub field: Seq<u8>,
}

/// The byte of a number at a power of 256.
pub open spec fn byte_at(n: nat, power: nat) -> u8 {
    ((n / power) % 0x100) as u8
}

/// The four bytes of a number.
pub open spec fn number_bytes(n: nat, order: ByteOrder) -> Seq<u8> {
    match order {
        ByteOrder::Little => seq![
            byte_at(n, 1),
            byte_at(n, 0x100),
            byte_at(n, 0x1_0000),
            byte_at(n, 0x100_0000),
        ],
        ByteOrder::Big => seq![
            byte_at(n, 0x100_0000),
            byte_at(n, 0x1_0000),
            byte_at(n, 0x100),
            byte_at(n, 1),
        ],
    }
}

/// The bytes of a record.
pub open spec fn record_bytes(record: RecordView, order: ByteOrder) -> Seq<u8> {
    number_bytes(record.watch as nat, order) + number_bytes(record.mask as nat, order)
        + number_bytes(record.cookie as nat, order) + number_bytes(record.field.len(), order)
        + record.field
}

/// The bytes of a run of records.
pub open spec fn records_bytes(records: Seq<RecordView>, order: ByteOrder) -> Seq<u8>
    decreases records.len(),
{
    if records.len() == 0 {
        Seq::empty()
    } else {
        record_bytes(records.first(), order) + records_bytes(records.drop_first(), order)
    }
}

/// A number below 2^32 is read back from its bytes.
proof fn lemma_number_reads_back(n: nat, order: ByteOrder)
    requires
        n < 0x1_0000_0000,
    ensures
        number_bytes(n, order).len() == 4,
        number(number_bytes(n, order), order) == n,
{
    assert(n == n % 0x100 + 0x100 * ((n / 0x100) % 0x100) + 0x1_0000 * ((n / 0x1_0000) % 0x100)
        + 0x100_0000 * ((n / 0x100_0000) % 0x100));
}

/// Where the parts of a record stand in its bytes.
proof fn lemma_record_parts(
    watch: Seq<u8>,
    mask: Seq<u8>,
    cookie: Seq<u8>,
    length: Seq<u8>,
    field: Seq<u8>,
    tail: Seq<u8>,
)
    requires
        watch.len() == 4,
        mask.len() == 4,
        cookie.len() == 4,
        length.len() == 4,
    ensures
        ({
            let bytes = watch + mask + cookie + length + field + tail;
            &&& bytes.len() == 16 + field.len() + tail.len()
            &&& bytes.subrange(4, 8) == mask
            &&& bytes.subrange(12, 16) == length
            &&& bytes.subrange(16, (16 + field.len()) as int) == field
            &&& bytes.skip((16 + field.len()) as int) == tail
        }),
{
}

/// A record at the front of some bytes is read back as its notice, up to what follows it.
proof fn lemma_record_reads_back(record: RecordView, tail: Seq<u8>, order: ByteOrder)
    requires
        record.field.len() < 0x1_0000_0000,
    ensures
        ({
            let bytes = record_bytes(record, order) + tail;
            &&& bytes.len() == RECORD_HEADER + record.field.len() + tail.len()
            &&& name_length(bytes, order) == record.field.len()
            &&& first_notice(bytes, order) == (NoticeView {
                mask: record.mask,
                name: name_of(record.field),
            })
            &&& bytes.skip(RECORD_HEADER + record.field.len()) == tail
        }),
{
    lemma_number_reads_back(record.watch as nat, order);
    lemma_number_reads_back(record.mask as nat, order);
    lemma_number_reads_back(record.cookie as nat, order);
    lemma_number_reads_back(record.field.len(), order);
    lemma_record_parts(
        number_bytes(record.watch as nat, order),
        number_bytes(record.mask as nat, order),
        number_bytes(record.cookie as nat, order),
        number_bytes(record.field.len(), order),
        record.field,
        tail,
    );
}

/// What the kernel writes about each event is what is read of it, in the same order.
pub proof fn lemma_records_read_back(records: Seq<RecordView>, order: ByteOrder)
    requires
        forall|i: int| 0 <= i < records.len() ==> (#[trigger] records[i]).field.len()
            < 0x1_0000_0000,
    ensures
        notices_in(records_bytes(records, order), order) == records.map_values(
            |r: RecordView| NoticeView { mask: r.mask, name: name_of(r.field) },
        ),
    decreases records.len(),
{
    let notice = |r: RecordView| NoticeView { mask: r.mask, name: name_of(r.field) };
    if records.len() == 0 {
        assert(notices_in(records_bytes(records, order), order) == records.map_values(notice));
    } else {
        let rest = records.drop_first();
        lemma_record_reads_back(records[0], records_bytes(rest, order), order);
        assert forall|i: int| 0 <= i < rest.len() implies (#[trigger] rest[i]).field.len()
            < 0x1_0000_0000 by {
            assert(rest[i] == records[i + 1]);
        }
        lemma_records_read_back(rest, order);
        assert(records.map_values(notice) == seq![notice(records[0])] + rest.map_values(notice));
    }
}

} // verus!
