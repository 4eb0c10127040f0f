//! Delivery of incidents to the intrusion detection system manager (IDSM).

use vstd::prelude::*;

use crate::digits;
use crate::digits::write_decimal;
use crate::incident;
use crate::incident::{incident_record_to_json, IncidentRecord, IncidentView};
use crate::json;
use crate::json::json_string;
use crate::json_reader;
use crate::json_reader::JsonValue;
use crate::text;

verus! {

/// The address of the manager: the configured host and port, or `127.0.0.1` and `8081`.
pub fn idsm_addr(ip: Option<String>, port: Option<String>) -> (addr: String)
    ensures
        addr@ == text::text_or(text::opt_view(ip), "127.0.0.1"@) + ":"@ + text::text_or(
            text::opt_view(port),
            "8081"@,
        ),
{
    let mut addr = match ip {
        Some(host) => host,
        None => "127.0.0.1".to_owned(),
    };
    addr.append(":");
    match port {
        Some(number) => addr.append(number.as_str()),
        None => addr.append("8081"),
    }
    addr
}

/// What the manager is told of an incident, on one line without its end.
pub open spec fn idsm_object(record: IncidentView) -> Seq<char> {
    "{\"event_id\":"@ + digits::decimal(record.incident_type_id as nat) + ",\"source\":"@
        + json::quoted(record.source) + ",\"description\":"@ + json::quoted(record.signature)
        + ",\"context_data\":null}"@
}

/// What the manager is told of an incident: a JSON object on a line of its own.
pub open spec fn idsm_line(record: IncidentView) -> Seq<char> {
    idsm_object(record).push('\n')
}

/// What the manager is told of an incident.
pub fn idsm_payload(incident: &IncidentRecord) -> (payload: String)
    ensures
        payload@ == idsm_line(incident@),
{
    let mut payload = "{\"event_id\":".to_owned();
    payload.append(write_decimal(incident.incident_type_id as u128).as_str());
    payload.append(",\"source\":");
    payload.append(json_string(incident.source.as_str()).as_str());
    payload.append(",\"description\":");
    payload.append(json_string(incident.signature.as_str()).as_str());
    payload.append(",\"context_data\":null}");
    payload.push('\n');
    payload
}

/// The end of a line of a request.
pub open spec fn crlf() -> Seq<char> {
    seq!['\r', '\n']
}

/// The head of a request: its lines, and an empty one.
pub open spec fn request_head(lines: Seq<Seq<char>>) -> Seq<char>
    decreases lines.len(),
{
    if lines.len() == 0 {
        crlf()
    } else {
        lines[0] + crlf() + request_head(lines.drop_first())
    }
}

/// The lines of the head of the request that brings an incident to the manager.
pub open spec fn request_lines(record: IncidentView, addr: Seq<char>) -> Seq<Seq<char>> {
    seq![
        "POST / HTTP/1.1"@,
        "Host: "@ + addr,
        "Content-Type: application/json"@,
        "Content-Length: "@ + digits::decimal(vstd::utf8::encode_utf8(idsm_line(record)).len()),
    ]
}

/// The HTTP request that brings an incident to the manager at `addr`: a POST whose body is the line
/// of the incident.
pub open spec fn request_text(record: IncidentView, addr: Seq<char>) -> Seq<char> {
    request_head(request_lines(record, addr)) + idsm_line(record)
}

/// The HTTP request that brings an incident to the manager at `addr`.
pub fn idsm_request(incident: &IncidentRecord, addr: &str) -> (request: String)
    ensures
        request@ == request_text(incident@, addr@),
{
    let body = idsm_payload(incident);
    let length: usize = body.as_str().as_bytes().len();
    let mut request = "POST / HTTP/1.1".to_owned();
    request.push('\r');
    request.push('\n');
    request.append("Host: ");
    request.append(addr);
    request.push('\r');
    request.push('\n');
    request.append("Content-Type: application/json");
    request.push('\r');
    request.push('\n');
    request.append("Content-Length: ");
    request.append(write_decimal(length as u128).as_str());
    request.push('\r');
    request.push('\n');
    request.push('\r');
    request.push('\n');
    proof {
        let lines = request_lines(incident@, addr@);
        reveal_with_fuel(request_head, 5);
        assert(lines.drop_first() == seq![lines[1], lines[2], lines[3]]);
        assert(lines.drop_first().drop_first() == seq![lines[2], lines[3]]);
        assert(lines.drop_first().drop_first().drop_first() == seq![lines[3]]);
        assert(lines.drop_first().drop_first().drop_first().drop_first() == Seq::<
            Seq<char>,
        >::empty());
        assert(request@ == request_head(lines));
    }
    request.append(body.as_str());
    request
}

/// Where an incident goes.
pub struct Delivery {
    /// What standard output gets.
    pub printed: String,
    /// What the manager gets, where it has an address.
    pub request: Option<String>,
}

/// Records an incident: its JSON text and a line end go to standard output, and one request to the
/// manager, where an address is set.
pub fn record_incident(incident: &IncidentRecord, addr: Option<&str>) -> (delivery: Delivery)
    ensures
        delivery.printed@ == incident::record_text(incident@).push('\n'),
        text::opt_view(delivery.request) == (match addr {
            Some(manager) => Some(request_text(incident@, manager@)),
            None => None,
        }),
{
    let mut printed = incident_record_to_json(incident);
    printed.push('\n');
    let request = match addr {
        Some(manager) => Some(idsm_request(incident, manager)),
        None => None,
    };
    Delivery { printed, request }
}

/// The link to the manager: its address once that is set, and the connection that is kept open.
pub struct IdsmLink<C> {
    addr: Option<String>,
    conn: Option<C>,
}

/// The contents of an [`IdsmLink`].
pub struct IdsmLinkView<C> {
    pub addr: Option<Seq<char>>,
    pub conn: Option<C>,
}

impl<C> View for IdsmLink<C> {
    type V = IdsmLinkView<C>;

    closed spec fn view(&self) -> IdsmLinkView<C> {
        IdsmLinkView { addr: text::opt_view(self.addr), conn: self.conn }
    }
}

/// How the next incident gets to the manager.
#[derive(Debug, Clone, Copy, PartialEq, Eq, Structural)]
pub enum LinkStep {
    /// Not at all: no address is set.
    Skip,
    /// Over the connection that is open.
    Reuse,
    /// Over a new connection to the address.
    Connect,
}

impl<C> IdsmLinkView<C> {
    /// How the next incident gets to the manager; `reuse_failed` tells that the open connection
    /// was tried and could not be used.
    pub open spec fn step(self, reuse_failed: bool) -> LinkStep {
        if self.addr is None {
            LinkStep::Skip
        } else if self.conn is Some && !reuse_failed {
            LinkStep::Reuse
        } else {
            LinkStep::Connect
        }
    }

    /// The link once a connection is opened and kept.
    pub open spec fn after_connect(self, conn: C) -> IdsmLinkView<C> {
        IdsmLinkView { conn: Some(conn), ..self }
    }

    /// The link once a line was sent, or could not be.
    pub open spec fn after_send(self, delivered: bool) -> IdsmLinkView<C> {
        if delivered {
            self
        } else {
            IdsmLinkView { conn: None, ..self }
        }
    }
}

impl<C> IdsmLink<C> {
    /// A link without an address and without a connection.
    pub fn new() -> (link: Self)
        ensures
            link@ == (IdsmLinkView::<C> { addr: None, conn: None }),
    {
        IdsmLink { addr: None, conn: None }
    }

    /// The address, once it is set.
    pub fn address(&self) -> (addr: Option<&str>)
        ensures
            text::opt_str_view(addr) == self@.addr,
    {
        text::as_opt_str(&self.addr)
    }

    /// The connection that is open.
    pub fn connection(&self) -> (conn: Option<&C>)
        ensures
            match conn {
                Some(inner) => self@.conn == Some(*inner),
                None => self@.conn is None,
            },
    {
        self.conn.as_ref()
    }

    /// How the next incident gets to the manager.
    pub fn idsm_stream(&self, reuse_failed: bool) -> (step: LinkStep)
        ensures
            step == self@.step(reuse_failed),
    {
        if self.addr.is_none() {
            LinkStep::Skip
        } else if self.conn.is_some() && !reuse_failed {
            LinkStep::Reuse
        } else {
            LinkStep::Connect
        }
    }

    /// Keeps a connection that was opened.
    pub fn keep_connection(&mut self, conn: C)
        ensures
            final(self)@ == old(self)@.after_connect(conn),
    {
        self.conn = Some(conn);
    }

    /// Notes whether a line was sent; the connection is dropped where it was not.
    pub fn note_send(&mut self, delivered: bool)
        ensures
            final(self)@ == old(self)@.after_send(delivered),
    {
        if !delivered {
            idsm_drop_connection(self);
        }
    }
}

impl<C> Default for IdsmLink<C> {
    fn default() -> (link: Self)
        ensures
            link@ == (IdsmLinkView::<C> { addr: None, conn: None }),
    {
        IdsmLink::new()
    }
}

/// Sets the address, unless it was set before; tells whether it did.
pub fn set_idsm_addr<C>(link: &mut IdsmLink<C>, addr: String) -> (set: bool)
    ensures
        set == (old(link)@.addr is None),
        final(link)@ == if set {
            IdsmLinkView { addr: Some(addr@), ..old(link)@ }
        } else {
            old(link)@
        },
{
    if link.addr.is_some() {
        false
    } else {
        link.addr = Some(addr);
        true
    }
}

/// Drops the open connection, so that the next incident asks for a new one.
pub fn idsm_drop_connection<C>(link: &mut IdsmLink<C>)
    ensures
        final(link)@ == (IdsmLinkView { conn: None, ..old(link)@ }),
{
    link.conn = None;
}

/// With an address, a new connection is used again for as long as lines get through, and is
/// replaced by another after one that does not; without an address nothing is ever sent.
pub proof fn lemma_link_steps<C>(link: IdsmLinkView<C>, conn: C, reuse_failed: bool)
    ensures
        link.addr is Some ==> {
            &&& link.after_connect(conn).step(false) is Reuse
            &&& link.after_connect(conn).after_send(true).step(false) is Reuse
            &&& link.after_connect(conn).after_send(false).step(reuse_failed) is Connect
            &&& link.step(true) is Connect
        },
        link.addr is None ==> link.step(reuse_failed) is Skip && link.after_connect(conn).step(
            reuse_failed,
        ) is Skip,
{
}

/// The line for the manager holds one line end, at its end, and no other control character: a
/// reader of lines gets each incident in one piece.
pub proof fn lemma_idsm_line_is_one_line(record: IncidentView)
    ensures
        idsm_line(record).last() == '\n',
        forall|i: int|
            0 <= i < idsm_line(record).len() - 1 ==> !json::is_control(
                #[trigger] idsm_line(record)[i],
            ),
{
    let number = digits::decimal(record.incident_type_id as nat);
    digits::lemma_in_base_digits(record.incident_type_id as nat, 10);
    json::lemma_quoted_has_no_control(record.source);
    json::lemma_quoted_has_no_control(record.signature);
    reveal_strlit("{\"event_id\":");
    reveal_strlit(",\"source\":");
    reveal_strlit(",\"description\":");
    reveal_strlit(",\"context_data\":null}");
    let parts = seq![
        "{\"event_id\":"@,
        number,
        ",\"source\":"@,
        json::quoted(record.source),
        ",\"description\":"@,
        json::quoted(record.signature),
        ",\"context_data\":null}"@,
    ];
    lemma_concatenation_has_no_control(parts[0], parts[1]);
    lemma_concatenation_has_no_control(parts[0] + parts[1], parts[2]);
    lemma_concatenation_has_no_control(parts[0] + parts[1] + parts[2], parts[3]);
    lemma_concatenation_has_no_control(parts[0] + parts[1] + parts[2] + parts[3], parts[4]);
    lemma_concatenation_has_no_control(
        parts[0] + parts[1] + parts[2] + parts[3] + parts[4],
        parts[5],
    );
    lemma_concatenation_has_no_control(
        parts[0] + parts[1] + parts[2] + parts[3] + parts[4] + parts[5],
        parts[6],
    );
}

/// Two texts without control characters make up one.
proof fn lemma_concatenation_has_no_control(a: Seq<char>, b: Seq<char>)
    requires
        forall|i: int| 0 <= i < a.len() ==> !json::is_control(#[trigger] a[i]),
        forall|i: int| 0 <= i < b.len() ==> !json::is_control(#[trigger] b[i]),
    ensures
        forall|i: int| 0 <= i < (a + b).len() ==> !json::is_control(#[trigger] (a + b)[i]),
{
}

/// The members of what the manager is told.
pub open spec fn idsm_fields(record: IncidentView) -> Seq<(Seq<char>, JsonValue)> {
    seq![
        ("event_id"@, JsonValue::Number(record.incident_type_id as nat)),
        ("source"@, JsonValue::Text(record.source)),
        ("description"@, JsonValue::Text(record.signature)),
        ("context_data"@, JsonValue::Null),
    ]
}

/// The last member of the line for the manager, up to the end of the line.
spec fn line_from_context() -> Seq<char> {
    json_reader::compact("context_data"@, "null"@, seq!['}'] + seq!['\n'])
}

/// The last two members of the line for the manager, up to the end of the line.
spec fn line_from_description(record: IncidentView) -> Seq<char> {
    json_reader::compact(
        "description"@,
        json::quoted(record.signature),
        seq![','] + line_from_context(),
    )
}

/// The last three members of the line for the manager, up to the end of the line.
spec fn line_from_source(record: IncidentView) -> Seq<char> {
    json_reader::compact(
        "source"@,
        json::quoted(record.source),
        seq![','] + line_from_description(record),
    )
}

/// The members of the line for the manager, up to the end of the line.
spec fn line_from_event(record: IncidentView) -> Seq<char> {
    json_reader::compact(
        "event_id"@,
        digits::decimal(record.incident_type_id as nat),
        seq![','] + line_from_source(record),
    )
}

/// The line for the manager is a brace, its members, and the end of the line.
proof fn lemma_line_shape(record: IncidentView)
    ensures
        idsm_line(record) == seq!['{'] + line_from_event(record),
{
    reveal_strlit("{\"event_id\":");
    reveal_strlit(",\"source\":");
    reveal_strlit(",\"description\":");
    reveal_strlit(",\"context_data\":null}");
    reveal_strlit("event_id");
    reveal_strlit("source");
    reveal_strlit("description");
    reveal_strlit("context_data");
    reveal_strlit("null");
    let number = digits::decimal(record.incident_type_id as nat);
    let source = json::quoted(record.source);
    let signature = json::quoted(record.signature);
    assert("{\"event_id\":"@ == seq!['{', '"'] + "event_id"@ + seq!['"', ':']);
    assert(",\"source\":"@ == seq![',', '"'] + "source"@ + seq!['"', ':']);
    assert(",\"description\":"@ == seq![',', '"'] + "description"@ + seq!['"', ':']);
    assert(",\"context_data\":null}"@.push('\n') == seq![','] + line_from_context());
    assert(",\"description\":"@ + signature + (seq![','] + line_from_context()) == seq![',']
        + line_from_description(record));
    assert(",\"source\":"@ + source + (seq![','] + line_from_description(record)) == seq![',']
        + line_from_source(record));
    assert("{\"event_id\":"@ + number + (seq![','] + line_from_source(record)) == seq!['{']
        + line_from_event(record));
    assert(idsm_line(record) == "{\"event_id\":"@ + number + (",\"source\":"@ + source + (
    ",\"description\":"@ + signature + ",\"context_data\":null}"@.push('\n'))));
}

/// The names in the line for the manager are plain.
proof fn lemma_line_names()
    ensures
        json_reader::is_plain_name("event_id"@),
        json_reader::is_plain_name("source"@),
        json_reader::is_plain_name("description"@),
        json_reader::is_plain_name("context_data"@),
{
    reveal_strlit("event_id");
    reveal_strlit("source");
    reveal_strlit("description");
    reveal_strlit("context_data");
}

/// The line for the manager is one JSON object, and reading it gives the type, the source and the
/// signature of the incident.
pub proof fn lemma_idsm_line_reads_back(record: IncidentView)
    ensures
        json_reader::read_object(idsm_line(record)) == Some(idsm_fields(record)),
{
    let fields = idsm_fields(record);
    let end = seq!['\n'];
    let line = idsm_line(record);
    let inside = line_from_event(record);
    lemma_line_shape(record);
    lemma_line_names();
    json_reader::lemma_last_compact_member_reads_back(
        "context_data"@,
        "null"@,
        JsonValue::Null,
        end,
    );
    json_reader::lemma_compact_members_read_back(
        "description"@,
        json::quoted(record.signature),
        JsonValue::Text(record.signature),
        line_from_context(),
    );
    json_reader::lemma_compact_members_read_back(
        "source"@,
        json::quoted(record.source),
        JsonValue::Text(record.source),
        line_from_description(record),
    );
    json_reader::lemma_compact_members_read_back(
        "event_id"@,
        digits::decimal(record.incident_type_id as nat),
        JsonValue::Number(record.incident_type_id as nat),
        line_from_source(record),
    );
    assert(line[0] == '{');
    assert(line.skip(1) == inside);
    assert(inside[0] == '"');
    assert(end.skip(1) == Seq::<char>::empty());
    assert(json_reader::skip_space(end) == json_reader::skip_space(Seq::<char>::empty()));
    assert(seq![fields[0]] + (seq![fields[1]] + (seq![fields[2]] + seq![fields[3]])) == fields);
}

/// A line of the head of a request: not empty, and without control characters.
pub open spec fn is_head_line(line: Seq<char>) -> bool {
    &&& line.len() > 0
    &&& forall|i: int| 0 <= i < line.len() ==> !json::is_control(#[trigger] line[i])
}

/// The head of a request ends at the first empty line.
proof fn lemma_head_ends(lines: Seq<Seq<char>>, body: Seq<char>)
    requires
        lines.len() > 0,
        forall|i: int| 0 <= i < lines.len() ==> is_head_line(#[trigger] lines[i]),
    ensures
        request_head(lines).len() >= 4,
        text::first_occurrence(
            request_head(lines) + body,
            crlf() + crlf(),
            request_head(lines).len() - 4,
        ),
    decreases lines.len(),
{
    let pattern = crlf() + crlf();
    let line = lines[0];
    let rest = lines.drop_first();
    let head = request_head(lines);
    let t = head + body;
    let n = line.len() as int;
    assert(is_head_line(lines[0]));
    assert(head == line + crlf() + request_head(rest));
    assert(t[n] == '\r' && t[n + 1] == '\n');
    if rest.len() == 0 {
        assert(request_head(rest) == crlf());
        assert(t.subrange(n, n + 4) == pattern);
        assert forall|k: int| 0 <= k < n implies !text::occurs_at(t, pattern, k) by {
            assert(t[k] == line[k]);
            if text::occurs_at(t, pattern, k) {
                assert(t.subrange(k, k + 4)[0] == t[k]);
            }
        }
    } else {
        assert forall|i: int| 0 <= i < rest.len() implies is_head_line(#[trigger] rest[i]) by {
            assert(rest[i] == lines[i + 1]);
        }
        lemma_head_ends(rest, body);
        let tail = request_head(rest) + body;
        let at = request_head(rest).len() - 4;
        assert(t == line + crlf() + tail);
        assert(t.subrange(n + 2 + at, n + 2 + at + 4) == tail.subrange(at, at + 4));
        assert(is_head_line(rest[0]));
        assert(request_head(rest) == rest[0] + crlf() + request_head(rest.drop_first()));
        assert(t[n + 2] == rest[0][0]);
        assert forall|k: int| 0 <= k < n + 2 + at implies !text::occurs_at(t, pattern, k) by {
            if text::occurs_at(t, pattern, k) {
                let found = t.subrange(k, k + 4);
                assert(found[0] == t[k] && found[1] == t[k + 1] && found[2] == t[k + 2]);
                if k < n {
                    assert(t[k] == line[k]);
                } else if k >= n + 2 {
                    assert(found == tail.subrange(k - n - 2, k - n + 2));
                    assert(text::occurs_at(tail, pattern, k - n - 2));
                }
            }
        }
    }
}

/// A request is a head and a body, parted by the first empty line; the head announces the length of
/// the body in bytes, and the body is one JSON object that gives the incident. The address must not
/// hold control characters.
pub proof fn lemma_request_reads_back(record: IncidentView, addr: Seq<char>)
    requires
        forall|i: int| 0 <= i < addr.len() ==> !json::is_control(#[trigger] addr[i]),
    ensures
        ({
            let request = request_text(record, addr);
            let at = request_head(request_lines(record, addr)).len() - 4;
            &&& text::first_occurrence(request, crlf() + crlf(), at)
            &&& request.skip(at + 4) == idsm_line(record)
            &&& request_lines(record, addr).contains(
                "Content-Length: "@ + digits::decimal(
                    vstd::utf8::encode_utf8(request.skip(at + 4)).len(),
                ),
            )
            &&& json_reader::read_object(request.skip(at + 4)) == Some(idsm_fields(record))
        }),
{
    let lines = request_lines(record, addr);
    let length = vstd::utf8::encode_utf8(idsm_line(record)).len();
    reveal_strlit("POST / HTTP/1.1");
    reveal_strlit("Host: ");
    reveal_strlit("Content-Type: application/json");
    reveal_strlit("Content-Length: ");
    digits::lemma_decimal_digits(length);
    lemma_concatenation_has_no_control("Host: "@, addr);
    lemma_concatenation_has_no_control("Content-Length: "@, digits::decimal(length));
    assert forall|i: int| 0 <= i < lines.len() implies is_head_line(#[trigger] lines[i]) by {
        assert(lines[0] == "POST / HTTP/1.1"@);
        assert(lines[2] == "Content-Type: application/json"@);
    }
    lemma_head_ends(lines, idsm_line(record));
    let head = request_head(lines);
    assert((head + idsm_line(record)).skip(head.len() as int) == idsm_line(record));
    assert(lines[3] == "Content-Length: "@ + digits::decimal(length));
    lemma_idsm_line_reads_back(record);
}

/// Two incidents with the same line for the manager agree in type, source and signature.
pub proof fn lemma_idsm_line_holds_incident(a: IncidentView, b: IncidentView)
    requires
        idsm_line(a) == idsm_line(b),
    ensures
        a.incident_type_id == b.incident_type_id,
        a.source == b.source,
        a.signature == b.signature,
{
    lemma_idsm_line_reads_back(a);
    lemma_idsm_line_reads_back(b);
    assert(idsm_fields(a)[0] == idsm_fields(b)[0]);
    assert(idsm_fields(a)[1] == idsm_fields(b)[1]);
    assert(idsm_fields(a)[2] == idsm_fields(b)[2]);
}

} // verus!
