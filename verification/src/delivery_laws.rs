//! What holds of the texts that incidents are delivered as, of the link to the manager, and of the
//! restarts of the monitor.

use vstd::prelude::*;

use crate::clock::StampView;
use crate::digits;
use crate::idsm;
use crate::idsm::IdsmLinkView;
use crate::incident;
use crate::incident::{IdentityView, IncidentView, MemberView};
use crate::json;
use crate::supervisor;
use crate::supervisor::{EndView, MonitorEnd, RestartStep};
use crate::window;

verus! {

/// How a character is written in a JSON string: quotation marks, backslashes and five control
/// characters by two characters, the other control characters by their number, the rest as they
/// are.
pub proof fn lemma_escaped_char(c: char)
    ensures
        json::escaped_char('"') == seq!['\\', '"'],
        json::escaped_char('\\') == seq!['\\', '\\'],
        json::escaped_char('\u{08}') == seq!['\\', 'b'],
        json::escaped_char('\t') == seq!['\\', 't'],
        json::escaped_char('\n') == seq!['\\', 'n'],
        json::escaped_char('\u{0C}') == seq!['\\', 'f'],
        json::escaped_char('\r') == seq!['\\', 'r'],
        (c as u32) < 0x20 && !(8 <= c as u32 <= 10) && !(12 <= c as u32 <= 13)
            ==> json::escaped_char(c) == seq!['\\', 'u'] + digits::hexadecimal(c as nat, 4),
        0x7f <= c as u32 <= 0x9f ==> json::escaped_char(c) == seq!['\\', 'u']
            + digits::hexadecimal(c as nat, 4),
        c as u32 >= 0x20 && !(0x7f <= c as u32 <= 0x9f) && c != '"' && c != '\\'
            ==> json::escaped_char(c) == seq![c],
        json::is_control(c) <==> (c as u32) < 0x20 || 0x7f <= c as u32 <= 0x9f,
{
}

/// A text is written character by character, between quotation marks; an absent one as `null`.
pub proof fn lemma_quoted(s: Seq<char>, c: char)
    ensures
        json::escaped(Seq::empty()) == Seq::<char>::empty(),
        json::escaped(s.push(c)) == json::escaped(s) + json::escaped_char(c),
        json::quoted(s) == seq!['"'] + json::escaped(s) + seq!['"'],
        json::quoted_or_null(Some(s)) == json::quoted(s),
        json::quoted_or_null(None) == "null"@,
{
    assert(s.push(c).drop_last() == s);
}

/// The members of an object stand on a line each, indented by two, with commas between them, and
/// braces round them.
pub proof fn lemma_object_text(members: Seq<MemberView>, member: MemberView)
    ensures
        incident::object_text(members) == "{"@ + incident::member_lines(members) + "\n}"@,
        incident::member_lines(Seq::empty()) == Seq::<char>::empty(),
        incident::member_lines(seq![member]) == "\n  \""@ + member.name + "\": "@ + member.value,
        members.len() > 0 ==> incident::member_lines(members.push(member))
            == incident::member_lines(members) + ","@ + ("\n  \""@ + member.name + "\": "@
            + member.value),
{
    assert(members.push(member).drop_last() == members);
}

/// A member of an incident: its name, and its value as it is written.
pub open spec fn says(record: IncidentView, i: int, name: Seq<char>, value: Seq<char>) -> bool {
    incident::record_members(record)[i].name == name && incident::record_members(record)[i].value
        == value
}

/// The JSON text of an incident is an object of its eighteen fields in their order: texts as strings,
/// numbers as numbers, and `null` for what is absent.
pub proof fn lemma_record_text(record: IncidentView)
    ensures
        incident::record_text(record) == incident::object_text(incident::record_members(record)),
        incident::record_members(record).len() == 18,
        says(record, 0, "event_id"@, json::quoted(record.event_id)),
        says(record, 1, "incident_type_id"@, digits::decimal(record.incident_type_id as nat)),
        says(record, 2, "sensor_id"@, json::quoted(record.sensor_id)),
        says(record, 3, "timestamp"@, json::quoted(record.timestamp)),
        says(record, 4, "ecu_id"@, json::quoted(record.ecu_id)),
        says(record, 5, "bus_type"@, json::quoted(record.bus_type)),
        says(record, 6, "source"@, json::quoted(record.source)),
        says(record, 7, "can_id"@, json::quoted(record.can_id)),
        says(record, 8, "direction"@, json::quoted(record.direction)),
        says(record, 9, "severity"@, json::quoted(record.severity)),
        says(record, 10, "severity_id"@, digits::decimal(record.severity_id as nat)),
        says(record, 11, "confidence"@, digits::decimal(record.confidence as nat)),
        says(record, 12, "signature"@, json::quoted(record.signature)),
        says(record, 13, "usb_class"@, json::quoted_or_null(record.usb_class)),
        says(record, 14, "usb_subclass"@, json::quoted_or_null(record.usb_subclass)),
        says(record, 15, "usb_protocol"@, json::quoted_or_null(record.usb_protocol)),
        says(record, 16, "evidence_hash"@, json::quoted(record.evidence_hash)),
        says(record, 17, "action_hint"@, json::quoted(record.action_hint)),
{
}

/// What the manager gets of an incident is one line: its type as the event, its source, and its
/// signature as the description.
pub proof fn lemma_idsm_line(record: IncidentView)
    ensures
        idsm::idsm_line(record) == "{\"event_id\":"@ + digits::decimal(
            record.incident_type_id as nat,
        ) + ",\"source\":"@ + json::quoted(record.source) + ",\"description\":"@ + json::quoted(
            record.signature,
        ) + ",\"context_data\":null}"@ + seq!['\n'],
{
    assert(idsm::idsm_line(record) == idsm::idsm_object(record) + seq!['\n']);
}

/// The line goes as the body of an HTTP request, behind four header lines and a blank one; its
/// length is told in bytes.
pub proof fn lemma_request_text(record: IncidentView, addr: Seq<char>)
    ensures
        ({
            let end = seq!['\r', '\n'];
            let length = digits::decimal(
                vstd::utf8::encode_utf8(idsm::idsm_line(record)).len(),
            );
            idsm::request_text(record, addr) == "POST / HTTP/1.1"@ + end + "Host: "@ + addr + end
                + "Content-Type: application/json"@ + end + "Content-Length: "@ + length + end + end
                + idsm::idsm_line(record)
        }),
{
    reveal_with_fuel(idsm::request_head, 5);
    let end = seq!['\r', '\n'];
    let length = digits::decimal(vstd::utf8::encode_utf8(idsm::idsm_line(record)).len());
    let lines = idsm::request_lines(record, addr);
    let rest = lines.drop_first();
    assert(rest[0] == lines[1]);
    assert(rest.drop_first()[0] == lines[2]);
    assert(rest.drop_first().drop_first()[0] == lines[3]);
    assert(idsm::request_head(lines) =~= "POST / HTTP/1.1"@ + end + "Host: "@ + addr + end
        + "Content-Type: application/json"@ + end + "Content-Length: "@ + length + end + end);
}

/// Nothing is sent without an address; an open connection is used unless it has just failed, and a
/// new one is made otherwise.
pub proof fn lemma_link_step<C>(link: IdsmLinkView<C>, failed: bool)
    ensures
        link.step(failed) is Skip <==> link.addr is None,
        link.step(failed) is Reuse <==> link.addr is Some && link.conn is Some && !failed,
        link.step(failed) is Connect <==> link.addr is Some && (link.conn is None || failed),
{
}

/// A connection that was made is kept, and dropped once something could not be delivered; the
/// address stays.
pub proof fn lemma_link_connection<C>(link: IdsmLinkView<C>, conn: C)
    ensures
        link.after_connect(conn).conn == Some(conn),
        link.after_connect(conn).addr == link.addr,
        link.after_send(true) == link,
        link.after_send(false).conn is None,
        link.after_send(false).addr == link.addr,
{
}

/// Restarts are counted for five minutes. The third within that time makes an incident and begins
/// the count anew; fewer are just noted.
pub proof fn lemma_restart_step(
    times: Seq<u128>,
    reason: Seq<char>,
    stamp: StampView,
    identity: IdentityView,
)
    ensures
        ({
            let counted = window::recent(times.push(stamp.millis), stamp.millis, 300_000);
            let (after, reported) = supervisor::restart_step(times, reason, stamp, identity);
            &&& counted.len() >= 3 ==> after.len() == 0 && reported == Some(
                supervisor::restart_incident(counted.len(), reason, stamp, identity),
            )
            &&& counted.len() < 3 ==> after == counted && reported is None
        }),
{
}

/// What follows the end of the monitor: it starts again after two seconds once it has run, and after
/// five where it could not be started; the restart is noted with the reason.
pub proof fn lemma_after_monitor(step: RestartStep, end: MonitorEnd, detail: Seq<char>)
    ensures
        step.follows(end, detail) <==> match end {
            MonitorEnd::Exited => {
                &&& step.notice@ == "udevadm monitor stopped with status "@ + detail
                    + "; restarting in 2 seconds"@
                &&& step.reason@ == "udevadm exited: "@ + detail
                &&& step.wait_secs == 2
            },
            MonitorEnd::LaunchFailed => {
                &&& step.notice@ == "failed to start udevadm monitor: "@ + detail
                    + "; retrying in 5 seconds"@
                &&& step.reason@ == "udevadm launch failed: "@ + detail
                &&& step.wait_secs == 5
            },
        },
        supervisor::restart_reason(MonitorEnd::Exited, detail) == "udevadm exited: "@ + detail,
        supervisor::restart_reason(MonitorEnd::LaunchFailed, detail) == "udevadm launch failed: "@
            + detail,
{
}

/// Every end of the monitor is counted after the ones before it.
pub proof fn lemma_ends_in_turn(ends: Seq<EndView>, ended: EndView, identity: IdentityView)
    ensures
        supervisor::times_after(Seq::empty(), identity) == Seq::<u128>::empty(),
        supervisor::incidents_after(Seq::empty(), identity).len() == 0,
        ({
            let (times, reported) = supervisor::restart_step(
                supervisor::times_after(ends, identity),
                supervisor::restart_reason(ended.end, ended.detail),
                ended.stamp,
                identity,
            );
            &&& supervisor::times_after(ends.push(ended), identity) == times
            &&& supervisor::incidents_after(ends.push(ended), identity)
                == supervisor::incidents_after(ends, identity).push(reported)
        }),
{
    assert(ends.push(ended).drop_last() == ends);
}

} // verus!
