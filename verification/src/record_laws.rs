//! The JSON text of an incident can be read back.

use vstd::prelude::*;

use crate::digits;
use crate::incident;
use crate::incident::IncidentView;
use crate::json;
use crate::json_reader;
use crate::json_reader::JsonValue;
use crate::text;

verus! {

/// The value of a field that may be absent.
pub open spec fn optional_value(field: Option<Seq<char>>) -> JsonValue {
    match field {
        Some(text) => JsonValue::Text(text),
        None => JsonValue::Null,
    }
}

/// The fields of an incident by their names, in the order in which they are reported.
pub open spec fn record_fields(record: IncidentView) -> Seq<(Seq<char>, JsonValue)> {
    seq![
        ("event_id"@, JsonValue::Text(record.event_id)),
        ("incident_type_id"@, JsonValue::Number(record.incident_type_id as nat)),
        ("sensor_id"@, JsonValue::Text(record.sensor_id)),
        ("timestamp"@, JsonValue::Text(record.timestamp)),
        ("ecu_id"@, JsonValue::Text(record.ecu_id)),
        ("bus_type"@, JsonValue::Text(record.bus_type)),
        ("source"@, JsonValue::Text(record.source)),
        ("can_id"@, JsonValue::Text(record.can_id)),
        ("direction"@, JsonValue::Text(record.direction)),
        ("severity"@, JsonValue::Text(record.severity)),
        ("severity_id"@, JsonValue::Number(record.severity_id as nat)),
        ("confidence"@, JsonValue::Number(record.confidence as nat)),
        ("signature"@, JsonValue::Text(record.signature)),
        ("usb_class"@, optional_value(record.usb_class)),
        ("usb_subclass"@, optional_value(record.usb_subclass)),
        ("usb_protocol"@, optional_value(record.usb_protocol)),
        ("evidence_hash"@, JsonValue::Text(record.evidence_hash)),
        ("action_hint"@, JsonValue::Text(record.action_hint)),
    ]
}

/// The position of a field, told by the length and a few characters of its name.
spec fn position_of(name: Seq<char>) -> int {
    if name.len() == 6 {
        if name[0] == 'e' {
            4
        } else if name[0] == 's' {
            6
        } else {
            7
        }
    } else if name.len() == 8 {
        if name[0] == 'e' {
            0
        } else if name[0] == 'b' {
            5
        } else {
            9
        }
    } else if name.len() == 9 {
        if name[0] == 't' {
            3
        } else if name[0] == 'd' {
            8
        } else if name[0] == 'u' {
            13
        } else if name[1] == 'e' {
            2
        } else {
            12
        }
    } else if name.len() == 10 {
        11
    } else if name.len() == 11 {
        if name[0] == 's' {
            10
        } else {
            17
        }
    } else if name.len() == 12 {
        if name[4] == 's' {
            14
        } else {
            15
        }
    } else if name.len() == 13 {
        16
    } else {
        1
    }
}

/// The names of the fields: each is plain, and tells its position.
proof fn lemma_names(record: IncidentView)
    ensures
        record_fields(record).len() == 18,
        forall|i: int|
            0 <= i < 18 ==> position_of((#[trigger] record_fields(record)[i]).0) == i
                && json_reader::is_plain_name(record_fields(record)[i].0),
{
    reveal_strlit("event_id");
    reveal_strlit("incident_type_id");
    reveal_strlit("sensor_id");
    reveal_strlit("timestamp");
    reveal_strlit("ecu_id");
    reveal_strlit("bus_type");
    reveal_strlit("source");
    reveal_strlit("can_id");
    reveal_strlit("direction");
    reveal_strlit("severity");
    reveal_strlit("severity_id");
    reveal_strlit("confidence");
    reveal_strlit("signature");
    reveal_strlit("usb_class");
    reveal_strlit("usb_subclass");
    reveal_strlit("usb_protocol");
    reveal_strlit("evidence_hash");
    reveal_strlit("action_hint");
}

/// The fields of an incident have eighteen different names.
pub proof fn lemma_names_are_distinct(record: IncidentView, i: int, j: int)
    requires
        0 <= i < record_fields(record).len(),
        0 <= j < record_fields(record).len(),
        record_fields(record)[i].0 == record_fields(record)[j].0,
    ensures
        record_fields(record).len() == 18,
        i == j,
{
    lemma_names(record);
}

/// The JSON text of an incident is one object, and reading it gives its eighteen fields.
pub proof fn lemma_record_reads_back(record: IncidentView)
    ensures
        json_reader::read_object(incident::record_text(record)) == Some(record_fields(record)),
{
    lemma_names(record);
    let members = incident::record_members(record);
    let fields = record_fields(record);
    let values = Seq::new(18, |i: int| fields[i].1);
    assert forall|i: int| 0 <= i < members.len() implies json_reader::is_plain_name(
        (#[trigger] members[i]).name,
    ) && json_reader::writes(members[i].value, values[i]) by {
        assert(members[i].name == fields[i].0);
    }
    json_reader::lemma_object_reads_back(members, values);
    assert(json_reader::named_values(members, values) == fields);
}

/// The value of the field with a name.
pub open spec fn field(fields: Seq<(Seq<char>, JsonValue)>, name: Seq<char>) -> JsonValue {
    fields[choose|i: int| 0 <= i < fields.len() && (#[trigger] fields[i]).0 == name].1
}

/// The text of a field that may be absent.
pub open spec fn optional_text(value: JsonValue) -> Option<Seq<char>> {
    match value {
        JsonValue::Text(text) => Some(text),
        _ => None,
    }
}

/// The incident whose fields these are.
pub open spec fn record_of(fields: Seq<(Seq<char>, JsonValue)>) -> IncidentView {
    IncidentView {
        event_id: field(fields, "event_id"@)->Text_0,
        incident_type_id: field(fields, "incident_type_id"@)->Number_0 as u8,
        sensor_id: field(fields, "sensor_id"@)->Text_0,
        timestamp: field(fields, "timestamp"@)->Text_0,
        ecu_id: field(fields, "ecu_id"@)->Text_0,
        bus_type: field(fields, "bus_type"@)->Text_0,
        source: field(fields, "source"@)->Text_0,
        can_id: field(fields, "can_id"@)->Text_0,
        direction: field(fields, "direction"@)->Text_0,
        severity: field(fields, "severity"@)->Text_0,
        severity_id: field(fields, "severity_id"@)->Number_0 as u8,
        confidence: field(fields, "confidence"@)->Number_0 as u8,
        signature: field(fields, "signature"@)->Text_0,
        usb_class: optional_text(field(fields, "usb_class"@)),
        usb_subclass: optional_text(field(fields, "usb_subclass"@)),
        usb_protocol: optional_text(field(fields, "usb_protocol"@)),
        evidence_hash: field(fields, "evidence_hash"@)->Text_0,
        action_hint: field(fields, "action_hint"@)->Text_0,
    }
}

/// A field is found under its name.
proof fn lemma_field(record: IncidentView, i: int)
    requires
        0 <= i < 18,
    ensures
        field(record_fields(record), record_fields(record)[i].0) == record_fields(record)[i].1,
{
    let fields = record_fields(record);
    let name = fields[i].0;
    lemma_names(record);
    let found = choose|k: int| 0 <= k < fields.len() && (#[trigger] fields[k]).0 == name;
    assert(0 <= found < fields.len() && fields[found].0 == name);
    lemma_names_are_distinct(record, found, i);
}

/// The JSON text of an incident, read back, gives the incident: every field of it, with `null` for
/// what is absent, and numbers as numbers.
pub proof fn lemma_record_text_gives_record(record: IncidentView)
    ensures
        json_reader::read_object(incident::record_text(record)) is Some,
        record_of(json_reader::read_object(incident::record_text(record))->0) == record,
{
    lemma_record_reads_back(record);
    lemma_field(record, 0);
    lemma_field(record, 1);
    lemma_field(record, 2);
    lemma_field(record, 3);
    lemma_field(record, 4);
    lemma_field(record, 5);
    lemma_field(record, 6);
    lemma_field(record, 7);
    lemma_field(record, 8);
    lemma_field(record, 9);
    lemma_field(record, 10);
    lemma_field(record, 11);
    lemma_field(record, 12);
    lemma_field(record, 13);
    lemma_field(record, 14);
    lemma_field(record, 15);
    lemma_field(record, 16);
    lemma_field(record, 17);
}

/// Two incidents have the same text just where they agree in every field.
pub proof fn lemma_record_text_holds_record(a: IncidentView, b: IncidentView)
    ensures
        incident::record_text(a) == incident::record_text(b) <==> a == b,
{
    lemma_record_text_gives_record(a);
    lemma_record_text_gives_record(b);
}

/// The lines of two texts put together: the last of the first and the first of the second are one.
proof fn lemma_lines_together(a: Seq<char>, b: Seq<char>)
    ensures
        text::pieces(a, '\n').len() > 0,
        text::pieces(a + b, '\n').len() == text::pieces(a, '\n').len() + text::pieces(
            b,
            '\n',
        ).len() - 1,
    decreases a.len() + b.len(),
{
    if b.len() == 0 {
        assert(a + b == a);
        if a.len() > 0 {
            lemma_lines_together(a.drop_last(), b);
        }
    } else {
        assert((a + b).drop_last() == a + b.drop_last());
        lemma_lines_together(a, b.drop_last());
        lemma_lines_together(b.drop_last(), Seq::empty());
    }
}

/// A text without line ends is one line.
proof fn lemma_one_line(s: Seq<char>)
    requires
        !s.contains('\n'),
    ensures
        text::pieces(s, '\n').len() == 1,
    decreases s.len(),
{
    if s.len() > 0 {
        assert forall|i: int| 0 <= i < s.drop_last().len() implies s.drop_last()[i] != '\n' by {
            assert(s.contains(s[i]));
        }
        assert(s.contains(s[s.len() - 1]));
        lemma_one_line(s.drop_last());
    }
}

/// A member whose name and value hold no line end begins one new line.
proof fn lemma_member_line(member: incident::MemberView)
    requires
        !member.name.contains('\n'),
        !member.value.contains('\n'),
    ensures
        text::pieces(incident::member_line(member), '\n').len() == 2,
{
    reveal_strlit("\n  \"");
    reveal_strlit("\": ");
    let head = "\n  \""@;
    let colon = "\": "@;
    let indent = seq![' ', ' ', '"'];
    assert(head == seq!['\n'] + indent);
    lemma_lines_together(seq!['\n'], indent);
    lemma_one_line(indent);
    lemma_one_line(colon);
    assert(seq!['\n'].drop_last() == Seq::<char>::empty());
    assert(text::pieces(Seq::<char>::empty(), '\n').len() == 1);
    assert(text::pieces(seq!['\n'], '\n').len() == 2);
    lemma_one_line(member.name);
    lemma_one_line(member.value);
    lemma_lines_together(head, member.name);
    lemma_lines_together(head + member.name, colon);
    lemma_lines_together(head + member.name + colon, member.value);
}

/// Members whose names and values hold no line end begin one new line each.
proof fn lemma_member_lines(members: Seq<incident::MemberView>)
    requires
        forall|i: int|
            0 <= i < members.len() ==> !(#[trigger] members[i]).name.contains('\n')
                && !members[i].value.contains('\n'),
    ensures
        text::pieces(incident::member_lines(members), '\n').len() == members.len() + 1,
    decreases members.len(),
{
    if members.len() == 1 {
        lemma_member_line(members[0]);
    } else if members.len() > 1 {
        reveal_strlit(",");
        let front = members.drop_last();
        assert forall|i: int| 0 <= i < front.len() implies !(#[trigger] front[i]).name.contains(
            '\n',
        ) && !front[i].value.contains('\n') by {
            assert(front[i] == members[i]);
        }
        lemma_member_lines(front);
        lemma_member_line(members[members.len() - 1]);
        lemma_one_line(","@);
        let lines = incident::member_lines(front);
        lemma_lines_together(lines, ","@);
        lemma_lines_together(lines + ","@, incident::member_line(members.last()));
    }
}

/// A value holds no line end.
proof fn lemma_value_is_one_line(written: Seq<char>, value: JsonValue)
    requires
        json_reader::writes(written, value),
    ensures
        !written.contains('\n'),
{
    match value {
        JsonValue::Null => {
            reveal_strlit("null");
        },
        JsonValue::Number(n) => {
            digits::lemma_decimal_digits(n);
        },
        JsonValue::Text(s) => {
            json::lemma_quoted_has_no_control(s);
        },
    }
}

/// The JSON text of an incident has twenty lines, whatever its fields hold.
pub proof fn lemma_record_has_twenty_lines(record: IncidentView)
    ensures
        text::pieces(incident::record_text(record), '\n').len() == 20,
{
    let members = incident::record_members(record);
    let fields = record_fields(record);
    lemma_names(record);
    assert forall|i: int| 0 <= i < members.len() implies !(#[trigger] members[i]).name.contains(
        '\n',
    ) && !members[i].value.contains('\n') by {
        assert(members[i].name == fields[i].0);
        assert(json_reader::is_plain_name(fields[i].0));
        assert(json_reader::writes(members[i].value, fields[i].1));
        lemma_value_is_one_line(members[i].value, fields[i].1);
    }
    lemma_member_lines(members);
    reveal_strlit("{");
    reveal_strlit("\n}");
    lemma_one_line("{"@);
    let brace = seq!['}'];
    assert("\n}"@ == seq!['\n'] + brace);
    lemma_one_line(brace);
    assert(seq!['\n'].drop_last() == Seq::<char>::empty());
    assert(text::pieces(Seq::<char>::empty(), '\n').len() == 1);
    assert(text::pieces(seq!['\n'], '\n').len() == 2);
    lemma_lines_together(seq!['\n'], brace);
    lemma_lines_together("{"@, incident::member_lines(members));
    lemma_lines_together("{"@ + incident::member_lines(members), "\n}"@);
}

} // verus!
