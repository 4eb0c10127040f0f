//! Incident records and the text in which they are reported.

use vstd::prelude::*;

use crate::byte_order::ByteOrder;
use crate::digits;
use crate::digits::write_decimal;
use crate::json;
use crate::json::{json_option_string, json_string};
use crate::text;
use crate::text::{as_opt_str, same_text};

verus! {

/// A single structured incident.
#[derive(Debug, Clone)]
pub struct IncidentRecord {
    pub event_id: String,
    /// Incident type of the taxonomy (1 to 17).
    pub incident_type_id: u8,
    pub sensor_id: String,
    pub timestamp: String,
    pub ecu_id: String,
    pub bus_type: String,
    pub source: String,
    pub can_id: String,
    pub direction: String,
    pub severity: String,
    /// Numeric severity: 1 low, 2 medium, 3 high, 4 critical.
    pub severity_id: u8,
    pub confidence: u8,
    pub signature: String,
    pub usb_class: Option<String>,
    pub usb_subclass: Option<String>,
    pub usb_protocol: Option<String>,
    pub evidence_hash: String,
    pub action_hint: String,
}

/// The contents of an [`IncidentRecord`].
pub struct IncidentView {
    pub event_id: Seq<char>,
    pub incident_type_id: u8,
    pub sensor_id: Seq<char>,
    pub timestamp: Seq<char>,
    pub ecu_id: Seq<char>,
    pub bus_type: Seq<char>,
    pub source: Seq<char>,
    pub can_id: Seq<char>,
    pub direction: Seq<char>,
    pub severity: Seq<char>,
    pub severity_id: u8,
    pub confidence: u8,
    pub signature: Seq<char>,
    pub usb_class: Option<Seq<char>>,
    pub usb_subclass: Option<Seq<char>>,
    pub usb_protocol: Option<Seq<char>>,
    pub evidence_hash: Seq<char>,
    pub action_hint: Seq<char>,
}

impl View for IncidentRecord {
    type V = IncidentView;

    open spec fn view(&self) -> IncidentView {
        IncidentView {
            event_id: self.event_id@,
            incident_type_id: self.incident_type_id,
            sensor_id: self.sensor_id@,
            timestamp: self.timestamp@,
            ecu_id: self.ecu_id@,
            bus_type: self.bus_type@,
            source: self.source@,
            can_id: self.can_id@,
            direction: self.direction@,
            severity: self.severity@,
            severity_id: self.severity_id,
            confidence: self.confidence,
            signature: self.signature@,
            usb_class: text::opt_view(self.usb_class),
            usb_subclass: text::opt_view(self.usb_subclass),
            usb_protocol: text::opt_view(self.usb_protocol),
            evidence_hash: self.evidence_hash@,
            action_hint: self.action_hint@,
        }
    }
}

/// The numeric level of a severity; 0 for any other text.
pub open spec fn severity_level(severity: Seq<char>) -> u8 {
    if severity == "low"@ {
        1
    } else if severity == "medium"@ {
        2
    } else if severity == "high"@ {
        3
    } else if severity == "critical"@ {
        4
    } else {
        0
    }
}

/// The numeric level of a severity (1 low, 2 medium, 3 high, 4 critical); 0 for any other text.
pub fn severity_id_for(severity: &str) -> (level: u8)
    ensures
        level == severity_level(severity@),
{
    if same_text(severity, "low") {
        1
    } else if same_text(severity, "medium") {
        2
    } else if same_text(severity, "high") {
        3
    } else if same_text(severity, "critical") {
        4
    } else {
        0
    }
}

/// The severity that the incident taxonomy gives to a type.
pub open spec fn taxonomy_severity(incident_type_id: u8) -> Seq<char> {
    match incident_type_id {
        1 | 2 | 9 => "low"@,
        7 | 10 | 12 | 14 | 16 => "medium"@,
        3 | 6 | 8 | 11 => "high"@,
        _ => "critical"@,
    }
}

/// An incident of the taxonomy: its type is one of the seventeen, its severity is the one that the
/// taxonomy gives to it, and the numeric severity agrees.
pub open spec fn in_taxonomy(record: IncidentView) -> bool {
    &&& 1 <= record.incident_type_id <= 17
    &&& record.severity == taxonomy_severity(record.incident_type_id)
    &&& record.severity_id == severity_level(record.severity)
}

/// An incident of the taxonomy has a numeric severity from 1 to 4.
pub proof fn lemma_taxonomy_severity_id(record: IncidentView)
    requires
        in_taxonomy(record),
    ensures
        1 <= record.severity_id <= 4,
{
}

/// The four severities have the levels 1 to 4.
pub proof fn lemma_severity_levels()
    ensures
        severity_level("low"@) == 1,
        severity_level("medium"@) == 2,
        severity_level("high"@) == 3,
        severity_level("critical"@) == 4,
{
    reveal_strlit("low");
    reveal_strlit("medium");
    reveal_strlit("high");
    reveal_strlit("critical");
    assert("low"@.len() == 3);
    assert("medium"@.len() == 6);
    assert("high"@.len() == 4);
    assert("critical"@.len() == 8);
}

/// Who reports: the identifiers of the sensor and of the control unit that it watches, and the byte
/// order of the machine that it runs on.
pub struct SensorIdentity {
    pub sensor_id: String,
    pub ecu_id: String,
    pub byte_order: ByteOrder,
}

/// The contents of a [`SensorIdentity`].
pub struct IdentityView {
    pub sensor_id: Seq<char>,
    pub ecu_id: Seq<char>,
    pub byte_order: ByteOrder,
}

impl View for SensorIdentity {
    type V = IdentityView;

    open spec fn view(&self) -> IdentityView {
        IdentityView {
            sensor_id: self.sensor_id@,
            ecu_id: self.ecu_id@,
            byte_order: self.byte_order,
        }
    }
}

/// The sensor identifier: the configured one, or `sensor-01`.
pub fn incident_sensor_id(configured: Option<String>) -> (id: String)
    ensures
        id@ == text::text_or(text::opt_view(configured), "sensor-01"@),
{
    match configured {
        Some(id) => id,
        None => "sensor-01".to_owned(),
    }
}

/// The control unit identifier: the configured one, or `unknown_ecu`.
pub fn incident_ecu_id(configured: Option<String>) -> (id: String)
    ensures
        id@ == text::text_or(text::opt_view(configured), "unknown_ecu"@),
{
    match configured {
        Some(id) => id,
        None => "unknown_ecu".to_owned(),
    }
}

/// What is particular to one incident; the rest of a record is the same for all.
pub struct Details<'a> {
    pub event_id: String,
    pub incident_type_id: u8,
    pub timestamp: &'a str,
    pub source: &'a str,
    pub severity: &'a str,
    pub confidence: u8,
    pub signature: &'a str,
    pub evidence_hash: String,
    pub action_hint: &'a str,
}

/// The contents of [`Details`].
pub struct DetailsView {
    pub event_id: Seq<char>,
    pub incident_type_id: u8,
    pub timestamp: Seq<char>,
    pub source: Seq<char>,
    pub severity: Seq<char>,
    pub confidence: u8,
    pub signature: Seq<char>,
    pub evidence_hash: Seq<char>,
    pub action_hint: Seq<char>,
}

impl<'a> View for Details<'a> {
    type V = DetailsView;

    open spec fn view(&self) -> DetailsView {
        DetailsView {
            event_id: self.event_id@,
            incident_type_id: self.incident_type_id,
            timestamp: self.timestamp@,
            source: self.source@,
            severity: self.severity@,
            confidence: self.confidence,
            signature: self.signature@,
            evidence_hash: self.evidence_hash@,
            action_hint: self.action_hint@,
        }
    }
}

/// The record of an incident that names no device class.
pub open spec fn assembled(details: DetailsView, identity: IdentityView) -> IncidentView {
    IncidentView {
        event_id: details.event_id,
        incident_type_id: details.incident_type_id,
        sensor_id: identity.sensor_id,
        timestamp: details.timestamp,
        ecu_id: identity.ecu_id,
        bus_type: "USB"@,
        source: details.source,
        can_id: "n/a"@,
        direction: "rx"@,
        severity: details.severity,
        severity_id: severity_level(details.severity),
        confidence: details.confidence,
        signature: details.signature,
        usb_class: None,
        usb_subclass: None,
        usb_protocol: None,
        evidence_hash: details.evidence_hash,
        action_hint: details.action_hint,
    }
}

/// The record of an incident that names no device class.
pub fn assemble(details: Details, identity: &SensorIdentity) -> (record: IncidentRecord)
    ensures
        record@ == assembled(details@, identity@),
{
    IncidentRecord {
        event_id: details.event_id,
        incident_type_id: details.incident_type_id,
        sensor_id: identity.sensor_id.clone(),
        timestamp: details.timestamp.to_owned(),
        ecu_id: identity.ecu_id.clone(),
        bus_type: "USB".to_owned(),
        source: details.source.to_owned(),
        can_id: "n/a".to_owned(),
        direction: "rx".to_owned(),
        severity: details.severity.to_owned(),
        severity_id: severity_id_for(details.severity),
        confidence: details.confidence,
        signature: details.signature.to_owned(),
        usb_class: None,
        usb_subclass: None,
        usb_protocol: None,
        evidence_hash: details.evidence_hash,
        action_hint: details.action_hint.to_owned(),
    }
}

/// The contents of the records of a list.
pub open spec fn record_views(records: Seq<IncidentRecord>) -> Seq<IncidentView> {
    records.map_values(|r: IncidentRecord| r@)
}

/// The contents of an optional record.
pub open spec fn opt_record_view(record: Option<IncidentRecord>) -> Option<IncidentView> {
    match record {
        Some(inner) => Some(inner@),
        None => None,
    }
}

/// All records of a list belong to the taxonomy.
pub open spec fn all_in_taxonomy(records: Seq<IncidentView>) -> bool {
    forall|i: int| 0 <= i < records.len() ==> in_taxonomy(#[trigger] records[i])
}

/// One member of a JSON object: its name and its value, already rendered.
pub struct Member {
    pub name: String,
    pub value: String,
}

/// The contents of a [`Member`].
pub struct MemberView {
    pub name: Seq<char>,
    pub value: Seq<char>,
}

impl View for Member {
    type V = MemberView;

    open spec fn view(&self) -> MemberView {
        MemberView { name: self.name@, value: self.value@ }
    }
}

/// The contents of the members of a list.
pub open spec fn member_views(members: Seq<Member>) -> Seq<MemberView> {
    members.map_values(|m: Member| m@)
}

/// One member on a line of its own.
pub open spec fn member_line(member: MemberView) -> Seq<char> {
    "\n  \""@ + member.name + "\": "@ + member.value
}

/// The members of an object, each on a line of its own, with commas between them.
pub open spec fn member_lines(members: Seq<MemberView>) -> Seq<char>
    decreases members.len(),
{
    if members.len() == 0 {
        Seq::empty()
    } else if members.len() == 1 {
        member_line(members[0])
    } else {
        member_lines(members.drop_last()) + ","@ + member_line(members.last())
    }
}

/// A JSON object with one member per line.
pub open spec fn object_text(members: Seq<MemberView>) -> Seq<char> {
    "{"@ + member_lines(members) + "\n}"@
}

/// A string member.
pub open spec fn string_member(name: Seq<char>, value: Seq<char>) -> MemberView {
    MemberView { name, value: json::quoted(value) }
}

/// A number member.
pub open spec fn number_member(name: Seq<char>, value: nat) -> MemberView {
    MemberView { name, value: digits::decimal(value) }
}

/// A string member that may be `null`.
pub open spec fn optional_member(name: Seq<char>, value: Option<Seq<char>>) -> MemberView {
    MemberView { name, value: json::quoted_or_null(value) }
}

/// The members of an incident, in the order in which they are reported.
pub open spec fn record_members(record: IncidentView) -> Seq<MemberView> {
    seq![
        string_member("event_id"@, record.event_id),
        number_member("incident_type_id"@, record.incident_type_id as nat),
        string_member("sensor_id"@, record.sensor_id),
        string_member("timestamp"@, record.timestamp),
        string_member("ecu_id"@, record.ecu_id),
        string_member("bus_type"@, record.bus_type),
        string_member("source"@, record.source),
        string_member("can_id"@, record.can_id),
        string_member("direction"@, record.direction),
        string_member("severity"@, record.severity),
        number_member("severity_id"@, record.severity_id as nat),
        number_member("confidence"@, record.confidence as nat),
        string_member("signature"@, record.signature),
        optional_member("usb_class"@, record.usb_class),
        optional_member("usb_subclass"@, record.usb_subclass),
        optional_member("usb_protocol"@, record.usb_protocol),
        string_member("evidence_hash"@, record.evidence_hash),
        string_member("action_hint"@, record.action_hint),
    ]
}

/// The JSON text of an incident.
pub open spec fn record_text(record: IncidentView) -> Seq<char> {
    object_text(record_members(record))
}

/// A JSON object with one member per line.
fn json_object(members: &Vec<Member>) -> (out: String)
    ensures
        out@ == object_text(member_views(members@)),
{
    let ghost views = member_views(members@);
    let mut out = "{".to_owned();
    let mut i: usize = 0;
    assert("{"@ + member_lines(views.take(0)) == "{"@);
    while i < members.len()
        invariant
            i <= members@.len(),
            views == member_views(members@),
            out@ == "{"@ + member_lines(views.take(i as int)),
        decreases members@.len() - i,
    {
        let ghost before = out@;
        if i > 0 {
            out.append(",");
        }
        out.append("\n  \"");
        out.append(members[i].name.as_str());
        out.append("\": ");
        out.append(members[i].value.as_str());
        proof {
            assert(views.take(i + 1).drop_last() == views.take(i as int));
            assert(views.take(i + 1).last() == members@[i as int]@);
            let line = member_line(members@[i as int]@);
            if i == 0 {
                assert(member_lines(views.take(0)) == Seq::<char>::empty());
                assert(views.take(1)[0] == members@[0]@);
                assert(out@ == "{"@ + line);
            } else {
                assert(out@ == "{"@ + (member_lines(views.take(i as int)) + ","@ + line));
            }
        }
        i += 1;
    }
    assert(views.take(i as int) == views);
    out.append("\n}");
    out
}

/// A string member.
fn member_of_string(name: &str, value: &str) -> (member: Member)
    ensures
        member@ == string_member(name@, value@),
{
    Member { name: name.to_owned(), value: json_string(value) }
}

/// A number member.
fn member_of_number(name: &str, value: u8) -> (member: Member)
    ensures
        member@ == number_member(name@, value as nat),
{
    Member { name: name.to_owned(), value: write_decimal(value as u128) }
}

/// A string member that may be `null`.
fn member_of_option(name: &str, value: &Option<String>) -> (member: Member)
    ensures
        member@ == optional_member(name@, text::opt_view(*value)),
{
    Member { name: name.to_owned(), value: json_option_string(as_opt_str(value)) }
}

/// The JSON text of an incident.
pub fn incident_record_to_json(incident: &IncidentRecord) -> (out: String)
    ensures
        out@ == record_text(incident@),
{
    let mut members: Vec<Member> = Vec::new();
    members.push(member_of_string("event_id", incident.event_id.as_str()));
    members.push(member_of_number("incident_type_id", incident.incident_type_id));
    members.push(member_of_string("sensor_id", incident.sensor_id.as_str()));
    members.push(member_of_string("timestamp", incident.timestamp.as_str()));
    members.push(member_of_string("ecu_id", incident.ecu_id.as_str()));
    members.push(member_of_string("bus_type", incident.bus_type.as_str()));
    members.push(member_of_string("source", incident.source.as_str()));
    members.push(member_of_string("can_id", incident.can_id.as_str()));
    members.push(member_of_string("direction", incident.direction.as_str()));
    members.push(member_of_string("severity", incident.severity.as_str()));
    members.push(member_of_number("severity_id", incident.severity_id));
    members.push(member_of_number("confidence", incident.confidence));
    members.push(member_of_string("signature", incident.signature.as_str()));
    members.push(member_of_option("usb_class", &incident.usb_class));
    members.push(member_of_option("usb_subclass", &incident.usb_subclass));
    members.push(member_of_option("usb_protocol", &incident.usb_protocol));
    members.push(member_of_string("evidence_hash", incident.evidence_hash.as_str()));
    members.push(member_of_string("action_hint", incident.action_hint.as_str()));
    assert(member_views(members@) == record_members(incident@));
    json_object(&members)
}

/// The lines of an object, taken from the front.
pub proof fn lemma_member_lines_front(members: Seq<MemberView>)
    requires
        members.len() > 1,
    ensures
        member_lines(members) == member_line(members[0]) + ","@ + member_lines(
            members.drop_first(),
        ),
    decreases members.len(),
{
    let tail = members.drop_first();
    if members.len() == 2 {
        assert(members.drop_last().len() == 1);
        assert(members.drop_last()[0] == members[0]);
        assert(tail[0] == members[1]);
        assert(member_lines(members.drop_last()) == member_line(members[0]));
        assert(member_lines(tail) == member_line(members[1]));
        assert(member_lines(members) == member_lines(members.drop_last()) + ","@ + member_line(
            members.last(),
        ));
    } else {
        lemma_member_lines_front(members.drop_last());
        assert(members.drop_last().drop_first() == tail.drop_last());
        assert(member_lines(members) == member_line(members[0]) + ","@ + member_lines(tail));
    }
}

} // verus!
