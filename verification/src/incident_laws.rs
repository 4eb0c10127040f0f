//! What every incident says, field by field.

use vstd::prelude::*;

use crate::clamscan;
use crate::class_policy;
use crate::clock::{Stamp, StampView};
use crate::digest;
use crate::digits;
use crate::fs_monitor;
use crate::incident;
use crate::incident::{Details, DetailsView, IdentityView, IncidentRecord, IncidentView, Member, SensorIdentity};
use crate::snapshot::SnapshotView;
use crate::supervisor;
use crate::text;
use crate::udev::UdevEventView;
use crate::usb_incidents;

verus! {

/// What all incidents of a sensor have in common: who reports, and on which bus.
pub open spec fn is_by(record: IncidentView, identity: IdentityView) -> bool {
    &&& record.sensor_id == identity.sensor_id
    &&& record.ecu_id == identity.ecu_id
    &&& record.bus_type == "USB"@
    &&& record.can_id == "n/a"@
    &&& record.direction == "rx"@
}

/// An incident has nothing to say of the class of a device.
pub open spec fn is_classless(record: IncidentView) -> bool {
    record.usb_class is None && record.usb_subclass is None && record.usb_protocol is None
}

/// A severity and its number go together: 1 low, 2 medium, 3 high, 4 critical, and 0 for any other
/// word.
pub open spec fn goes_with(severity: Seq<char>, level: u8) -> bool {
    &&& severity == "low"@ <==> level == 1
    &&& severity == "medium"@ <==> level == 2
    &&& severity == "high"@ <==> level == 3
    &&& severity == "critical"@ <==> level == 4
    &&& level <= 4
}

/// The severities are different words.
proof fn lemma_severities_differ()
    ensures
        "low"@ != "medium"@,
        "low"@ != "high"@,
        "low"@ != "critical"@,
        "medium"@ != "high"@,
        "medium"@ != "critical"@,
        "high"@ != "critical"@,
{
    reveal_strlit("low");
    reveal_strlit("medium");
    reveal_strlit("high");
    reveal_strlit("critical");
    assert("low"@.len() == 3 && "medium"@.len() == 6 && "high"@.len() == 4 && "critical"@.len() == 8);
}

/// Every severity has its number.
pub proof fn lemma_severity_numbers(severity: Seq<char>)
    ensures
        goes_with(severity, incident::severity_level(severity)),
{
    lemma_severities_differ();
}

/// The seventeen types of the taxonomy have each one severity.
pub proof fn lemma_taxonomy(incident_type_id: u8)
    ensures
        incident_type_id == 1 || incident_type_id == 2 || incident_type_id == 9
            ==> incident::taxonomy_severity(incident_type_id) == "low"@,
        incident_type_id == 7 || incident_type_id == 10 || incident_type_id == 12
            || incident_type_id == 14 || incident_type_id == 16 ==> incident::taxonomy_severity(
            incident_type_id,
        ) == "medium"@,
        incident_type_id == 3 || incident_type_id == 6 || incident_type_id == 8 || incident_type_id
            == 11 ==> incident::taxonomy_severity(incident_type_id) == "high"@,
        incident_type_id == 4 || incident_type_id == 5 || incident_type_id == 13 || incident_type_id
            == 15 || incident_type_id == 17 ==> incident::taxonomy_severity(incident_type_id)
            == "critical"@,
{
}

/// An incident belongs to the taxonomy exactly when its type is one of the seventeen, and its
/// severity and number are those of the type.
pub proof fn lemma_in_taxonomy(record: IncidentView)
    ensures
        incident::in_taxonomy(record) <==> {
            &&& 1 <= record.incident_type_id <= 17
            &&& record.severity == incident::taxonomy_severity(record.incident_type_id)
            &&& goes_with(record.severity, record.severity_id)
        },
{
    lemma_severities_differ();
}

/// An incident is put together from its details and from who reports it, each in its own field; it
/// says nothing of a class.
pub proof fn lemma_assembled(details: DetailsView, identity: IdentityView)
    ensures
        ({
            let record = incident::assembled(details, identity);
            &&& is_by(record, identity)
            &&& is_classless(record)
            &&& record.event_id == details.event_id
            &&& record.incident_type_id == details.incident_type_id
            &&& record.timestamp == details.timestamp
            &&& record.source == details.source
            &&& record.severity == details.severity
            &&& goes_with(record.severity, record.severity_id)
            &&& record.confidence == details.confidence
            &&& record.signature == details.signature
            &&& record.evidence_hash == details.evidence_hash
            &&& record.action_hint == details.action_hint
        }),
{
    lemma_severities_differ();
}

/// The path of the device that an event names, or `unknown`.
pub open spec fn path_of(event: UdevEventView) -> Seq<char> {
    if event.properties.contains_key("DEVPATH"@) {
        event.properties["DEVPATH"@]
    } else {
        "unknown"@
    }
}

/// The header of an event, or `unknown`.
pub open spec fn header_of(event: UdevEventView) -> Seq<char> {
    match event.header {
        Some(header) => header,
        None => "unknown"@,
    }
}

/// The incident of a turn names the device, or `unknown`, and tells what it is told.
pub proof fn lemma_lifecycle_incident(
    event: UdevEventView,
    incident_type_id: u8,
    signature: Seq<char>,
    severity: Seq<char>,
    action_hint: Seq<char>,
    stamp: StampView,
    identity: IdentityView,
)
    ensures
        ({
            let record = usb_incidents::lifecycle_incident(
                event,
                incident_type_id,
                signature,
                severity,
                action_hint,
                stamp,
                identity,
            );
            &&& is_by(record, identity)
            &&& is_classless(record)
            &&& record.event_id == digest::identifier(
                "USB_LIFECYCLE"@,
                path_of(event),
                stamp.millis,
                identity.byte_order,
            )
            &&& record.incident_type_id == incident_type_id
            &&& record.timestamp == stamp.timestamp
            &&& record.source == path_of(event)
            &&& record.severity == severity
            &&& goes_with(record.severity, record.severity_id)
            &&& record.confidence == 100
            &&& record.signature == signature
            &&& record.evidence_hash == digest::evidence(path_of(event), signature, action_hint)
            &&& record.action_hint == action_hint
        }),
{
    lemma_severities_differ();
}

/// The incident of a change of a device carries the class of the device as it is now, and is
/// identified by the key and the time of the device.
pub proof fn lemma_anomaly_incident(
    seen: SnapshotView,
    incident_type_id: u8,
    severity: Seq<char>,
    reason: Seq<char>,
    action_hint: Seq<char>,
    timestamp: Seq<char>,
    identity: IdentityView,
)
    ensures
        ({
            let record = usb_incidents::anomaly_incident(
                seen,
                incident_type_id,
                severity,
                reason,
                action_hint,
                timestamp,
                identity,
            );
            &&& is_by(record, identity)
            &&& record.usb_class == seen.device_class
            &&& record.usb_subclass == seen.device_subclass
            &&& record.usb_protocol == seen.device_protocol
            &&& record.event_id == digest::identifier(
                usb_incidents::anomaly_prefix(incident_type_id),
                seen.key,
                seen.timestamp_ms,
                identity.byte_order,
            )
            &&& record.incident_type_id == incident_type_id
            &&& record.timestamp == timestamp
            &&& record.source == seen.devpath
            &&& record.severity == severity
            &&& goes_with(record.severity, record.severity_id)
            &&& record.confidence == 92
            &&& record.signature == reason
            &&& record.evidence_hash == digest::evidence(seen.key, reason, seen.devpath)
            &&& record.action_hint == action_hint
        }),
{
    lemma_severities_differ();
}

/// Each kind of change has a prefix of its own.
pub proof fn lemma_anomaly_prefixes(incident_type_id: u8)
    ensures
        usb_incidents::anomaly_prefix(3) == "USB_TOPOLOGY_CHANGE"@,
        usb_incidents::anomaly_prefix(4) == "USB_CLASS_CHANGE"@,
        usb_incidents::anomaly_prefix(5) == "USB_SERIAL_CHANGE"@,
        usb_incidents::anomaly_prefix(6) == "USB_DEVPATH_CHANGE"@,
        !(3 <= incident_type_id <= 6) ==> usb_incidents::anomaly_prefix(incident_type_id)
            == "USB_ANOMALY"@,
{
}

/// The incident of a flapping device tells how often it came and went.
pub proof fn lemma_flapping_incident(
    event: UdevEventView,
    device_key: Seq<char>,
    count: u32,
    stamp: StampView,
    identity: IdentityView,
)
    ensures
        ({
            let record = usb_incidents::flapping_incident(event, device_key, count, stamp, identity);
            let reason = digits::decimal(count as nat)
                + " connect/disconnect events within 30 seconds"@;
            &&& is_by(record, identity)
            &&& is_classless(record)
            &&& record.event_id == digest::identifier(
                "USB_FLAPPING"@,
                device_key,
                stamp.millis,
                identity.byte_order,
            )
            &&& record.incident_type_id == 7
            &&& record.timestamp == stamp.timestamp
            &&& record.source == path_of(event)
            &&& record.severity == "medium"@
            &&& record.severity_id == 2
            &&& record.confidence == 85
            &&& record.signature == reason
            &&& record.evidence_hash == digest::evidence(device_key, reason, path_of(event))
            &&& record.action_hint == "investigate_device"@
        }),
{
    lemma_severities_differ();
}

/// The incident of a malformed event names its header, or `unknown`.
pub proof fn lemma_malformed_incident(
    event: UdevEventView,
    signature: Seq<char>,
    stamp: StampView,
    identity: IdentityView,
)
    ensures
        ({
            let record = usb_incidents::malformed_incident(event, signature, stamp, identity);
            &&& is_by(record, identity)
            &&& is_classless(record)
            &&& record.event_id == digest::identifier(
                "USB_MALFORMED"@,
                header_of(event),
                stamp.millis,
                identity.byte_order,
            )
            &&& record.incident_type_id == 15
            &&& record.timestamp == stamp.timestamp
            &&& record.source == header_of(event)
            &&& record.severity == "critical"@
            &&& record.severity_id == 4
            &&& record.confidence == 70
            &&& record.signature == signature
            &&& record.evidence_hash == digest::evidence(
                header_of(event),
                "malformed"@,
                "parse_failure"@,
            )
            &&& record.action_hint == "log_and_alert"@
        }),
{
    lemma_severities_differ();
}

/// The incident of a burst tells how many sub-devices came.
pub proof fn lemma_burst_incident(
    event: UdevEventView,
    count: u32,
    stamp: StampView,
    identity: IdentityView,
)
    ensures
        ({
            let record = usb_incidents::burst_incident(event, count, stamp, identity);
            let reason = digits::decimal(count as nat)
                + " add/bind sub-device events within 10 seconds"@;
            &&& is_by(record, identity)
            &&& is_classless(record)
            &&& record.event_id == digest::identifier(
                "USB_ENUM_BURST"@,
                path_of(event),
                stamp.millis,
                identity.byte_order,
            )
            &&& record.incident_type_id == 16
            &&& record.timestamp == stamp.timestamp
            &&& record.source == path_of(event)
            &&& record.severity == "medium"@
            &&& record.severity_id == 2
            &&& record.confidence == 75
            &&& record.signature == reason
            &&& record.evidence_hash == digest::evidence(path_of(event), reason, "enum_burst"@)
            &&& record.action_hint == "investigate_device"@
        }),
{
    lemma_severities_differ();
}

/// The incident of a class that is not permitted tells the class and the list.
pub proof fn lemma_unauthorized_incident(
    devpath: Seq<char>,
    device_class: Seq<char>,
    allowed: Seq<char>,
    stamp: StampView,
    identity: IdentityView,
)
    ensures
        ({
            let record = class_policy::unauthorized_incident(
                devpath,
                device_class,
                allowed,
                stamp,
                identity,
            );
            &&& is_by(record, identity)
            &&& record.usb_class == Some(device_class)
            &&& record.usb_subclass is None
            &&& record.usb_protocol is None
            &&& record.event_id == digest::identifier(
                "USB_UNAUTH_CLASS"@,
                devpath,
                stamp.millis,
                identity.byte_order,
            )
            &&& record.incident_type_id == 8
            &&& record.timestamp == stamp.timestamp
            &&& record.source == devpath
            &&& record.severity == "high"@
            &&& record.severity_id == 3
            &&& record.confidence == 95
            &&& record.signature == "device class "@ + device_class + " not in allowed list ["@
                + allowed + "]"@
            &&& record.evidence_hash == digest::evidence(devpath, device_class, allowed)
            &&& record.action_hint == "block_device"@
        }),
{
    lemma_severities_differ();
}

/// The incident of restarts tells how many there were and what the last was for.
pub proof fn lemma_restart_incident(
    count: nat,
    reason: Seq<char>,
    stamp: StampView,
    identity: IdentityView,
)
    ensures
        ({
            let record = supervisor::restart_incident(count, reason, stamp, identity);
            &&& is_by(record, identity)
            &&& is_classless(record)
            &&& record.event_id == digest::identifier(
                "UDEVADM_CRASH"@,
                reason,
                stamp.millis,
                identity.byte_order,
            )
            &&& record.incident_type_id == 14
            &&& record.timestamp == stamp.timestamp
            &&& record.source == "udevadm"@
            &&& record.severity == "medium"@
            &&& record.severity_id == 2
            &&& record.confidence == 88
            &&& record.signature == digits::decimal(count)
                + " udevadm restarts within 300 seconds — last: "@ + reason
            &&& record.evidence_hash == digest::evidence(
                "udevadm"@,
                reason,
                digits::decimal(count),
            )
            &&& record.action_hint == "investigate_device_instability"@
        }),
{
    lemma_severities_differ();
}

/// The incident of a file carries the description as its signature; the evidence is of the source,
/// the signature and the severity.
pub proof fn lemma_fs_incident(
    incident_type_id: u8,
    severity: Seq<char>,
    signature: Seq<char>,
    description: Seq<char>,
    source: Seq<char>,
    action_hint: Seq<char>,
    stamp: StampView,
    identity: IdentityView,
)
    ensures
        ({
            let record = fs_monitor::fs_incident(
                incident_type_id,
                severity,
                signature,
                description,
                source,
                action_hint,
                stamp,
                identity,
            );
            &&& is_by(record, identity)
            &&& is_classless(record)
            &&& record.event_id == digest::identifier(
                "FS_EVENT"@,
                source,
                stamp.millis,
                identity.byte_order,
            )
            &&& record.incident_type_id == incident_type_id
            &&& record.timestamp == stamp.timestamp
            &&& record.source == source
            &&& record.severity == severity
            &&& goes_with(record.severity, record.severity_id)
            &&& record.confidence == 90
            &&& record.signature == description
            &&& record.evidence_hash == digest::evidence(source, signature, severity)
            &&& record.action_hint == action_hint
        }),
{
    lemma_severities_differ();
}

/// The incident of a threat names the file and the threat; the evidence is also of what was
/// scanned.
pub proof fn lemma_threat_incident(
    file_path: Seq<char>,
    virus_info: Seq<char>,
    target: Seq<char>,
    stamp: StampView,
    identity: IdentityView,
)
    ensures
        ({
            let record = clamscan::threat_incident(
                file_path,
                virus_info,
                target,
                stamp,
                identity,
            );
            &&& is_by(record, identity)
            &&& is_classless(record)
            &&& record.event_id == digest::identifier(
                "CLAMSCAN_THREAT"@,
                file_path,
                stamp.millis,
                identity.byte_order,
            )
            &&& record.incident_type_id == 17
            &&& record.timestamp == stamp.timestamp
            &&& record.source == file_path
            &&& record.severity == "critical"@
            &&& record.severity_id == 4
            &&& record.confidence == 99
            &&& record.signature == "clamscan_threat_found: "@ + virus_info
            &&& record.evidence_hash == digest::evidence(file_path, virus_info, target)
            &&& record.action_hint == "quarantine_and_alert"@
        }),
{
    lemma_severities_differ();
}

/// What incidents say, whatever they are about.
pub proof fn lemma_signatures(count: nat, a: Seq<char>, b: Seq<char>, event: UdevEventView)
    ensures
        usb_incidents::flapping_signature(count) == digits::decimal(count)
            + " connect/disconnect events within 30 seconds"@,
        usb_incidents::burst_signature(count) == digits::decimal(count)
            + " add/bind sub-device events within 10 seconds"@,
        usb_incidents::malformed_signature(a) == "malformed udev event: header="@ + a
            + ", no action or devpath resolved"@,
        class_policy::unauthorized_signature(a, b) == "device class "@ + a
            + " not in allowed list ["@ + b + "]"@,
        supervisor::restart_signature(count, a) == digits::decimal(count)
            + " udevadm restarts within 300 seconds — last: "@ + a,
        usb_incidents::devpath_or_unknown(event) == path_of(event),
        usb_incidents::header_or_unknown(event) == header_of(event),
{
}

/// A record says each thing in its own field, and lists and options of records keep their order and
/// what is absent.
pub proof fn lemma_record_view(
    record: IncidentRecord,
    records: Seq<IncidentRecord>,
    one: Option<IncidentRecord>,
)
    ensures
        record@.event_id == record.event_id@,
        record@.sensor_id == record.sensor_id@,
        record@.timestamp == record.timestamp@,
        record@.ecu_id == record.ecu_id@,
        record@.bus_type == record.bus_type@,
        record@.source == record.source@,
        record@.can_id == record.can_id@,
        record@.direction == record.direction@,
        record@.severity == record.severity@,
        record@.signature == record.signature@,
        record@.evidence_hash == record.evidence_hash@,
        record@.action_hint == record.action_hint@,
        record@.incident_type_id == record.incident_type_id,
        record@.severity_id == record.severity_id,
        record@.confidence == record.confidence,
        record@.usb_class == text::opt_view(record.usb_class),
        record@.usb_subclass == text::opt_view(record.usb_subclass),
        record@.usb_protocol == text::opt_view(record.usb_protocol),
        incident::record_views(records).len() == records.len(),
        forall|i: int|
            0 <= i < records.len() ==> (#[trigger] incident::record_views(records)[i])
                == records[i]@,
        one is None <==> incident::opt_record_view(one) is None,
        one matches Some(inner) ==> incident::opt_record_view(one) == Some(inner@),
{
}

/// An identity, a stamp, the details of an incident and a member say each thing in its own field.
pub proof fn lemma_part_views(
    identity: SensorIdentity,
    stamp: Stamp,
    details: Details,
    member: Member,
    members: Seq<Member>,
)
    ensures
        identity@.sensor_id == identity.sensor_id@,
        identity@.ecu_id == identity.ecu_id@,
        identity@.byte_order == identity.byte_order,
        stamp@.millis == stamp.millis,
        stamp@.timestamp == stamp.timestamp@,
        details@.event_id == details.event_id@,
        details@.incident_type_id == details.incident_type_id,
        details@.timestamp == details.timestamp@,
        details@.source == details.source@,
        details@.severity == details.severity@,
        details@.confidence == details.confidence,
        details@.signature == details.signature@,
        details@.evidence_hash == details.evidence_hash@,
        details@.action_hint == details.action_hint@,
        member@.name == member.name@,
        member@.value == member.value@,
        incident::member_views(members).len() == members.len(),
        forall|i: int|
            0 <= i < members.len() ==> (#[trigger] incident::member_views(members)[i])
                == members[i]@,
{
}

} // verus!
