//! The incidents that USB events give rise to.

use vstd::prelude::*;

use crate::clock::{Stamp, StampView};
use crate::digest;
use crate::digest::{build_event_id, build_evidence_hash};
use crate::digits;
use crate::digits::write_decimal;
use crate::incident;
use crate::incident::{assemble, Details, DetailsView, IdentityView, IncidentRecord, IncidentView, SensorIdentity};
use crate::snapshot::{DeviceSnapshot, SnapshotView};
use crate::text;
use crate::text::debug_str;
use crate::udev::{UdevEvent, UdevEventView};

verus! {

/// The device path of an event, or `unknown`.
pub open spec fn devpath_or_unknown(event: UdevEventView) -> Seq<char> {
    text::text_or(event.devpath(), "unknown"@)
}

/// The device path of an event, or `unknown`.
fn known_devpath(event: &UdevEvent) -> (devpath: &str)
    ensures
        devpath@ == devpath_or_unknown(event@),
{
    match event.devpath() {
        Some(devpath) => devpath,
        None => "unknown",
    }
}

/// The incident of a device that was plugged or unplugged.
pub open spec fn lifecycle_incident(
    event: UdevEventView,
    incident_type_id: u8,
    signature: Seq<char>,
    severity: Seq<char>,
    action_hint: Seq<char>,
    stamp: StampView,
    identity: IdentityView,
) -> IncidentView {
    let devpath = devpath_or_unknown(event);
    incident::assembled(
        DetailsView {
            event_id: digest::identifier("USB_LIFECYCLE"@, devpath, stamp.millis, identity.byte_order),
            incident_type_id,
            timestamp: stamp.timestamp,
            source: devpath,
            severity,
            confidence: 100,
            signature,
            evidence_hash: digest::evidence(devpath, signature, action_hint),
            action_hint,
        },
        identity,
    )
}

/// Reports a device that was plugged or unplugged.
pub fn log_usb_lifecycle_event(
    event: &UdevEvent,
    incident_type_id: u8,
    signature: &str,
    severity: &str,
    action_hint: &str,
    stamp: &Stamp,
    identity: &SensorIdentity,
) -> (record: IncidentRecord)
    ensures
        record@ == lifecycle_incident(
            event@,
            incident_type_id,
            signature@,
            severity@,
            action_hint@,
            stamp@,
            identity@,
        ),
{
    let devpath = known_devpath(event);
    assemble(
        Details {
            event_id: build_event_id("USB_LIFECYCLE", devpath, stamp.millis, identity.byte_order),
            incident_type_id,
            timestamp: stamp.timestamp.as_str(),
            source: devpath,
            severity,
            confidence: 100,
            signature,
            evidence_hash: build_evidence_hash(devpath, signature, action_hint),
            action_hint,
        },
        identity,
    )
}

/// The prefix that the identifier of an anomaly begins with.
pub open spec fn anomaly_prefix(incident_type_id: u8) -> Seq<char> {
    if incident_type_id == 3 {
        "USB_TOPOLOGY_CHANGE"@
    } else if incident_type_id == 4 {
        "USB_CLASS_CHANGE"@
    } else if incident_type_id == 5 {
        "USB_SERIAL_CHANGE"@
    } else if incident_type_id == 6 {
        "USB_DEVPATH_CHANGE"@
    } else {
        "USB_ANOMALY"@
    }
}

/// The incident of a device that has changed in a way it should not.
pub open spec fn anomaly_incident(
    snapshot: SnapshotView,
    incident_type_id: u8,
    severity: Seq<char>,
    reason: Seq<char>,
    action_hint: Seq<char>,
    timestamp: Seq<char>,
    identity: IdentityView,
) -> IncidentView {
    IncidentView {
        usb_class: snapshot.device_class,
        usb_subclass: snapshot.device_subclass,
        usb_protocol: snapshot.device_protocol,
        ..incident::assembled(
            DetailsView {
                event_id: digest::identifier(
                    anomaly_prefix(incident_type_id),
                    snapshot.key,
                    snapshot.timestamp_ms,
                    identity.byte_order,
                ),
                incident_type_id,
                timestamp,
                source: snapshot.devpath,
                severity,
                confidence: 92,
                signature: reason,
                evidence_hash: digest::evidence(snapshot.key, reason, snapshot.devpath),
                action_hint,
            },
            identity,
        )
    }
}

/// Reports a device that has changed in a way it should not.
pub fn log_typed_anomaly(
    snapshot: &DeviceSnapshot,
    incident_type_id: u8,
    severity: &str,
    reason: &str,
    action_hint: &str,
    timestamp: &str,
    identity: &SensorIdentity,
) -> (record: IncidentRecord)
    ensures
        record@ == anomaly_incident(
            snapshot@,
            incident_type_id,
            severity@,
            reason@,
            action_hint@,
            timestamp@,
            identity@,
        ),
{
    let prefix = match incident_type_id {
        3 => "USB_TOPOLOGY_CHANGE",
        4 => "USB_CLASS_CHANGE",
        5 => "USB_SERIAL_CHANGE",
        6 => "USB_DEVPATH_CHANGE",
        _ => "USB_ANOMALY",
    };
    let mut record = assemble(
        Details {
            event_id: build_event_id(
                prefix,
                snapshot.key.as_str(),
                snapshot.timestamp_ms,
                identity.byte_order,
            ),
            incident_type_id,
            timestamp,
            source: snapshot.devpath.as_str(),
            severity,
            confidence: 92,
            signature: reason,
            evidence_hash: build_evidence_hash(
                snapshot.key.as_str(),
                reason,
                snapshot.devpath.as_str(),
            ),
            action_hint,
        },
        identity,
    );
    record.usb_class = snapshot.device_class.clone();
    record.usb_subclass = snapshot.device_subclass.clone();
    record.usb_protocol = snapshot.device_protocol.clone();
    record
}

/// What a flapping incident says.
pub open spec fn flapping_signature(count: nat) -> Seq<char> {
    digits::decimal(count) + " connect/disconnect events within 30 seconds"@
}

/// The incident of a device that comes and goes too often.
pub open spec fn flapping_incident(
    event: UdevEventView,
    device_key: Seq<char>,
    count: u32,
    stamp: StampView,
    identity: IdentityView,
) -> IncidentView {
    let devpath = devpath_or_unknown(event);
    let reason = flapping_signature(count as nat);
    incident::assembled(
        DetailsView {
            event_id: digest::identifier("USB_FLAPPING"@, device_key, stamp.millis, identity.byte_order),
            incident_type_id: 7,
            timestamp: stamp.timestamp,
            source: devpath,
            severity: "medium"@,
            confidence: 85,
            signature: reason,
            evidence_hash: digest::evidence(device_key, reason, devpath),
            action_hint: "investigate_device"@,
        },
        identity,
    )
}

/// Reports a device that comes and goes too often.
pub fn log_flapping(
    event: &UdevEvent,
    device_key: &str,
    count: u32,
    stamp: &Stamp,
    identity: &SensorIdentity,
) -> (record: IncidentRecord)
    ensures
        record@ == flapping_incident(event@, device_key@, count, stamp@, identity@),
{
    let devpath = known_devpath(event);
    let mut reason = write_decimal(count as u128);
    reason.append(" connect/disconnect events within 30 seconds");
    assemble(
        Details {
            event_id: build_event_id("USB_FLAPPING", device_key, stamp.millis, identity.byte_order),
            incident_type_id: 7,
            timestamp: stamp.timestamp.as_str(),
            source: devpath,
            severity: "medium",
            confidence: 85,
            signature: reason.as_str(),
            evidence_hash: build_evidence_hash(device_key, reason.as_str(), devpath),
            action_hint: "investigate_device",
        },
        identity,
    )
}

/// What the incident of a malformed event says, given the debug text of its header.
pub open spec fn malformed_signature(header_debug: Seq<char>) -> Seq<char> {
    "malformed udev event: header="@ + header_debug + ", no action or devpath resolved"@
}

/// What the incident of a malformed event says, given the debug text of its header.
pub fn malformed_reason(header_debug: &str) -> (reason: String)
    ensures
        reason@ == malformed_signature(header_debug@),
{
    let mut reason = "malformed udev event: header=".to_owned();
    reason.append(header_debug);
    reason.append(", no action or devpath resolved");
    reason
}

/// The header of an event, or `unknown`.
pub open spec fn header_or_unknown(event: UdevEventView) -> Seq<char> {
    text::text_or(event.header, "unknown"@)
}

/// The incident of an event that cannot be made out, for a given signature.
pub open spec fn malformed_incident(
    event: UdevEventView,
    signature: Seq<char>,
    stamp: StampView,
    identity: IdentityView,
) -> IncidentView {
    let header = header_or_unknown(event);
    incident::assembled(
        DetailsView {
            event_id: digest::identifier("USB_MALFORMED"@, header, stamp.millis, identity.byte_order),
            incident_type_id: 15,
            timestamp: stamp.timestamp,
            source: header,
            severity: "critical"@,
            confidence: 70,
            signature,
            evidence_hash: digest::evidence(header, "malformed"@, "parse_failure"@),
            action_hint: "log_and_alert"@,
        },
        identity,
    )
}

/// Reports an event that cannot be made out.
pub fn log_malformed_event(event: &UdevEvent, stamp: &Stamp, identity: &SensorIdentity) -> (record:
    IncidentRecord)
    ensures
        record@ == malformed_incident(
            event@,
            malformed_signature(text::str_debug(header_or_unknown(event@))),
            stamp@,
            identity@,
        ),
{
    let header = match &event.header {
        Some(header) => header.as_str(),
        None => "unknown",
    };
    let reason = malformed_reason(debug_str(header).as_str());
    assemble(
        Details {
            event_id: build_event_id("USB_MALFORMED", header, stamp.millis, identity.byte_order),
            incident_type_id: 15,
            timestamp: stamp.timestamp.as_str(),
            source: header,
            severity: "critical",
            confidence: 70,
            signature: reason.as_str(),
            evidence_hash: build_evidence_hash(header, "malformed", "parse_failure"),
            action_hint: "log_and_alert",
        },
        identity,
    )
}

/// What an enumeration burst incident says.
pub open spec fn burst_signature(count: nat) -> Seq<char> {
    digits::decimal(count) + " add/bind sub-device events within 10 seconds"@
}

/// The incident of too many sub-devices at once.
pub open spec fn burst_incident(
    event: UdevEventView,
    count: u32,
    stamp: StampView,
    identity: IdentityView,
) -> IncidentView {
    let devpath = devpath_or_unknown(event);
    let reason = burst_signature(count as nat);
    incident::assembled(
        DetailsView {
            event_id: digest::identifier("USB_ENUM_BURST"@, devpath, stamp.millis, identity.byte_order),
            incident_type_id: 16,
            timestamp: stamp.timestamp,
            source: devpath,
            severity: "medium"@,
            confidence: 75,
            signature: reason,
            evidence_hash: digest::evidence(devpath, reason, "enum_burst"@),
            action_hint: "investigate_device"@,
        },
        identity,
    )
}

/// Reports too many sub-devices at once.
pub fn log_enum_burst(
    event: &UdevEvent,
    count: u32,
    stamp: &Stamp,
    identity: &SensorIdentity,
) -> (record: IncidentRecord)
    ensures
        record@ == burst_incident(event@, count, stamp@, identity@),
{
    let devpath = known_devpath(event);
    let mut reason = write_decimal(count as u128);
    reason.append(" add/bind sub-device events within 10 seconds");
    assemble(
        Details {
            event_id: build_event_id("USB_ENUM_BURST", devpath, stamp.millis, identity.byte_order),
            incident_type_id: 16,
            timestamp: stamp.timestamp.as_str(),
            source: devpath,
            severity: "medium",
            confidence: 75,
            signature: reason.as_str(),
            evidence_hash: build_evidence_hash(devpath, reason.as_str(), "enum_burst"),
            action_hint: "investigate_device",
        },
        identity,
    )
}

} // verus!
