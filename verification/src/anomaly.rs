//! Changes of a known device that should not happen.

use vstd::prelude::*;

use crate::clock::current_timestamp_rfc3339;
use crate::calendar;
use crate::incident;
use crate::incident::{IdentityView, IncidentRecord, IncidentView, SensorIdentity};
use crate::snapshot::{DeviceSnapshot, SnapshotView};
use crate::text;
use crate::text::{debug_opt, debug_str, same_text};
use crate::usb_incidents;
use crate::usb_incidents::log_typed_anomaly;

verus! {

/// The device sits at another port, or elsewhere on the bus.
pub open spec fn topology_changed(before: SnapshotView, now: SnapshotView) -> bool {
    before.port_id != now.port_id || before.bus_topology != now.bus_topology
}

/// The device claims another class, subclass or protocol.
pub open spec fn class_changed(before: SnapshotView, now: SnapshotView) -> bool {
    ||| before.device_class != now.device_class
    ||| before.device_subclass != now.device_subclass
    ||| before.device_protocol != now.device_protocol
}

/// The device claims another serial number.
pub open spec fn serial_changed(before: SnapshotView, now: SnapshotView) -> bool {
    before.serial != now.serial
}

/// The device has another path.
pub open spec fn devpath_changed(before: SnapshotView, now: SnapshotView) -> bool {
    before.devpath != now.devpath
}

/// What the incident of a changed port says, given the debug texts of the ports and bus positions.
pub open spec fn topology_text(
    port_before: Seq<char>,
    port_now: Seq<char>,
    bus_before: Seq<char>,
    bus_now: Seq<char>,
) -> Seq<char> {
    "port/topology changed: port "@ + port_before + "→"@ + port_now + ", bus "@ + bus_before + "→"@
        + bus_now
}

/// What the incident of a changed class says, given the debug texts of class, subclass and
/// protocol.
pub open spec fn class_text(
    class_before: Seq<char>,
    subclass_before: Seq<char>,
    protocol_before: Seq<char>,
    class_now: Seq<char>,
    subclass_now: Seq<char>,
    protocol_now: Seq<char>,
) -> Seq<char> {
    "usb class changed: "@ + class_before + "/"@ + subclass_before + "/"@ + protocol_before + " → "@
        + class_now + "/"@ + subclass_now + "/"@ + protocol_now
}

/// What the incident of a changed serial number says, given the debug texts of both.
pub open spec fn serial_text(before: Seq<char>, now: Seq<char>) -> Seq<char> {
    "serial changed from "@ + before + " to "@ + now
}

/// What the incident of a changed path says, given the debug texts of both.
pub open spec fn devpath_text(before: Seq<char>, now: Seq<char>) -> Seq<char> {
    "devpath changed from "@ + before + " to "@ + now
}

/// What the incident of a changed port says, given the debug texts of the ports and bus positions.
pub fn topology_reason(
    port_before: &str,
    port_now: &str,
    bus_before: &str,
    bus_now: &str,
) -> (reason: String)
    ensures
        reason@ == topology_text(port_before@, port_now@, bus_before@, bus_now@),
{
    let mut reason = "port/topology changed: port ".to_owned();
    reason.append(port_before);
    reason.append("→");
    reason.append(port_now);
    reason.append(", bus ");
    reason.append(bus_before);
    reason.append("→");
    reason.append(bus_now);
    reason
}

/// What the incident of a changed class says, given the debug texts of class, subclass and
/// protocol.
pub fn class_reason(
    class_before: &str,
    subclass_before: &str,
    protocol_before: &str,
    class_now: &str,
    subclass_now: &str,
    protocol_now: &str,
) -> (reason: String)
    ensures
        reason@ == class_text(
            class_before@,
            subclass_before@,
            protocol_before@,
            class_now@,
            subclass_now@,
            protocol_now@,
        ),
{
    let mut reason = "usb class changed: ".to_owned();
    reason.append(class_before);
    reason.append("/");
    reason.append(subclass_before);
    reason.append("/");
    reason.append(protocol_before);
    reason.append(" → ");
    reason.append(class_now);
    reason.append("/");
    reason.append(subclass_now);
    reason.append("/");
    reason.append(protocol_now);
    reason
}

/// What the incident of a changed serial number says, given the debug texts of both.
pub fn serial_reason(before: &str, now: &str) -> (reason: String)
    ensures
        reason@ == serial_text(before@, now@),
{
    let mut reason = "serial changed from ".to_owned();
    reason.append(before);
    reason.append(" to ");
    reason.append(now);
    reason
}

/// What the incident of a changed path says, given the debug texts of both.
pub fn devpath_reason(before: &str, now: &str) -> (reason: String)
    ensures
        reason@ == devpath_text(before@, now@),
{
    let mut reason = "devpath changed from ".to_owned();
    reason.append(before);
    reason.append(" to ");
    reason.append(now);
    reason
}

/// The timestamps of the incidents that one comparison may give, one for each kind of change.
pub struct AnomalyClock {
    pub topology: String,
    pub class: String,
    pub serial: String,
    pub devpath: String,
}

/// The contents of an [`AnomalyClock`].
pub struct AnomalyClockView {
    pub topology: Seq<char>,
    pub class: Seq<char>,
    pub serial: Seq<char>,
    pub devpath: Seq<char>,
}

impl View for AnomalyClock {
    type V = AnomalyClockView;

    open spec fn view(&self) -> AnomalyClockView {
        AnomalyClockView {
            topology: self.topology@,
            class: self.class@,
            serial: self.serial@,
            devpath: self.devpath@,
        }
    }
}

/// A text that is the timestamp of a clock reading.
pub open spec fn is_timestamp(text: Seq<char>) -> bool {
    exists|seconds: u64| text == #[trigger] calendar::rfc3339(seconds as i64)
}

impl AnomalyClockView {
    /// Timestamps that clock readings can give.
    pub open spec fn is_reading(self) -> bool {
        &&& is_timestamp(self.topology)
        &&& is_timestamp(self.class)
        &&& is_timestamp(self.serial)
        &&& is_timestamp(self.devpath)
    }
}

impl AnomalyClock {
    /// Reads the clock for each kind of change.
    pub fn read() -> (clock: Self)
        ensures
            clock@.is_reading(),
    {
        AnomalyClock {
            topology: current_timestamp_rfc3339(),
            class: current_timestamp_rfc3339(),
            serial: current_timestamp_rfc3339(),
            devpath: current_timestamp_rfc3339(),
        }
    }
}

/// The incident of a changed port.
pub open spec fn topology_incident(
    before: SnapshotView,
    now: SnapshotView,
    timestamp: Seq<char>,
    identity: IdentityView,
) -> IncidentView {
    usb_incidents::anomaly_incident(
        now,
        3,
        "high"@,
        topology_text(
            text::opt_debug(before.port_id),
            text::opt_debug(now.port_id),
            text::opt_debug(before.bus_topology),
            text::opt_debug(now.bus_topology),
        ),
        "investigate_port_change"@,
        timestamp,
        identity,
    )
}

/// The incident of a changed class.
pub open spec fn class_incident(
    before: SnapshotView,
    now: SnapshotView,
    timestamp: Seq<char>,
    identity: IdentityView,
) -> IncidentView {
    usb_incidents::anomaly_incident(
        now,
        4,
        "critical"@,
        class_text(
            text::opt_debug(before.device_class),
            text::opt_debug(before.device_subclass),
            text::opt_debug(before.device_protocol),
            text::opt_debug(now.device_class),
            text::opt_debug(now.device_subclass),
            text::opt_debug(now.device_protocol),
        ),
        "block_and_alert"@,
        timestamp,
        identity,
    )
}

/// The incident of a changed serial number.
pub open spec fn serial_incident(
    before: Option<Seq<char>>,
    now: SnapshotView,
    timestamp: Seq<char>,
    identity: IdentityView,
) -> IncidentView {
    usb_incidents::anomaly_incident(
        now,
        5,
        "critical"@,
        serial_text(text::opt_debug(before), text::opt_debug(now.serial)),
        "block_and_alert"@,
        timestamp,
        identity,
    )
}

/// The incident of a changed path.
pub open spec fn devpath_incident(
    before: SnapshotView,
    now: SnapshotView,
    timestamp: Seq<char>,
    identity: IdentityView,
) -> IncidentView {
    usb_incidents::anomaly_incident(
        now,
        6,
        "high"@,
        devpath_text(text::str_debug(before.devpath), text::str_debug(now.devpath)),
        "investigate_devpath"@,
        timestamp,
        identity,
    )
}

/// A list of one incident, or none.
pub open spec fn if_so(condition: bool, incident: IncidentView) -> Seq<IncidentView> {
    if condition {
        seq![incident]
    } else {
        Seq::empty()
    }
}

/// The incidents of a device that is now seen differently than before, one for each kind of
/// change.
pub open spec fn anomalies(
    before: SnapshotView,
    now: SnapshotView,
    clock: AnomalyClockView,
    identity: IdentityView,
) -> Seq<IncidentView> {
    if_so(topology_changed(before, now), topology_incident(before, now, clock.topology, identity))
        + if_so(class_changed(before, now), class_incident(before, now, clock.class, identity))
        + if_so(
        serial_changed(before, now),
        serial_incident(before.serial, now, clock.serial, identity),
    ) + if_so(
        devpath_changed(before, now),
        devpath_incident(before, now, clock.devpath, identity),
    )
}

/// Reports a changed serial number.
fn report_serial_change(
    before: &Option<String>,
    now: &DeviceSnapshot,
    timestamp: &str,
    identity: &SensorIdentity,
) -> (record: IncidentRecord)
    ensures
        record@ == serial_incident(text::opt_view(*before), now@, timestamp@, identity@),
{
    let reason = serial_reason(debug_opt(before).as_str(), debug_opt(&now.serial).as_str());
    log_typed_anomaly(
        now,
        5,
        "critical",
        reason.as_str(),
        "block_and_alert",
        timestamp,
        identity,
    )
}

/// Whether two optional strings are the same.
pub fn same_option(a: &Option<String>, b: &Option<String>) -> (result: bool)
    ensures
        result == (text::opt_view(*a) == text::opt_view(*b)),
{
    match (a, b) {
        (Some(x), Some(y)) => same_text(x.as_str(), y.as_str()),
        (None, None) => true,
        _ => false,
    }
}

/// The incidents of a device that is now seen differently than before, when its serial number was
/// `serial_before`.
pub fn find_anomalies(
    before: &DeviceSnapshot,
    serial_before: &Option<String>,
    now: &DeviceSnapshot,
    clock: &AnomalyClock,
    identity: &SensorIdentity,
) -> (records: Vec<IncidentRecord>)
    ensures
        incident::record_views(records@) == anomalies(
            (SnapshotView { serial: text::opt_view(*serial_before), ..before@ }),
            now@,
            clock@,
            identity@,
        ),
{
    let ghost past = SnapshotView { serial: text::opt_view(*serial_before), ..before@ };
    let mut records: Vec<IncidentRecord> = Vec::new();
    let ghost first = if_so(
        topology_changed(past, now@),
        topology_incident(past, now@, clock@.topology, identity@),
    );
    if !same_option(&before.port_id, &now.port_id) || !same_option(
        &before.bus_topology,
        &now.bus_topology,
    ) {
        let reason = topology_reason(
            debug_opt(&before.port_id).as_str(),
            debug_opt(&now.port_id).as_str(),
            debug_opt(&before.bus_topology).as_str(),
            debug_opt(&now.bus_topology).as_str(),
        );
        records.push(
            log_typed_anomaly(
                now,
                3,
                "high",
                reason.as_str(),
                "investigate_port_change",
                clock.topology.as_str(),
                identity,
            ),
        );
    }
    assert(incident::record_views(records@) == first);
    let ghost second = first + if_so(
        class_changed(past, now@),
        class_incident(past, now@, clock@.class, identity@),
    );
    if !same_option(&before.device_class, &now.device_class) || !same_option(
        &before.device_subclass,
        &now.device_subclass,
    ) || !same_option(&before.device_protocol, &now.device_protocol) {
        let reason = class_reason(
            debug_opt(&before.device_class).as_str(),
            debug_opt(&before.device_subclass).as_str(),
            debug_opt(&before.device_protocol).as_str(),
            debug_opt(&now.device_class).as_str(),
            debug_opt(&now.device_subclass).as_str(),
            debug_opt(&now.device_protocol).as_str(),
        );
        records.push(
            log_typed_anomaly(
                now,
                4,
                "critical",
                reason.as_str(),
                "block_and_alert",
                clock.class.as_str(),
                identity,
            ),
        );
    }
    assert(incident::record_views(records@) == second);
    let ghost third = second + if_so(
        serial_changed(past, now@),
        serial_incident(past.serial, now@, clock@.serial, identity@),
    );
    if !same_option(serial_before, &now.serial) {
        records.push(
            report_serial_change(serial_before, now, clock.serial.as_str(), identity),
        );
    }
    assert(incident::record_views(records@) == third);
    if !same_text(before.devpath.as_str(), now.devpath.as_str()) {
        let reason = devpath_reason(
            debug_str(before.devpath.as_str()).as_str(),
            debug_str(now.devpath.as_str()).as_str(),
        );
        records.push(
            log_typed_anomaly(
                now,
                6,
                "high",
                reason.as_str(),
                "investigate_devpath",
                clock.devpath.as_str(),
                identity,
            ),
        );
    }
    assert(incident::record_views(records@) == anomalies(past, now@, clock@, identity@));
    records
}

/// A device that looks as it did before gives no incident, and every incident that a change gives
/// belongs to the taxonomy.
pub proof fn lemma_anomalies(
    before: SnapshotView,
    now: SnapshotView,
    clock: AnomalyClockView,
    identity: IdentityView,
)
    ensures
        anomalies(before, now, clock, identity).len() == 0 <==> !topology_changed(before, now)
            && !class_changed(before, now) && !serial_changed(before, now) && !devpath_changed(
            before,
            now,
        ),
        incident::all_in_taxonomy(anomalies(before, now, clock, identity)),
        forall|i: int|
            0 <= i < anomalies(before, now, clock, identity).len() ==> 3 <= (#[trigger] anomalies(
                before,
                now,
                clock,
                identity,
            )[i]).incident_type_id <= 6,
{
}

} // verus!
