//! Restarts of the udev monitor.

use vstd::prelude::*;

use crate::clock::{Stamp, StampView};
use crate::digest;
use crate::digest::{build_event_id, build_evidence_hash};
use crate::digits;
use crate::digits::write_decimal;
use crate::incident;
use crate::incident::{assemble, Details, DetailsView, IdentityView, IncidentRecord, IncidentView, SensorIdentity};
use crate::window;
use crate::window::note_time;

verus! {

/// How far back restarts count, in milliseconds.
pub const RESTART_SPAN_MS: u128 = 300_000;

/// How many restarts within the span make an incident.
pub const RESTART_LIMIT: usize = 3;

/// What an incident of repeated restarts says.
pub open spec fn restart_signature(count: nat, reason: Seq<char>) -> Seq<char> {
    digits::decimal(count) + " udevadm restarts within 300 seconds — last: "@ + reason
}

/// The incident of `count` restarts, the last of them for `reason`.
pub open spec fn restart_incident(
    count: nat,
    reason: Seq<char>,
    stamp: StampView,
    identity: IdentityView,
) -> IncidentView {
    incident::assembled(
        DetailsView {
            event_id: digest::identifier("UDEVADM_CRASH"@, reason, stamp.millis, identity.byte_order),
            incident_type_id: 14,
            timestamp: stamp.timestamp,
            source: "udevadm"@,
            severity: "medium"@,
            confidence: 88,
            signature: restart_signature(count, reason),
            evidence_hash: digest::evidence("udevadm"@, reason, digits::decimal(count)),
            action_hint: "investigate_device_instability"@,
        },
        identity,
    )
}

/// What a restart at the time of `stamp` does: the restarts that still count, and the incident.
pub open spec fn restart_step(
    times: Seq<u128>,
    reason: Seq<char>,
    stamp: StampView,
    identity: IdentityView,
) -> (Seq<u128>, Option<IncidentView>) {
    let counted = window::recent(times.push(stamp.millis), stamp.millis, RESTART_SPAN_MS);
    if counted.len() >= RESTART_LIMIT {
        (Seq::empty(), Some(restart_incident(counted.len(), reason, stamp, identity)))
    } else {
        (counted, None)
    }
}

/// The incident of `count` restarts, the last of them for `reason`.
fn report_restarts(count: usize, reason: &str, stamp: &Stamp, identity: &SensorIdentity) -> (record:
    IncidentRecord)
    ensures
        record@ == restart_incident(count as nat, reason@, stamp@, identity@),
{
    let written = write_decimal(count as u128);
    let mut signature = written.clone();
    signature.append(" udevadm restarts within 300 seconds — last: ");
    signature.append(reason);
    assemble(
        Details {
            event_id: build_event_id("UDEVADM_CRASH", reason, stamp.millis, identity.byte_order),
            incident_type_id: 14,
            timestamp: stamp.timestamp.as_str(),
            source: "udevadm",
            severity: "medium",
            confidence: 88,
            signature: signature.as_str(),
            evidence_hash: build_evidence_hash("udevadm", reason, written.as_str()),
            action_hint: "investigate_device_instability",
        },
        identity,
    )
}

/// Notes a restart at the time of `stamp`; returns an incident where restarts pile up, and then
/// starts counting anew.
pub fn record_restart_at(
    restart_times: &mut Vec<u128>,
    reason: &str,
    stamp: &Stamp,
    identity: &SensorIdentity,
) -> (incident: Option<IncidentRecord>)
    ensures
        (final(restart_times)@, incident::opt_record_view(incident)) == restart_step(
            old(restart_times)@,
            reason@,
            stamp@,
            identity@,
        ),
{
    note_time(restart_times, stamp.millis, RESTART_SPAN_MS);
    if restart_times.len() >= RESTART_LIMIT {
        let record = report_restarts(restart_times.len(), reason, stamp, identity);
        restart_times.clear();
        Some(record)
    } else {
        None
    }
}

/// Notes a restart at the present time.
pub fn record_restart(
    restart_times: &mut Vec<u128>,
    reason: &str,
    identity: &SensorIdentity,
) -> (incident: Option<IncidentRecord>)
    ensures
        exists|stamp: StampView|
            stamp.is_reading() && #[trigger] restart_step(
                old(restart_times)@,
                reason@,
                stamp,
                identity@,
            ) == (final(restart_times)@, incident::opt_record_view(incident)),
{
    let stamp = Stamp::read();
    record_restart_at(restart_times, reason, &stamp, identity)
}

/// How a run of the monitor ended.
#[derive(Debug, Clone, Copy, PartialEq, Eq, Structural)]
pub enum MonitorEnd {
    /// It ran and exited.
    Exited,
    /// It could not be started.
    LaunchFailed,
}

/// What is done once a run of the monitor has ended.
pub struct RestartStep {
    /// The diagnostic line.
    pub notice: String,
    /// The reason under which the restart is noted.
    pub reason: String,
    /// How long to wait before the monitor is started again.
    pub wait_secs: u64,
}

/// The reason under which a restart is noted; `detail` is the exit status of the monitor, or the
/// error with which it could not be started.
pub open spec fn restart_reason(end: MonitorEnd, detail: Seq<char>) -> Seq<char> {
    match end {
        MonitorEnd::Exited => "udevadm exited: "@ + detail,
        MonitorEnd::LaunchFailed => "udevadm launch failed: "@ + detail,
    }
}

/// The diagnostic line of a restart.
pub open spec fn restart_notice(end: MonitorEnd, detail: Seq<char>) -> Seq<char> {
    match end {
        MonitorEnd::Exited => "udevadm monitor stopped with status "@ + detail
            + "; restarting in 2 seconds"@,
        MonitorEnd::LaunchFailed => "failed to start udevadm monitor: "@ + detail
            + "; retrying in 5 seconds"@,
    }
}

/// How long to wait before the monitor is started again, in seconds.
pub open spec fn restart_wait(end: MonitorEnd) -> u64 {
    match end {
        MonitorEnd::Exited => 2,
        MonitorEnd::LaunchFailed => 5,
    }
}

impl RestartStep {
    /// The step that follows an end of the monitor.
    pub open spec fn follows(self, end: MonitorEnd, detail: Seq<char>) -> bool {
        &&& self.notice@ == restart_notice(end, detail)
        &&& self.reason@ == restart_reason(end, detail)
        &&& self.wait_secs == restart_wait(end)
    }
}

/// What is done once a run of the monitor has ended.
pub fn after_monitor(end: MonitorEnd, detail: &str) -> (step: RestartStep)
    ensures
        step.follows(end, detail@),
{
    match end {
        MonitorEnd::Exited => {
            let mut notice = "udevadm monitor stopped with status ".to_owned();
            notice.append(detail);
            notice.append("; restarting in 2 seconds");
            let mut reason = "udevadm exited: ".to_owned();
            reason.append(detail);
            RestartStep { notice, reason, wait_secs: 2 }
        },
        MonitorEnd::LaunchFailed => {
            let mut notice = "failed to start udevadm monitor: ".to_owned();
            notice.append(detail);
            notice.append("; retrying in 5 seconds");
            let mut reason = "udevadm launch failed: ".to_owned();
            reason.append(detail);
            RestartStep { notice, reason, wait_secs: 5 }
        },
    }
}

/// Takes in an end of the monitor at the time of `stamp`: what is done about it, and the restart
/// that is noted for the same reason.
pub fn monitor_ended_at(
    restart_times: &mut Vec<u128>,
    end: MonitorEnd,
    detail: &str,
    stamp: &Stamp,
    identity: &SensorIdentity,
) -> (result: (RestartStep, Option<IncidentRecord>))
    ensures
        result.0.follows(end, detail@),
        (final(restart_times)@, incident::opt_record_view(result.1)) == restart_step(
            old(restart_times)@,
            restart_reason(end, detail@),
            stamp@,
            identity@,
        ),
{
    let step = after_monitor(end, detail);
    let incident = record_restart_at(restart_times, step.reason.as_str(), stamp, identity);
    (step, incident)
}

/// Takes in an end of the monitor at the present time.
pub fn monitor_ended(
    restart_times: &mut Vec<u128>,
    end: MonitorEnd,
    detail: &str,
    identity: &SensorIdentity,
) -> (result: (RestartStep, Option<IncidentRecord>))
    ensures
        result.0.follows(end, detail@),
        exists|stamp: StampView|
            stamp.is_reading() && #[trigger] restart_step(
                old(restart_times)@,
                restart_reason(end, detail@),
                stamp,
                identity@,
            ) == (final(restart_times)@, incident::opt_record_view(result.1)),
{
    let step = after_monitor(end, detail);
    let incident = record_restart(restart_times, step.reason.as_str(), identity);
    (step, incident)
}

/// One end of the monitor.
pub struct EndView {
    pub end: MonitorEnd,
    pub detail: Seq<char>,
    pub stamp: StampView,
}

/// What one end of the monitor does to the restarts that count, and the incident of it.
pub open spec fn end_step(times: Seq<u128>, ended: EndView, identity: IdentityView) -> (
    Seq<u128>,
    Option<IncidentView>,
) {
    restart_step(times, restart_reason(ended.end, ended.detail), ended.stamp, identity)
}

/// The restarts that count after a run of ends, when none counted before: one list goes from each
/// end to the next.
pub open spec fn times_after(ends: Seq<EndView>, identity: IdentityView) -> Seq<u128>
    decreases ends.len(),
{
    if ends.len() == 0 {
        Seq::empty()
    } else {
        end_step(times_after(ends.drop_last(), identity), ends.last(), identity).0
    }
}

/// The incidents of a run of ends, for each end its own or none.
pub open spec fn incidents_after(ends: Seq<EndView>, identity: IdentityView) -> Seq<
    Option<IncidentView>,
>
    decreases ends.len(),
{
    if ends.len() == 0 {
        Seq::empty()
    } else {
        let front = ends.drop_last();
        incidents_after(front, identity).push(
            end_step(times_after(front, identity), ends.last(), identity).1,
        )
    }
}

/// The number of incidents of a run of ends.
pub open spec fn incident_count(incidents: Seq<Option<IncidentView>>) -> nat
    decreases incidents.len(),
{
    if incidents.len() == 0 {
        0
    } else {
        incident_count(incidents.drop_last()) + if incidents.last() is Some {
            1nat
        } else {
            0
        }
    }
}

/// However often the monitor ends, each end is noted once, under its own reason, in the list that
/// the ends before it have left; and each incident has used up three ends.
pub proof fn lemma_every_end_is_noted(ends: Seq<EndView>, identity: IdentityView)
    ensures
        incidents_after(ends, identity).len() == ends.len(),
        forall|i: int|
            0 <= i < ends.len() ==> (
                times_after(ends.take(i + 1), identity),
                #[trigger] incidents_after(ends, identity)[i],
            ) == restart_step(
                times_after(ends.take(i), identity),
                restart_reason(ends[i].end, ends[i].detail),
                ends[i].stamp,
                identity,
            ),
        times_after(ends, identity).len() + 3 * incident_count(incidents_after(ends, identity))
            <= ends.len(),
    decreases ends.len(),
{
    if ends.len() > 0 {
        let front = ends.drop_last();
        let last = ends.last();
        let n = ends.len();
        let before = times_after(front, identity);
        let all = incidents_after(ends, identity);
        lemma_every_end_is_noted(front, identity);
        window::lemma_recent(before, last.stamp.millis, RESTART_SPAN_MS);
        assert(all.drop_last() == incidents_after(front, identity));
        assert forall|i: int| 0 <= i < n implies (
            times_after(ends.take(i + 1), identity),
            #[trigger] all[i],
        ) == restart_step(
            times_after(ends.take(i), identity),
            restart_reason(ends[i].end, ends[i].detail),
            ends[i].stamp,
            identity,
        ) by {
            if i < front.len() {
                assert(all[i] == incidents_after(front, identity)[i]);
                assert(front.take(i) == ends.take(i));
                assert(front.take(i + 1) == ends.take(i + 1));
            } else {
                assert(ends.take(i) == front);
                assert(ends.take(i + 1) == ends);
            }
        }
    }
}

/// After every restart fewer times than the limit are kept, so that each pile-up is reported once,
/// at the restart that completes it; what is reported belongs to the taxonomy.
pub proof fn lemma_restarts_reported_once(
    times: Seq<u128>,
    reason: Seq<char>,
    stamp: StampView,
    identity: IdentityView,
)
    ensures
        ({
            let (kept, incident) = restart_step(times, reason, stamp, identity);
            &&& kept.len() < RESTART_LIMIT
            &&& incident is Some ==> kept.len() == 0
            &&& incident matches Some(record) ==> incident::in_taxonomy(record)
            &&& times.len() < RESTART_LIMIT && incident is Some ==> incident->0.signature
                == restart_signature(RESTART_LIMIT as nat, reason)
        }),
{
    window::lemma_recent(times, stamp.millis, RESTART_SPAN_MS);
}

/// A restart is reported exactly when it and those in the 300 seconds before it are three or more.
pub proof fn lemma_restart_threshold(
    times: Seq<u128>,
    reason: Seq<char>,
    stamp: StampView,
    identity: IdentityView,
)
    ensures
        restart_step(times, reason, stamp, identity).1 is Some <==> window::recent(
            times,
            stamp.millis,
            RESTART_SPAN_MS,
        ).len() + 1 >= 3,
{
    window::lemma_recent(times, stamp.millis, RESTART_SPAN_MS);
}

} // verus!
