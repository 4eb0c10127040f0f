//! What holds of the tracker over one event and over many.

use vstd::prelude::*;

use crate::anomaly;
use crate::anomaly::AnomalyClockView;
use crate::incident;
use crate::incident::IdentityView;
use crate::snapshot;
use crate::snapshot::SnapshotView;
use crate::udev::UdevEventView;
use crate::usb_monitor;
use crate::usb_monitor::{DeviceAction, EventClockView, EventKind, Lifecycle, TrackerView, BURST_SPAN_MS};
use crate::usb_monitor::{FLAPPING_LIMIT, FLAPPING_SPAN_MS};
use crate::window;

verus! {

/// One step of the tracker: an event, the times at which it is taken in, and the device that is
/// looked at then, where there is one.
pub struct StepView {
    pub event: UdevEventView,
    pub burst_ms: u128,
    pub flap_ms: u128,
    pub snapshot: Option<SnapshotView>,
}

impl StepView {
    /// What the action of the event means for the device.
    pub open spec fn kind(self) -> EventKind {
        usb_monitor::kind_of(self.event.action())
    }
}

/// The tracker after one step.
pub open spec fn after_step(tracker: TrackerView, step: StepView) -> TrackerView {
    let taken = tracker.after_event(step.event, step.burst_ms, step.flap_ms);
    match step.snapshot {
        Some(snapshot) => taken.after_snapshot(snapshot),
        None => taken,
    }
}

/// The tracker after a run of steps.
pub open spec fn after_steps(tracker: TrackerView, steps: Seq<StepView>) -> TrackerView
    decreases steps.len(),
{
    if steps.len() == 0 {
        tracker
    } else {
        after_step(after_steps(tracker, steps.drop_last()), steps.last())
    }
}

/// The turn that step `i` of a run marks anew.
pub open spec fn turn_at(tracker: TrackerView, steps: Seq<StepView>, i: int) -> Option<Lifecycle> {
    after_steps(tracker, steps.take(i)).turn(steps[i].event)
}

/// Every step of a run is malformed or of the given kind.
pub open spec fn all_of_kind(steps: Seq<StepView>, kind: EventKind) -> bool {
    forall|i: int|
        0 <= i < steps.len() ==> (#[trigger] steps[i]).event.is_malformed() || steps[i].kind()
            == kind
}

/// Every tracker that steps lead to from a well-formed one is well-formed.
pub proof fn lemma_steps_keep_wf(tracker: TrackerView, steps: Seq<StepView>)
    requires
        tracker.wf(),
    ensures
        after_steps(tracker, steps).wf(),
    decreases steps.len(),
{
    if steps.len() > 0 {
        let front = after_steps(tracker, steps.drop_last());
        let last = steps.last();
        lemma_steps_keep_wf(tracker, steps.drop_last());
        usb_monitor::lemma_event_keeps_wf(front, last.event, last.burst_ms, last.flap_ms);
    }
}

/// A turn that is marked is remembered as the last one.
pub proof fn lemma_turn_is_remembered(tracker: TrackerView, step: StepView)
    ensures
        tracker.turn(step.event) is Some ==> after_step(tracker, step).last == tracker.turn(
            step.event,
        ),
        !step.event.is_malformed() && step.kind() !is Change ==> after_step(tracker, step).last
            == usb_monitor::turn_of(step.kind()),
{
}

/// Once a plug is reported, no further plug is until an unplug or a change comes between them; and
/// the same of unplugs.
pub proof fn lemma_turn_reported_once(tracker: TrackerView, steps: Seq<StepView>, kind: EventKind)
    requires
        kind !is Change,
        tracker.last == usb_monitor::turn_of(kind),
        all_of_kind(steps, kind),
    ensures
        after_steps(tracker, steps).last == usb_monitor::turn_of(kind),
        forall|i: int| 0 <= i < steps.len() ==> #[trigger] turn_at(tracker, steps, i) is None,
    decreases steps.len(),
{
    if steps.len() > 0 {
        let front = steps.drop_last();
        assert forall|i: int| 0 <= i < front.len() implies (#[trigger] front[i]).event.is_malformed()
            || front[i].kind() == kind by {
            assert(front[i] == steps[i]);
        }
        lemma_turn_reported_once(tracker, front, kind);
        assert forall|i: int| 0 <= i < steps.len() implies #[trigger] turn_at(tracker, steps, i)
            is None by {
            if i < front.len() {
                assert(front.take(i) == steps.take(i));
                assert(turn_at(tracker, front, i) is None);
            } else {
                assert(steps.take(i) == front);
            }
        }
    }
}

/// A change event makes the tracker forget the last turn: the plug or unplug that comes next is
/// reported anew.
pub proof fn lemma_change_reports_afresh(tracker: TrackerView, change: StepView, next: UdevEventView)
    requires
        !change.event.is_malformed(),
        change.kind() is Change,
        !next.is_malformed(),
    ensures
        after_step(tracker, change).turn(next) == usb_monitor::turn_of(
            usb_monitor::kind_of(next.action()),
        ),
{
}

/// A malformed event changes nothing, marks no turn, asks for nothing to be done, and makes one
/// incident, of type 15.
pub proof fn lemma_malformed_event(
    tracker: TrackerView,
    event: UdevEventView,
    clock: EventClockView,
    identity: IdentityView,
)
    requires
        event.is_malformed(),
    ensures
        tracker.after_event(event, clock.burst_ms, clock.flap_ms) == tracker,
        tracker.turn(event) is None,
        usb_monitor::actions_for(event, tracker.turn(event)).len() == 0,
        tracker.event_incidents(event, clock, identity).len() == 1,
        tracker.event_incidents(event, clock, identity)[0].incident_type_id == 15,
{
}

/// Every incident that an event makes belongs to the taxonomy; it is of type 1, 2, 7 or 16, or of
/// type 15 where the event is malformed.
pub proof fn lemma_event_incidents_in_taxonomy(
    tracker: TrackerView,
    event: UdevEventView,
    clock: EventClockView,
    identity: IdentityView,
)
    ensures
        incident::all_in_taxonomy(tracker.event_incidents(event, clock, identity)),
        forall|i: int|
            0 <= i < tracker.event_incidents(event, clock, identity).len() ==> {
                let id = (#[trigger] tracker.event_incidents(event, clock, identity)[i])
                    .incident_type_id;
                id == 1 || id == 2 || id == 7 || id == 16 || (id == 15 && event.is_malformed())
            },
{
}

/// The type of the incident of a turn.
pub open spec fn turn_type(turn: Lifecycle) -> u8 {
    match turn {
        Lifecycle::Connected => 1,
        Lifecycle::Disconnected => 2,
    }
}

/// The first plug of a cycle makes exactly one incident of type 1 and starts the watcher, the first
/// unplug exactly one of type 2 and stops it, whether or not a watcher runs; no other event makes
/// one of these.
pub proof fn lemma_turn_makes_one_incident(
    tracker: TrackerView,
    event: UdevEventView,
    clock: EventClockView,
    identity: IdentityView,
)
    ensures
        ({
            let incidents = tracker.event_incidents(event, clock, identity);
            let actions = usb_monitor::actions_for(event, tracker.turn(event));
            match tracker.turn(event) {
                Some(turn) => {
                    &&& incidents.len() > 0
                    &&& incidents.last() == usb_monitor::turn_incident(
                        event,
                        turn,
                        clock.turn,
                        identity,
                    )
                    &&& incidents.last().incident_type_id == turn_type(turn)
                    &&& incidents.last().severity == "low"@
                    &&& forall|i: int|
                        0 <= i < incidents.len() - 1 ==> (#[trigger] incidents[i]).incident_type_id
                            > 2
                    &&& actions.len() > 0
                    &&& actions[0] == if turn is Connected {
                        DeviceAction::StartWatcher
                    } else {
                        DeviceAction::StopWatcher
                    }
                },
                None => {
                    &&& forall|i: int|
                        0 <= i < incidents.len() ==> (#[trigger] incidents[i]).incident_type_id > 2
                    &&& !actions.contains(DeviceAction::StartWatcher)
                    &&& !actions.contains(DeviceAction::StopWatcher)
                },
            }
        }),
{
}

/// A run of plugs, all within ten seconds of the first.
pub open spec fn is_burst(steps: Seq<StepView>) -> bool {
    forall|i: int|
        0 <= i < steps.len() ==> {
            &&& !(#[trigger] steps[i]).event.is_malformed()
            &&& steps[i].kind() is Plug
            &&& window::in_window(steps[i].burst_ms, steps[0].burst_ms, BURST_SPAN_MS)
        }
}

/// In a run of plugs within ten seconds, with no burst under way before, each plug counts, and an
/// incident comes exactly once: at the twentieth.
pub proof fn lemma_burst_reported_once(tracker: TrackerView, steps: Seq<StepView>)
    requires
        is_burst(steps),
        steps.len() <= u32::MAX,
        steps.len() > 0 ==> !tracker.burst_open(steps[0].burst_ms),
    ensures
        steps.len() > 0 ==> {
            &&& after_steps(tracker, steps).burst_count == steps.len()
            &&& after_steps(tracker, steps).burst_start == Some(steps[0].burst_ms)
        },
        forall|i: int|
            0 <= i < steps.len() ==> (#[trigger] after_steps(tracker, steps.take(i)).bursts(
                steps[i].event,
                steps[i].burst_ms,
            ) <==> i + 1 == 20),
    decreases steps.len(),
{
    if steps.len() > 0 {
        let front = steps.drop_last();
        let last = steps.last();
        assert forall|i: int| 0 <= i < front.len() implies !(
        #[trigger] front[i]).event.is_malformed() && front[i].kind() is Plug && window::in_window(
            front[i].burst_ms,
            front[0].burst_ms,
            BURST_SPAN_MS,
        ) by {
            assert(front[i] == steps[i]);
            assert(front[0] == steps[0]);
        }
        lemma_burst_reported_once(tracker, front);
        let before = after_steps(tracker, front);
        if front.len() > 0 {
            assert(front[0] == steps[0]);
            assert(before.burst_open(last.burst_ms));
        } else {
            assert(before == tracker);
            assert(last == steps[0]);
        }
        assert forall|i: int| 0 <= i < steps.len() implies (#[trigger] after_steps(
            tracker,
            steps.take(i),
        ).bursts(steps[i].event, steps[i].burst_ms) <==> i + 1 == 20) by {
            if i < front.len() {
                assert(front.take(i) == steps.take(i));
                assert(front[i] == steps[i]);
            } else {
                assert(steps.take(i) == front);
            }
        }
    }
}

/// A disconnect ends the burst that is under way, and so does a change.
pub proof fn lemma_burst_ends(tracker: TrackerView, step: StepView)
    requires
        !step.event.is_malformed(),
        step.kind() is Change || tracker.turn(step.event) == Some(Lifecycle::Disconnected),
    ensures
        after_step(tracker, step).burst_count == 0,
        after_step(tracker, step).burst_start is None,
{
}

/// The recent turns of a device that are remembered.
pub open spec fn remembered_turns(tracker: TrackerView, key: Seq<char>, now: u128) -> nat {
    if tracker.history.contains_key(key) {
        window::recent(tracker.history[key], now, FLAPPING_SPAN_MS).len()
    } else {
        0
    }
}

/// A turn makes a device flap exactly when it is the fifth within 30 seconds, and then the turns
/// of that device are counted anew; those of all other devices stay as they are.
pub proof fn lemma_flapping(tracker: TrackerView, event: UdevEventView, burst_ms: u128, flap_ms: u128)
    requires
        tracker.wf(),
    ensures
        ({
            let key = snapshot::event_key(event);
            let after = tracker.after_event(event, burst_ms, flap_ms);
            &&& tracker.event_flaps(event, flap_ms) <==> tracker.turn(event) is Some && key is Some
                && remembered_turns(tracker, key->0, flap_ms) + 1 == 5
            &&& tracker.event_flaps(event, flap_ms) ==> after.history[key->0].len() == 0
            &&& tracker.turn(event) is Some && key is Some && !tracker.event_flaps(event, flap_ms)
                ==> after.history[key->0].len() == remembered_turns(tracker, key->0, flap_ms) + 1
            &&& forall|other: Seq<char>|
                Some(other) != key && tracker.history.contains_key(other) ==> (
                #[trigger] after.history[other]) == tracker.history[other]
        }),
{
    if let Some(key) = snapshot::event_key(event) {
        let before = if tracker.history.contains_key(key) {
            tracker.history[key]
        } else {
            Seq::empty()
        };
        window::lemma_recent(before, flap_ms, FLAPPING_SPAN_MS);
        if !tracker.history.contains_key(key) {
            assert(window::recent(before, flap_ms, FLAPPING_SPAN_MS).len() == 0);
        }
        assert(tracker.history_with(key, flap_ms).len() == remembered_turns(tracker, key, flap_ms)
            + 1);
        assert(tracker.history_with(key, flap_ms).len() <= FLAPPING_LIMIT);
    }
}

/// A device that is looked at is known from then on, as it was seen, unless it was unplugged: then
/// it is forgotten. What is known of other devices stays as it is.
pub proof fn lemma_known_devices(tracker: TrackerView, seen: SnapshotView)
    ensures
        ({
            let known = tracker.after_snapshot(seen).known;
            &&& usb_monitor::kind_of(seen.action) is Unplug <==> !known.contains_key(seen.key)
            &&& known.contains_key(seen.key) ==> known[seen.key] == seen
            &&& forall|key: Seq<char>|
                key != seen.key ==> (#[trigger] known.contains_key(key)
                    <==> tracker.known.contains_key(key))
            &&& forall|key: Seq<char>|
                key != seen.key && tracker.known.contains_key(key) ==> (#[trigger] known[key])
                    == tracker.known[key]
        }),
{
}

/// Anomalies are looked for on change events alone: where the device that is known under its key
/// looked different, or where the known device at its path had another serial number. All belong to
/// the taxonomy, with types 3 to 6.
pub proof fn lemma_anomalies_only_on_change(
    tracker: TrackerView,
    seen: SnapshotView,
    clock: AnomalyClockView,
    identity: IdentityView,
)
    ensures
        ({
            let incidents = tracker.snapshot_incidents(seen, clock, identity);
            let known = tracker.known[seen.key];
            let differs = tracker.known.contains_key(seen.key) && (anomaly::topology_changed(
                known,
                seen,
            ) || anomaly::class_changed(known, seen) || anomaly::serial_changed(known, seen)
                || anomaly::devpath_changed(known, seen));
            &&& incidents.len() > 0 <==> usb_monitor::kind_of(seen.action) is Change && (differs
                || tracker.former(seen) is Some)
            &&& incident::all_in_taxonomy(incidents)
            &&& forall|i: int|
                0 <= i < incidents.len() ==> 3 <= (#[trigger] incidents[i]).incident_type_id <= 6
        }),
{
    let known = tracker.known[seen.key];
    anomaly::lemma_anomalies(known, seen, clock, identity);
    anomaly::lemma_anomalies(SnapshotView { serial: seen.serial, ..known }, seen, clock, identity);
    if let Some(before) = tracker.former(seen) {
        anomaly::lemma_anomalies(before, seen, clock, identity);
    }
}

/// The steps leave the device `device` at its path, known as it was last seen: they look at other
/// devices at other paths, or at what lies on the path of the device itself, without unplugging it.
pub open spec fn leave_alone(steps: Seq<StepView>, device: SnapshotView) -> bool {
    forall|i: int|
        0 <= i < steps.len() && (#[trigger] steps[i]).snapshot is Some ==> {
            let seen = steps[i].snapshot->0;
            &&& seen.devpath != device.devpath
            &&& seen.key != device.key || (usb_monitor::kind_of(seen.action) !is Unplug
                && seen.serial == device.serial && usb_monitor::on_one_path(
                seen.devpath,
                device.devpath,
            ))
        }
}

/// A device that is left alone stays known at its path.
proof fn lemma_device_stays(tracker: TrackerView, steps: Seq<StepView>, device: SnapshotView)
    requires
        usb_monitor::kind_of(device.action) !is Unplug,
        leave_alone(steps, device),
    ensures
        ({
            let after = after_steps(tracker.after_snapshot(device), steps);
            &&& after.places.contains_key(device.devpath)
            &&& after.places[device.devpath] == device
            &&& after.known.contains_key(device.key)
            &&& after.known[device.key].serial == device.serial
            &&& usb_monitor::on_one_path(after.known[device.key].devpath, device.devpath)
        }),
    decreases steps.len(),
{
    if steps.len() > 0 {
        let front = steps.drop_last();
        assert forall|i: int| 0 <= i < front.len() && (#[trigger] front[i]).snapshot is Some implies {
            let seen = front[i].snapshot->0;
            &&& seen.devpath != device.devpath
            &&& seen.key != device.key || (usb_monitor::kind_of(seen.action) !is Unplug
                && seen.serial == device.serial && usb_monitor::on_one_path(
                seen.devpath,
                device.devpath,
            ))
        } by {
            assert(front[i] == steps[i]);
        }
        lemma_device_stays(tracker, front, device);
        assert(steps.last() == steps[steps.len() - 1]);
    }
}

/// A change event of a known device that has the vendor and the product that it had, but another
/// serial number, gives exactly one incident of type 5, from the serial number that it had; whatever
/// was seen of other devices in between, and whether or not a device is known under the new key. With
/// a new key, everything else that has changed about the device is reported too.
pub proof fn lemma_serial_change_is_reported(
    tracker: TrackerView,
    before: SnapshotView,
    steps: Seq<StepView>,
    now: SnapshotView,
    clock: AnomalyClockView,
    identity: IdentityView,
)
    requires
        usb_monitor::kind_of(before.action) !is Unplug,
        leave_alone(steps, before),
        usb_monitor::kind_of(now.action) is Change,
        now.devpath == before.devpath,
        before.vendor_id is Some,
        before.product_id is Some,
        now.vendor_id == before.vendor_id,
        now.product_id == before.product_id,
        now.serial != before.serial,
    ensures
        ({
            let incidents = after_steps(tracker.after_snapshot(before), steps).snapshot_incidents(
                now,
                clock,
                identity,
            );
            let change = anomaly::serial_incident(before.serial, now, clock.serial, identity);
            let changes = anomaly::anomalies(before, now, clock, identity);
            &&& change.incident_type_id == 5
            &&& change.severity == "critical"@
            &&& before.key != now.key ==> changes.len() <= incidents.len() && incidents.skip(
                incidents.len() - changes.len(),
            ) == changes
            &&& exists|at: int|
                {
                    &&& 0 <= at < incidents.len()
                    &&& #[trigger] incidents[at] == change
                    &&& forall|i: int|
                        0 <= i < incidents.len() && i != at ==> (
                        #[trigger] incidents[i]).incident_type_id != 5
                }
        }),
{
    lemma_device_stays(tracker, steps, before);
    let after = after_steps(tracker.after_snapshot(before), steps);
    let incidents = after.snapshot_incidents(now, clock, identity);
    let by_key = after.changes_by_key(now, clock, identity);
    if before.key == now.key {
        lemma_one_serial_change(after.known[now.key], now, clock, identity);
        assert(after.former(now) is None);
        assert(incidents == by_key);
    } else {
        assert(after.former(now) == Some(before));
        lemma_one_serial_change(before, now, clock, identity);
        let by_path = anomaly::anomalies(before, now, clock, identity);
        assert(incidents == by_key + by_path);
        assert(incidents.skip(by_key.len() as int) == by_path);
        let at = serial_place(before, now);
        assert(incidents[by_key.len() + at] == by_path[at]);
        assert forall|i: int| 0 <= i < incidents.len() && i != by_key.len() + at implies (
        #[trigger] incidents[i]).incident_type_id != 5 by {
            if i >= by_key.len() {
                assert(incidents[i] == by_path[i - by_key.len()]);
            } else {
                assert(incidents[i] == by_key[i]);
            }
        }
    }
}

/// Where the incident of a changed serial number stands among those of a comparison.
spec fn serial_place(before: SnapshotView, now: SnapshotView) -> int {
    (if anomaly::topology_changed(before, now) {
        1int
    } else {
        0
    }) + (if anomaly::class_changed(before, now) {
        1int
    } else {
        0
    })
}

/// A comparison gives one incident of a changed serial number, and of type 5, where it has changed.
proof fn lemma_one_serial_change(
    before: SnapshotView,
    now: SnapshotView,
    clock: AnomalyClockView,
    identity: IdentityView,
)
    requires
        anomaly::serial_changed(before, now),
    ensures
        ({
            let all = anomaly::anomalies(before, now, clock, identity);
            let at = serial_place(before, now);
            &&& 0 <= at < all.len()
            &&& all[at] == anomaly::serial_incident(before.serial, now, clock.serial, identity)
            &&& forall|i: int|
                0 <= i < all.len() && i != at ==> (#[trigger] all[i]).incident_type_id != 5
        }),
{
}

/// A device that is not known under its key gives no incident, unless the device at its very path
/// is known: devices at other paths are of no matter, even of the same vendor and product.
pub proof fn lemma_unknown_device_is_no_anomaly(
    tracker: TrackerView,
    seen: SnapshotView,
    clock: AnomalyClockView,
    identity: IdentityView,
)
    requires
        !tracker.known.contains_key(seen.key),
        tracker.places.contains_key(seen.devpath) ==> !tracker.known.contains_key(
            tracker.places[seen.devpath].key,
        ),
    ensures
        tracker.snapshot_incidents(seen, clock, identity).len() == 0,
{
}

/// A device that was just looked at and is looked at again, just as it was, gives no incident and
/// no further line.
pub proof fn lemma_same_device_again(
    tracker: TrackerView,
    seen: SnapshotView,
    again: SnapshotView,
    clock: AnomalyClockView,
    identity: IdentityView,
)
    requires
        usb_monitor::kind_of(seen.action) !is Unplug,
        again == (SnapshotView {
            timestamp_ms: again.timestamp_ms,
            action: again.action,
            ..seen
        }),
    ensures
        tracker.after_snapshot(seen).snapshot_incidents(again, clock, identity).len() == 0,
        tracker.after_snapshot(seen).snapshot_line(again) is None,
{
    anomaly::lemma_anomalies(seen, again, clock, identity);
}

} // verus!
