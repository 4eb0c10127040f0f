//! What holds of every event that the tracker takes in and of every device that it looks at.

use vstd::prelude::*;

use crate::anomaly;
use crate::anomaly::AnomalyClockView;
use crate::clock::StampView;
use crate::incident;
use crate::incident::IdentityView;
use crate::snapshot;
use crate::snapshot::SnapshotView;
use crate::text;
use crate::text_laws;
use crate::tracker_laws;
use crate::tracker_laws::StepView;
use crate::udev::UdevEventView;
use crate::usb_incidents;
use crate::usb_monitor;
use crate::usb_monitor::{DeviceAction, EventClock, EventClockView, EventKind, Lifecycle, SnapshotOutcome};
use crate::usb_monitor::{TrackerView, UdevOutcome};
use crate::window;

verus! {

/// A well-formed event by which a device comes: its action is `add` or `bind`.
pub open spec fn comes(event: UdevEventView) -> bool {
    !event.is_malformed() && (event.action() == "add"@ || event.action() == "bind"@)
}

/// A well-formed event by which a device goes: its action is `remove`, `detach` or `unbind`.
pub open spec fn goes(event: UdevEventView) -> bool {
    !event.is_malformed() && (event.action() == "remove"@ || event.action() == "detach"@
        || event.action() == "unbind"@)
}

/// A well-formed event by which a device neither comes nor goes.
pub open spec fn stays(event: UdevEventView) -> bool {
    !event.is_malformed() && !comes(event) && !goes(event)
}

/// The texts of the actions differ.
proof fn lemma_actions_differ()
    ensures
        "add"@ != "remove"@,
        "add"@ != "detach"@,
        "add"@ != "unbind"@,
        "bind"@ != "remove"@,
        "bind"@ != "detach"@,
        "bind"@ != "unbind"@,
{
    reveal_strlit("add");
    reveal_strlit("bind");
    reveal_strlit("remove");
    reveal_strlit("detach");
    reveal_strlit("unbind");
    assert("add"@.len() == 3 && "bind"@.len() == 4 && "remove"@.len() == 6);
    assert("detach"@.len() == 6 && "unbind"@.len() == 6);
}

/// No event is both the coming and the going of a device.
pub proof fn lemma_comes_or_goes(event: UdevEventView)
    ensures
        !(comes(event) && goes(event)),
{
    lemma_actions_differ();
}

/// An action is a plug exactly when it is `add` or `bind`, an unplug exactly when it is `remove`,
/// `detach` or `unbind`, and a change in every other case.
pub proof fn lemma_kinds(action: Seq<char>)
    ensures
        usb_monitor::kind_of(action) is Plug <==> action == "add"@ || action == "bind"@,
        usb_monitor::kind_of(action) is Unplug <==> action == "remove"@ || action == "detach"@
            || action == "unbind"@,
        usb_monitor::kind_of(action) is Change <==> action != "add"@ && action != "bind"@
            && action != "remove"@ && action != "detach"@ && action != "unbind"@,
        usb_monitor::turn_of(EventKind::Plug) == Some(Lifecycle::Connected),
        usb_monitor::turn_of(EventKind::Unplug) == Some(Lifecycle::Disconnected),
        usb_monitor::turn_of(EventKind::Change) is None,
{
    lemma_actions_differ();
}

/// A coming is a turn exactly when the last turn was not one, and a going exactly when the last
/// turn was not one, whatever else the tracker remembers; nothing else is a turn.
pub proof fn lemma_event_turn(tracker: TrackerView, event: UdevEventView)
    ensures
        comes(event) ==> tracker.turn(event) == if tracker.last == Some(Lifecycle::Connected) {
            None
        } else {
            Some(Lifecycle::Connected)
        },
        goes(event) ==> tracker.turn(event) == if tracker.last == Some(Lifecycle::Disconnected) {
            None
        } else {
            Some(Lifecycle::Disconnected)
        },
        !comes(event) && !goes(event) ==> tracker.turn(event) is None,
{
    lemma_actions_differ();
}

/// The last turn is that of the last coming or going; a change forgets it, and a malformed event
/// leaves it.
pub proof fn lemma_event_last(
    tracker: TrackerView,
    event: UdevEventView,
    burst_ms: u128,
    flap_ms: u128,
)
    ensures
        comes(event) ==> tracker.after_event(event, burst_ms, flap_ms).last == Some(
            Lifecycle::Connected,
        ),
        goes(event) ==> tracker.after_event(event, burst_ms, flap_ms).last == Some(
            Lifecycle::Disconnected,
        ),
        stays(event) ==> tracker.after_event(event, burst_ms, flap_ms).last is None,
        event.is_malformed() ==> tracker.after_event(event, burst_ms, flap_ms) == tracker,
{
    lemma_actions_differ();
}

/// An event is about the given turn: it is a coming, or a going.
pub open spec fn is_about(event: UdevEventView, turn: Lifecycle) -> bool {
    match turn {
        Lifecycle::Connected => comes(event),
        Lifecycle::Disconnected => goes(event),
    }
}

/// While no event is about a turn that the tracker has not reported last, that turn stays
/// unreported.
pub proof fn lemma_turn_stays_open(tracker: TrackerView, steps: Seq<StepView>, turn: Lifecycle)
    requires
        tracker.last != Some(turn),
        forall|i: int| 0 <= i < steps.len() ==> !is_about((#[trigger] steps[i]).event, turn),
    ensures
        tracker_laws::after_steps(tracker, steps).last != Some(turn),
    decreases steps.len(),
{
    if steps.len() > 0 {
        let front = steps.drop_last();
        let step = steps.last();
        assert forall|i: int| 0 <= i < front.len() implies !is_about(
            (#[trigger] front[i]).event,
            turn,
        ) by {
            assert(front[i] == steps[i]);
        }
        lemma_turn_stays_open(tracker, front, turn);
        lemma_event_last(
            tracker_laws::after_steps(tracker, front),
            step.event,
            step.burst_ms,
            step.flap_ms,
        );
        assert(!is_about(steps[steps.len() - 1].event, turn));
    }
}

/// The first going after a coming is reported, and the first coming after a going, however many
/// other events lie between them: a run begins with an event about the other turn, none of the
/// steps behind it is about this one, and the next one that is marks it.
pub proof fn lemma_first_turn_after_other(
    tracker: TrackerView,
    steps: Seq<StepView>,
    event: UdevEventView,
    turn: Lifecycle,
)
    requires
        steps.len() > 0,
        is_about(steps[0].event, Lifecycle::Connected) || is_about(
            steps[0].event,
            Lifecycle::Disconnected,
        ),
        forall|i: int| 0 <= i < steps.len() ==> !is_about((#[trigger] steps[i]).event, turn),
        is_about(event, turn),
    ensures
        tracker_laws::after_steps(tracker, steps).turn(event) == Some(turn),
{
    let head = steps.take(1);
    let tail = steps.skip(1);
    let started = tracker_laws::after_step(tracker, steps[0]);
    assert(!is_about(steps[0].event, turn));
    lemma_event_last(tracker, steps[0].event, steps[0].burst_ms, steps[0].flap_ms);
    assert(started.last != Some(turn));
    assert forall|i: int| 0 <= i < tail.len() implies !is_about((#[trigger] tail[i]).event, turn) by {
        assert(tail[i] == steps[i + 1]);
    }
    lemma_turn_stays_open(started, tail, turn);
    lemma_steps_split(tracker, steps);
    lemma_event_turn(tracker_laws::after_steps(tracker, steps), event);
}

/// A run of steps is its first step and then the others.
pub proof fn lemma_steps_split(tracker: TrackerView, steps: Seq<StepView>)
    requires
        steps.len() > 0,
    ensures
        tracker_laws::after_steps(tracker, steps) == tracker_laws::after_steps(
            tracker_laws::after_step(tracker, steps[0]),
            steps.skip(1),
        ),
    decreases steps.len(),
{
    if steps.len() == 1 {
        assert(steps.drop_last().len() == 0);
        assert(steps.skip(1).len() == 0);
        reveal_with_fuel(tracker_laws::after_steps, 2);
    } else {
        let front = steps.drop_last();
        lemma_steps_split(tracker, front);
        assert(front[0] == steps[0]);
        assert(front.skip(1) == steps.skip(1).drop_last());
        assert(steps.skip(1).last() == steps.last());
    }
}

/// A tracker that has seen nothing reports the first coming, and the first going.
pub proof fn lemma_blank_tracker(event: UdevEventView)
    ensures
        comes(event) ==> TrackerView::blank().turn(event) == Some(Lifecycle::Connected),
        goes(event) ==> TrackerView::blank().turn(event) == Some(Lifecycle::Disconnected),
        TrackerView::blank().last is None,
        TrackerView::blank().burst_count == 0,
        TrackerView::blank().burst_start is None,
        forall|key: Seq<char>| !#[trigger] TrackerView::blank().known.contains_key(key),
        forall|path: Seq<char>| !#[trigger] TrackerView::blank().places.contains_key(path),
        forall|path: Seq<char>| !#[trigger] TrackerView::blank().seen.contains(path),
        forall|key: Seq<char>| !#[trigger] TrackerView::blank().history.contains_key(key),
{
    lemma_actions_differ();
}

/// A tracker is well-formed exactly when fewer than five turns are noted of each device, and each
/// snapshot is kept under its own key.
pub proof fn lemma_well_formed(tracker: TrackerView)
    ensures
        tracker.wf() <==> {
            &&& forall|key: Seq<char>|
                tracker.history.contains_key(key) ==> (#[trigger] tracker.history[key]).len() < 5
            &&& forall|key: Seq<char>|
                tracker.known.contains_key(key) ==> (#[trigger] tracker.known[key]).key == key
        },
{
}

/// A burst that began at `start` goes on at `now`: no more than ten seconds lie between them.
pub open spec fn burst_goes_on(tracker: TrackerView, now: u128) -> bool {
    tracker.burst_start matches Some(start) && (start >= now || now - start <= 10_000)
}

/// A coming adds one to a burst that goes on, and begins one otherwise; a going that is a turn ends
/// it, and so does a change; every other event leaves it.
pub proof fn lemma_event_burst(
    tracker: TrackerView,
    event: UdevEventView,
    burst_ms: u128,
    flap_ms: u128,
)
    requires
        !tracker.burst_full_at(event, burst_ms),
    ensures
        ({
            let after = tracker.after_event(event, burst_ms, flap_ms);
            &&& comes(event) && burst_goes_on(tracker, burst_ms) ==> after.burst_count
                == tracker.burst_count + 1 && after.burst_start == tracker.burst_start
            &&& comes(event) && !burst_goes_on(tracker, burst_ms) ==> after.burst_count == 1
                && after.burst_start == Some(burst_ms)
            &&& goes(event) && tracker.last != Some(Lifecycle::Disconnected)
                ==> after.burst_count == 0 && after.burst_start is None
            &&& goes(event) && tracker.last == Some(Lifecycle::Disconnected)
                ==> after.burst_count == tracker.burst_count && after.burst_start
                == tracker.burst_start
            &&& stays(event) ==> after.burst_count == 0 && after.burst_start is None
        }),
{
    lemma_actions_differ();
}

/// A well-formed event makes a burst incident exactly when it is the coming of the twentieth
/// sub-device of a burst that goes on.
pub proof fn lemma_burst_at_twenty(tracker: TrackerView, event: UdevEventView, burst_ms: u128)
    requires
        !event.is_malformed(),
        !tracker.burst_full_at(event, burst_ms),
    ensures
        tracker.bursts(event, burst_ms) <==> comes(event) && burst_goes_on(tracker, burst_ms)
            && tracker.burst_count == 19,
{
    lemma_actions_differ();
}

/// A burst is full exactly when one more coming would bring its count over what 32 bits hold.
pub proof fn lemma_burst_full(tracker: TrackerView, event: UdevEventView, burst_ms: u128)
    ensures
        tracker.burst_full_at(event, burst_ms) <==> comes(event) && burst_goes_on(
            tracker,
            burst_ms,
        ) && tracker.burst_count == 0xffff_ffff,
        tracker.burst_full(event) <==> comes(event) && tracker.burst_start is Some
            && tracker.burst_count == 0xffff_ffff,
{
    lemma_actions_differ();
}

/// The turns of a device in the last thirty seconds, with one more now.
pub open spec fn turns_with(tracker: TrackerView, key: Seq<char>, now: u128) -> Seq<u128> {
    let before = if tracker.history.contains_key(key) {
        tracker.history[key]
    } else {
        Seq::empty()
    };
    window::recent(before.push(now), now, 30_000)
}

/// A turn is noted of the device that the event names and of no other; the note is emptied once it
/// holds five turns. An event that is no turn, or names no device, notes nothing.
pub proof fn lemma_event_history(
    tracker: TrackerView,
    event: UdevEventView,
    burst_ms: u128,
    flap_ms: u128,
)
    ensures
        ({
            let after = tracker.after_event(event, burst_ms, flap_ms);
            &&& tracker.turn(event) is None ==> after.history == tracker.history
            &&& snapshot::event_key(event) is None ==> after.history == tracker.history
            &&& forall|other: Seq<char>|
                snapshot::event_key(event) != Some(other) ==> {
                    &&& (#[trigger] after.history.contains_key(other))
                        == tracker.history.contains_key(other)
                    &&& after.history[other] == tracker.history[other]
                }
            &&& tracker.turn(event) is Some && snapshot::event_key(event) is Some ==> {
                let key = snapshot::event_key(event)->0;
                let turns = turns_with(tracker, key, flap_ms);
                &&& after.history.contains_key(key)
                &&& turns.len() < 5 ==> after.history[key] == turns
                &&& turns.len() >= 5 ==> after.history[key].len() == 0
            }
        }),
{
    lemma_actions_differ();
}

/// An event makes a flapping incident exactly when it is a turn of a device that it names, and the
/// fifth or a later one within thirty seconds.
pub proof fn lemma_flapping_at_five(tracker: TrackerView, event: UdevEventView, flap_ms: u128)
    ensures
        tracker.event_flaps(event, flap_ms) <==> {
            &&& tracker.turn(event) is Some
            &&& snapshot::event_key(event) is Some
            &&& turns_with(tracker, snapshot::event_key(event)->0, flap_ms).len() >= 5
        },
{
}

/// An event changes nothing of what is known of devices; a turn and a change forget which paths
/// were logged, and no other event does.
pub proof fn lemma_event_devices(
    tracker: TrackerView,
    event: UdevEventView,
    burst_ms: u128,
    flap_ms: u128,
)
    ensures
        ({
            let after = tracker.after_event(event, burst_ms, flap_ms);
            &&& after.known == tracker.known
            &&& after.places == tracker.places
            &&& tracker.turn(event) is Some || stays(event) ==> forall|path: Seq<char>| !#[trigger]
                after.seen.contains(path)
            &&& tracker.turn(event) is None && !stays(event) ==> after.seen == tracker.seen
        }),
{
    lemma_actions_differ();
}

/// A well-formed event makes at most three incidents, in this order: one of a burst, one of a
/// flapping device, one of a turn.
pub proof fn lemma_event_incidents(
    tracker: TrackerView,
    event: UdevEventView,
    clock: EventClockView,
    identity: IdentityView,
)
    requires
        !event.is_malformed(),
    ensures
        ({
            let incidents = tracker.event_incidents(event, clock, identity);
            let burst = if tracker.bursts(event, clock.burst_ms) {
                1int
            } else {
                0
            };
            let flap = if tracker.event_flaps(event, clock.flap_ms) {
                1int
            } else {
                0
            };
            let turn = if tracker.turn(event) is Some {
                1int
            } else {
                0
            };
            &&& incidents.len() == burst + flap + turn
            &&& burst == 1 ==> incidents[0] == usb_incidents::burst_incident(
                event,
                20,
                clock.burst,
                identity,
            )
            &&& flap == 1 ==> incidents[burst] == usb_incidents::flapping_incident(
                event,
                snapshot::event_key(event)->0,
                5,
                clock.flap,
                identity,
            )
            &&& tracker.turn(event) == Some(Lifecycle::Connected) ==> incidents[burst + flap]
                == usb_incidents::lifecycle_incident(
                event,
                1,
                "connected"@,
                "low"@,
                "watcher_started"@,
                clock.turn,
                identity,
            )
            &&& tracker.turn(event) == Some(Lifecycle::Disconnected) ==> incidents[burst + flap]
                == usb_incidents::lifecycle_incident(
                event,
                2,
                "disconnected"@,
                "low"@,
                "watcher_stopped"@,
                clock.turn,
                identity,
            )
        }),
{
}

/// A plug is reported as connected, with the watcher started, and an unplug as disconnected, with
/// the watcher stopped.
pub proof fn lemma_turn_incident(event: UdevEventView, stamp: StampView, identity: IdentityView)
    ensures
        usb_monitor::turn_incident(event, Lifecycle::Connected, stamp, identity)
            == usb_incidents::lifecycle_incident(
            event,
            1,
            "connected"@,
            "low"@,
            "watcher_started"@,
            stamp,
            identity,
        ),
        usb_monitor::turn_incident(event, Lifecycle::Disconnected, stamp, identity)
            == usb_incidents::lifecycle_incident(
            event,
            2,
            "disconnected"@,
            "low"@,
            "watcher_stopped"@,
            stamp,
            identity,
        ),
{
}

/// A malformed event makes one incident, which quotes its header, or `unknown` where it has none.
pub proof fn lemma_malformed_incident(
    tracker: TrackerView,
    event: UdevEventView,
    clock: EventClockView,
    identity: IdentityView,
)
    requires
        event.is_malformed(),
    ensures
        tracker.event_incidents(event, clock, identity) == seq![
            usb_incidents::malformed_incident(
                event,
                "malformed udev event: header="@ + text::str_debug(
                    match event.header {
                        Some(header) => header,
                        None => "unknown"@,
                    },
                ) + ", no action or devpath resolved"@,
                clock.malformed,
                identity,
            ),
        ],
{
}

/// At a plug the watcher starts and the class is checked, at an unplug the watcher stops, and a
/// device is looked at last, exactly when the event names its path.
pub proof fn lemma_actions(event: UdevEventView, turn: Option<Lifecycle>)
    ensures
        ({
            let actions = usb_monitor::actions_for(event, turn);
            let named = event.properties.contains_key("DEVPATH"@);
            &&& turn == Some(Lifecycle::Connected) && named ==> actions == seq![
                DeviceAction::StartWatcher,
                DeviceAction::CheckClass,
                DeviceAction::LookAtDevice,
            ]
            &&& turn == Some(Lifecycle::Connected) && !named ==> actions == seq![
                DeviceAction::StartWatcher,
                DeviceAction::CheckClass,
            ]
            &&& turn == Some(Lifecycle::Disconnected) && named ==> actions == seq![
                DeviceAction::StopWatcher,
                DeviceAction::LookAtDevice,
            ]
            &&& turn == Some(Lifecycle::Disconnected) && !named ==> actions == seq![
                DeviceAction::StopWatcher,
            ]
            &&& turn is None && named ==> actions == seq![DeviceAction::LookAtDevice]
            &&& turn is None && !named ==> actions.len() == 0
        }),
{
}

/// What an event asks for is what the tracker makes of it: its turn, what is to be done about it,
/// and its incidents.
pub proof fn lemma_event_takes(
    before: TrackerView,
    event: UdevEventView,
    clock: EventClockView,
    identity: IdentityView,
    after: TrackerView,
    outcome: UdevOutcome,
)
    requires
        usb_monitor::event_takes(before, event, clock, identity, after, outcome),
    ensures
        after == before.after_event(event, clock.burst_ms, clock.flap_ms),
        outcome.turn == before.turn(event),
        outcome.actions@ == usb_monitor::actions_for(event, before.turn(event)),
        outcome.incidents@.len() == before.event_incidents(event, clock, identity).len(),
        forall|i: int|
            0 <= i < outcome.incidents@.len() ==> (#[trigger] outcome.incidents@[i])@
                == before.event_incidents(event, clock, identity)[i],
{
    let incidents = before.event_incidents(event, clock, identity);
    assert forall|i: int| 0 <= i < outcome.incidents@.len() implies (
    #[trigger] outcome.incidents@[i])@ == incidents[i] by {
        assert(incident::record_views(outcome.incidents@)[i] == incidents[i]);
    }
}

/// A device that was looked at is remembered by its key and by its path, and forgotten under both
/// once it is unplugged; no other device is touched, and nothing else changes but that its path
/// counts as logged.
pub proof fn lemma_after_snapshot(tracker: TrackerView, seen: SnapshotView)
    ensures
        ({
            let after = tracker.after_snapshot(seen);
            let gone = seen.action == "remove"@ || seen.action == "detach"@ || seen.action
                == "unbind"@;
            &&& gone ==> !after.known.contains_key(seen.key) && !after.places.contains_key(
                seen.devpath,
            )
            &&& !gone ==> after.known.contains_key(seen.key) && after.known[seen.key] == seen
            &&& !gone ==> after.places.contains_key(seen.devpath) && after.places[seen.devpath]
                == seen
            &&& forall|key: Seq<char>|
                key != seen.key ==> (#[trigger] after.known.contains_key(key))
                    == tracker.known.contains_key(key) && after.known[key] == tracker.known[key]
            &&& forall|path: Seq<char>|
                path != seen.devpath ==> (#[trigger] after.places.contains_key(path))
                    == tracker.places.contains_key(path) && after.places[path]
                    == tracker.places[path]
            &&& forall|path: Seq<char>| #[trigger]
                after.seen.contains(path) <==> path == seen.devpath || tracker.seen.contains(path)
            &&& after.last == tracker.last
            &&& after.history == tracker.history
            &&& after.burst_count == tracker.burst_count
            &&& after.burst_start == tracker.burst_start
        }),
{
    lemma_actions_differ();
}

/// Two paths are of one device exactly when they are the same, or one goes on behind the other with
/// a slash.
pub proof fn lemma_one_path(a: Seq<char>, b: Seq<char>)
    ensures
        usb_monitor::on_one_path(a, b) <==> {
            ||| a == b
            ||| a.len() > b.len() && a.take(b.len() as int) == b && a[b.len() as int] == '/'
            ||| b.len() > a.len() && b.take(a.len() as int) == a && b[a.len() as int] == '/'
        },
{
    lemma_below(a, b);
    lemma_below(b, a);
}

/// A path lies below another exactly when it goes on behind it with a slash.
pub proof fn lemma_below(path: Seq<char>, device: Seq<char>)
    ensures
        usb_monitor::lies_below(path, device) <==> path.len() > device.len() && path.take(
            device.len() as int,
        ) == device && path[device.len() as int] == '/',
{
    let front = device.push('/');
    if usb_monitor::lies_below(path, device) {
        text_laws::lemma_prefix(path, front);
        assert(path.take(front.len() as int) == front);
        assert(path.take(device.len() as int) == front.take(device.len() as int));
        assert(front.take(device.len() as int) == device);
        assert(path[device.len() as int] == front[device.len() as int]);
    }
    if path.len() > device.len() && path.take(device.len() as int) == device
        && path[device.len() as int] == '/' {
        assert(path.take(front.len() as int) == front) by {
            assert forall|i: int| 0 <= i < front.len() implies path[i] == front[i] by {
                if i < device.len() {
                    assert(path.take(device.len() as int)[i] == device[i]);
                }
            }
        }
        text_laws::lemma_prefix(path, front);
    }
}

/// The device that was at a path is a former self of the one seen there exactly when it has another
/// key and another serial number, the same vendor and product, both of them told, and is still known
/// by its key, on the same path.
pub proof fn lemma_former(tracker: TrackerView, seen: SnapshotView)
    ensures
        tracker.former(seen) is Some <==> {
            &&& tracker.places.contains_key(seen.devpath)
            &&& tracker.places[seen.devpath].key != seen.key
            &&& tracker.places[seen.devpath].vendor_id is Some
            &&& tracker.places[seen.devpath].vendor_id == seen.vendor_id
            &&& tracker.places[seen.devpath].product_id is Some
            &&& tracker.places[seen.devpath].product_id == seen.product_id
            &&& tracker.places[seen.devpath].serial != seen.serial
            &&& tracker.known.contains_key(tracker.places[seen.devpath].key)
            &&& usb_monitor::on_one_path(
                tracker.known[tracker.places[seen.devpath].key].devpath,
                seen.devpath,
            )
        },
        tracker.former(seen) is Some ==> tracker.former(seen) == Some(
            tracker.places[seen.devpath],
        ),
{
}

/// A device is compared on change events alone: first with what is known under its key, then with
/// its former self at its path. Where there is a former self, its serial number is left out of the
/// first comparison.
pub proof fn lemma_comparisons(
    tracker: TrackerView,
    seen: SnapshotView,
    clock: AnomalyClockView,
    identity: IdentityView,
)
    ensures
        ({
            let incidents = tracker.snapshot_incidents(seen, clock, identity);
            let moved = seen.action == "add"@ || seen.action == "bind"@ || seen.action == "remove"@
                || seen.action == "detach"@ || seen.action == "unbind"@;
            let known = tracker.known[seen.key];
            let is_known = tracker.known.contains_key(seen.key);
            &&& moved ==> incidents.len() == 0
            &&& !is_known && tracker.former(seen) is None ==> incidents.len() == 0
            &&& !moved && is_known && tracker.former(seen) is None ==> incidents
                == anomaly::anomalies(known, seen, clock, identity)
            &&& !moved && !is_known && tracker.former(seen) is Some ==> incidents
                == anomaly::anomalies(tracker.places[seen.devpath], seen, clock, identity)
            &&& !moved && is_known && tracker.former(seen) is Some ==> incidents
                == anomaly::anomalies(
                (SnapshotView { serial: seen.serial, ..known }),
                seen,
                clock,
                identity,
            ) + anomaly::anomalies(tracker.places[seen.devpath], seen, clock, identity)
        }),
{
    lemma_actions_differ();
}

/// A device is logged exactly when its path was not logged since the last turn.
pub proof fn lemma_logged_once(tracker: TrackerView, seen: SnapshotView)
    ensures
        tracker.seen.contains(seen.devpath) ==> tracker.snapshot_line(seen) is None,
        !tracker.seen.contains(seen.devpath) ==> tracker.snapshot_line(seen) == Some(
            snapshot::diagnostic_line(seen),
        ),
        tracker.after_snapshot(seen).snapshot_line(seen) is None,
{
}

/// What a look at a device asks for is what the tracker makes of it.
pub proof fn lemma_snapshot_takes(
    before: TrackerView,
    seen: SnapshotView,
    clock: AnomalyClockView,
    identity: IdentityView,
    after: TrackerView,
    outcome: SnapshotOutcome,
)
    requires
        usb_monitor::snapshot_takes(before, seen, clock, identity, after, outcome),
    ensures
        after == before.after_snapshot(seen),
        outcome.diagnostic is Some <==> !before.seen.contains(seen.devpath),
        outcome.diagnostic matches Some(line) ==> line@ == snapshot::diagnostic_line(seen),
        outcome.incidents@.len() == before.snapshot_incidents(seen, clock, identity).len(),
        forall|i: int|
            0 <= i < outcome.incidents@.len() ==> (#[trigger] outcome.incidents@[i])@
                == before.snapshot_incidents(seen, clock, identity)[i],
{
    let incidents = before.snapshot_incidents(seen, clock, identity);
    assert forall|i: int| 0 <= i < outcome.incidents@.len() implies (
    #[trigger] outcome.incidents@[i])@ == incidents[i] by {
        assert(incident::record_views(outcome.incidents@)[i] == incidents[i]);
    }
}

/// The readings of a clock stand each in its own place.
pub proof fn lemma_event_clock(clock: EventClock)
    ensures
        clock@.malformed == clock.malformed@,
        clock@.burst_ms == clock.burst_ms,
        clock@.burst == clock.burst@,
        clock@.flap_ms == clock.flap_ms,
        clock@.flap == clock.flap@,
        clock@.turn == clock.turn@,
{
}

} // verus!
