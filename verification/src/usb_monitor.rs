//! What the sensor remembers of USB devices, and what it makes of an event.

use vstd::hash_map::StringHashMap;
use vstd::hash_set::StringHashSet;
use vstd::prelude::*;

use crate::anomaly;
use crate::anomaly::{find_anomalies, same_option, AnomalyClock, AnomalyClockView};
use crate::clock::{current_timestamp_ms, ClockReading, Stamp, StampView};
use crate::incident;
use crate::incident::{IdentityView, IncidentRecord, IncidentView, SensorIdentity};
use crate::snapshot;
use crate::snapshot::{derive_key_from_event, duplicate, log_usb_event, DeviceSnapshot, SnapshotView};
use crate::text;
use crate::text::{same_text, starts_with};
use crate::udev::{UdevEvent, UdevEventView};
use crate::usb_incidents;
use crate::usb_incidents::{log_enum_burst, log_flapping, log_malformed_event, log_usb_lifecycle_event};
use crate::window;
use crate::window::{note_time, within};

verus! {

/// How long an enumeration burst may last, in milliseconds.
pub const BURST_SPAN_MS: u128 = 10_000;

/// How many sub-devices within the span make an incident.
pub const BURST_LIMIT: u32 = 20;

/// How far back connects and disconnects of a device count, in milliseconds.
pub const FLAPPING_SPAN_MS: u128 = 30_000;

/// How many connects and disconnects within the span make an incident.
pub const FLAPPING_LIMIT: usize = 5;

/// What an action means for the device: it comes, it goes, or something else about it changes.
#[derive(Debug, Clone, Copy, PartialEq, Eq, Structural)]
pub enum EventKind {
    Plug,
    Unplug,
    Change,
}

/// The two turns in the life of a device that are reported once each.
#[derive(Debug, Clone, Copy, PartialEq, Eq, Structural)]
pub enum Lifecycle {
    Connected,
    Disconnected,
}

/// What an action means for the device.
pub open spec fn kind_of(action: Seq<char>) -> EventKind {
    if action == "add"@ || action == "bind"@ {
        EventKind::Plug
    } else if action == "remove"@ || action == "detach"@ || action == "unbind"@ {
        EventKind::Unplug
    } else {
        EventKind::Change
    }
}

/// What an action means for the device.
pub fn classify(action: &str) -> (kind: EventKind)
    ensures
        kind == kind_of(action@),
{
    if same_text(action, "add") || same_text(action, "bind") {
        EventKind::Plug
    } else if same_text(action, "remove") || same_text(action, "detach") || same_text(
        action,
        "unbind",
    ) {
        EventKind::Unplug
    } else {
        EventKind::Change
    }
}

/// The turn that a kind of event marks.
pub open spec fn turn_of(kind: EventKind) -> Option<Lifecycle> {
    match kind {
        EventKind::Plug => Some(Lifecycle::Connected),
        EventKind::Unplug => Some(Lifecycle::Disconnected),
        EventKind::Change => None,
    }
}

/// `path` lies below `device`.
pub open spec fn lies_below(path: Seq<char>, device: Seq<char>) -> bool {
    text::has_prefix(path, device.push('/'))
}

/// Two paths belong to one device: they are the same, or one lies below the other, as the paths of
/// the interfaces of a device lie below its own.
pub open spec fn on_one_path(a: Seq<char>, b: Seq<char>) -> bool {
    a == b || lies_below(a, b) || lies_below(b, a)
}

/// Whether `path` lies below `device`.
fn is_below(path: &str, device: &str) -> (result: bool)
    ensures
        result == lies_below(path@, device@),
{
    let mut directory = device.to_owned();
    directory.push('/');
    starts_with(path, directory.as_str())
}

/// Whether two paths belong to one device.
pub fn share_path(a: &str, b: &str) -> (result: bool)
    ensures
        result == on_one_path(a@, b@),
{
    same_text(a, b) || is_below(a, b) || is_below(b, a)
}

/// What the sensor remembers of USB devices.
pub struct DeviceTracker {
    /// The last snapshot of each device that is plugged in, by its key.
    known_devices: StringHashMap<DeviceSnapshot>,
    /// For each device path, the snapshot of the device that was last seen there.
    places: StringHashMap<DeviceSnapshot>,
    /// The last turn that was reported.
    last_lifecycle: Option<Lifecycle>,
    /// The device paths that were logged since the last turn.
    seen_devpaths: StringHashSet,
    /// For each device key, when it was connected or disconnected of late.
    connect_history: StringHashMap<Vec<u128>>,
    /// The number of sub-devices in the current burst.
    enum_burst_count: u32,
    /// When the current burst began.
    enum_burst_start_ms: Option<u128>,
}

/// The contents of a [`DeviceTracker`].
#[verifier::ext_equal]
pub struct TrackerView {
    pub known: Map<Seq<char>, SnapshotView>,
    pub places: Map<Seq<char>, SnapshotView>,
    pub last: Option<Lifecycle>,
    pub seen: Set<Seq<char>>,
    pub history: Map<Seq<char>, Seq<u128>>,
    pub burst_count: u32,
    pub burst_start: Option<u128>,
}

impl View for DeviceTracker {
    type V = TrackerView;

    closed spec fn view(&self) -> TrackerView {
        TrackerView {
            known: self.known_devices@.map_values(|s: DeviceSnapshot| s@),
            places: self.places@.map_values(|s: DeviceSnapshot| s@),
            last: self.last_lifecycle,
            seen: self.seen_devpaths@,
            history: self.connect_history@.map_values(|times: Vec<u128>| times@),
            burst_count: self.enum_burst_count,
            burst_start: self.enum_burst_start_ms,
        }
    }
}

impl TrackerView {
    /// A tracker that has seen nothing.
    pub open spec fn blank() -> TrackerView {
        TrackerView {
            known: Map::empty(),
            places: Map::empty(),
            last: None,
            seen: Set::empty(),
            history: Map::empty(),
            burst_count: 0,
            burst_start: None,
        }
    }

    /// No history is long enough to be reported, and every snapshot is kept under its own key.
    pub open spec fn wf(self) -> bool {
        &&& forall|key: Seq<char>|
            self.history.contains_key(key) ==> (#[trigger] self.history[key]).len() < FLAPPING_LIMIT
        &&& forall|key: Seq<char>|
            self.known.contains_key(key) ==> (#[trigger] self.known[key]).key == key
    }

    /// The tracker once a change event has made it forget what was reported last.
    pub open spec fn after_reset(self, kind: EventKind) -> TrackerView {
        if kind is Change {
            TrackerView {
                last: None,
                seen: Set::empty(),
                burst_count: 0,
                burst_start: None,
                ..self
            }
        } else {
            self
        }
    }

    /// A burst is under way at the time `now`.
    pub open spec fn burst_open(self, now: u128) -> bool {
        self.burst_start matches Some(start) && window::in_window(now, start, BURST_SPAN_MS)
    }

    /// The tracker once a sub-device is counted.
    pub open spec fn after_burst(self, kind: EventKind, now: u128) -> TrackerView {
        if kind is Plug {
            if self.burst_open(now) {
                TrackerView { burst_count: (self.burst_count + 1) as u32, ..self }
            } else {
                TrackerView { burst_count: 1, burst_start: Some(now), ..self }
            }
        } else {
            self
        }
    }

    /// The turn that an event of this kind marks, unless it was reported already.
    pub open spec fn new_turn(self, kind: EventKind) -> Option<Lifecycle> {
        if turn_of(kind) is Some && self.last != turn_of(kind) {
            turn_of(kind)
        } else {
            None
        }
    }

    /// The recent connects and disconnects of a device, with one more at the time `now`.
    pub open spec fn history_with(self, key: Seq<char>, now: u128) -> Seq<u128> {
        let before = if self.history.contains_key(key) {
            self.history[key]
        } else {
            Seq::empty()
        };
        window::recent(before.push(now), now, FLAPPING_SPAN_MS)
    }

    /// One more connect or disconnect of the device makes a flapping incident.
    pub open spec fn flaps(self, key: Seq<char>, now: u128) -> bool {
        self.history_with(key, now).len() >= FLAPPING_LIMIT
    }

    /// The tracker once a turn is reported.
    pub open spec fn after_turn(
        self,
        turn: Lifecycle,
        key: Option<Seq<char>>,
        now: u128,
    ) -> TrackerView {
        let history = match key {
            Some(k) => self.history.insert(
                k,
                if self.flaps(k, now) {
                    Seq::empty()
                } else {
                    self.history_with(k, now)
                },
            ),
            None => self.history,
        };
        let begun = TrackerView { last: Some(turn), seen: Set::empty(), history, ..self };
        if turn is Disconnected {
            TrackerView { burst_count: 0, burst_start: None, ..begun }
        } else {
            begun
        }
    }

    /// The tracker once an event is taken in, before the device itself is looked at.
    pub open spec fn after_event(self, event: UdevEventView, burst_ms: u128, flap_ms: u128) -> TrackerView {
        if event.is_malformed() {
            self
        } else {
            let kind = kind_of(event.action());
            let counted = self.after_reset(kind).after_burst(kind, burst_ms);
            match counted.new_turn(kind) {
                Some(turn) => counted.after_turn(turn, snapshot::event_key(event), flap_ms),
                None => counted,
            }
        }
    }

    /// The event makes an enumeration burst incident.
    pub open spec fn bursts(self, event: UdevEventView, burst_ms: u128) -> bool {
        let kind = kind_of(event.action());
        kind is Plug && self.after_reset(kind).after_burst(kind, burst_ms).burst_count
            == BURST_LIMIT
    }

    /// The turn that the event marks anew.
    pub open spec fn turn(self, event: UdevEventView) -> Option<Lifecycle> {
        let kind = kind_of(event.action());
        if event.is_malformed() {
            None
        } else {
            self.after_reset(kind).new_turn(kind)
        }
    }

    /// The event makes a flapping incident.
    pub open spec fn event_flaps(self, event: UdevEventView, flap_ms: u128) -> bool {
        &&& self.turn(event) is Some
        &&& snapshot::event_key(event) is Some
        &&& self.flaps(snapshot::event_key(event)->0, flap_ms)
    }

    /// The incidents that an event makes before the device itself is looked at.
    pub open spec fn event_incidents(
        self,
        event: UdevEventView,
        clock: EventClockView,
        identity: IdentityView,
    ) -> Seq<IncidentView> {
        if event.is_malformed() {
            seq![
                usb_incidents::malformed_incident(
                    event,
                    usb_incidents::malformed_signature(
                        text::str_debug(usb_incidents::header_or_unknown(event)),
                    ),
                    clock.malformed,
                    identity,
                ),
            ]
        } else {
            anomaly::if_so(
                self.bursts(event, clock.burst_ms),
                usb_incidents::burst_incident(event, BURST_LIMIT, clock.burst, identity),
            ) + anomaly::if_so(
                self.event_flaps(event, clock.flap_ms),
                usb_incidents::flapping_incident(
                    event,
                    snapshot::event_key(event)->0,
                    FLAPPING_LIMIT as u32,
                    clock.flap,
                    identity,
                ),
            ) + anomaly::if_so(
                self.turn(event) is Some,
                turn_incident(event, self.turn(event)->0, clock.turn, identity),
            )
        }
    }

    /// At the time `burst_ms` the event asks for a count of sub-devices that 32 bits cannot hold.
    pub open spec fn burst_full_at(self, event: UdevEventView, burst_ms: u128) -> bool {
        &&& !event.is_malformed()
        &&& kind_of(event.action()) is Plug
        &&& self.burst_open(burst_ms)
        &&& self.burst_count == u32::MAX
    }

    /// At some time the event asks for a count of sub-devices that 32 bits cannot hold.
    pub open spec fn burst_full(self, event: UdevEventView) -> bool {
        &&& !event.is_malformed()
        &&& kind_of(event.action()) is Plug
        &&& self.burst_start is Some
        &&& self.burst_count == u32::MAX
    }
}

/// The clock readings that go into one event.
pub struct EventClock {
    /// For the incident of a malformed event.
    pub malformed: Stamp,
    /// When a sub-device is counted, in milliseconds.
    pub burst_ms: u128,
    /// For the incident of an enumeration burst.
    pub burst: Stamp,
    /// When a connect or disconnect is noted, in milliseconds.
    pub flap_ms: u128,
    /// For the incident of a flapping device.
    pub flap: Stamp,
    /// For the incident of a turn.
    pub turn: Stamp,
}

/// The contents of an [`EventClock`].
pub struct EventClockView {
    pub malformed: StampView,
    pub burst_ms: u128,
    pub burst: StampView,
    pub flap_ms: u128,
    pub flap: StampView,
    pub turn: StampView,
}

impl View for EventClock {
    type V = EventClockView;

    open spec fn view(&self) -> EventClockView {
        EventClockView {
            malformed: self.malformed@,
            burst_ms: self.burst_ms,
            burst: self.burst@,
            flap_ms: self.flap_ms,
            flap: self.flap@,
            turn: self.turn@,
        }
    }
}

/// A number of milliseconds that a clock reading can give.
pub open spec fn is_millis(millis: u128) -> bool {
    exists|reading: ClockReading| #[trigger] reading.wf() && millis == reading.in_millis()
}

impl EventClockView {
    /// Readings that the clock can give.
    pub open spec fn is_reading(self) -> bool {
        &&& self.malformed.is_reading()
        &&& is_millis(self.burst_ms)
        &&& self.burst.is_reading()
        &&& is_millis(self.flap_ms)
        &&& self.flap.is_reading()
        &&& self.turn.is_reading()
    }
}

impl EventClock {
    /// Reads the clock for one event.
    pub fn read() -> (clock: Self)
        ensures
            clock@.is_reading(),
    {
        let malformed = Stamp::read();
        let burst_ms: u128 = current_timestamp_ms();
        let burst = Stamp::read();
        let flap_ms: u128 = current_timestamp_ms();
        let flap = Stamp::read();
        let turn = Stamp::read();
        EventClock { malformed, burst_ms, burst, flap_ms, flap, turn }
    }
}

/// The incident of a turn.
pub open spec fn turn_incident(
    event: UdevEventView,
    turn: Lifecycle,
    stamp: StampView,
    identity: IdentityView,
) -> IncidentView {
    match turn {
        Lifecycle::Connected => usb_incidents::lifecycle_incident(
            event,
            1,
            "connected"@,
            "low"@,
            "watcher_started"@,
            stamp,
            identity,
        ),
        Lifecycle::Disconnected => usb_incidents::lifecycle_incident(
            event,
            2,
            "disconnected"@,
            "low"@,
            "watcher_stopped"@,
            stamp,
            identity,
        ),
    }
}

/// Reports a turn at the time of `stamp`.
pub fn report_turn(
    event: &UdevEvent,
    turn: Lifecycle,
    stamp: &Stamp,
    identity: &SensorIdentity,
) -> (record: IncidentRecord)
    ensures
        record@ == turn_incident(event@, turn, stamp@, identity@),
{
    match turn {
        Lifecycle::Connected => log_usb_lifecycle_event(
            event,
            1,
            "connected",
            "low",
            "watcher_started",
            stamp,
            identity,
        ),
        Lifecycle::Disconnected => log_usb_lifecycle_event(
            event,
            2,
            "disconnected",
            "low",
            "watcher_stopped",
            stamp,
            identity,
        ),
    }
}

/// Something to do about an event.
#[derive(Debug, Clone, Copy, PartialEq, Eq, Structural)]
pub enum DeviceAction {
    /// Start the file system watcher.
    StartWatcher,
    /// Stop the file system watcher.
    StopWatcher,
    /// Hold the class of the device against the permitted ones.
    CheckClass,
    /// Look at the device in sysfs.
    LookAtDevice,
}

/// What is to be done about an event that marks a turn, or none, in this order: the watcher starts
/// at a plug and stops at an unplug, a plugged device has its class checked, and a device that the
/// event names is looked at.
pub open spec fn actions_for(event: UdevEventView, turn: Option<Lifecycle>) -> Seq<DeviceAction> {
    let about_turn = match turn {
        Some(Lifecycle::Connected) => seq![DeviceAction::StartWatcher, DeviceAction::CheckClass],
        Some(Lifecycle::Disconnected) => seq![DeviceAction::StopWatcher],
        None => Seq::empty(),
    };
    if event.devpath() is Some {
        about_turn.push(DeviceAction::LookAtDevice)
    } else {
        about_turn
    }
}

/// What is to be done about an event that marks a turn, or none.
pub fn plan_actions(event: &UdevEvent, turn: Option<Lifecycle>) -> (actions: Vec<DeviceAction>)
    ensures
        actions@ == actions_for(event@, turn),
{
    let mut actions: Vec<DeviceAction> = Vec::new();
    match turn {
        Some(Lifecycle::Connected) => {
            actions.push(DeviceAction::StartWatcher);
            actions.push(DeviceAction::CheckClass);
        },
        Some(Lifecycle::Disconnected) => {
            actions.push(DeviceAction::StopWatcher);
        },
        None => {},
    }
    if event.devpath().is_some() {
        actions.push(DeviceAction::LookAtDevice);
    }
    assert(actions@ == actions_for(event@, turn));
    actions
}

/// What an event asks for: incidents to record, and then things to do; and the turn that it marks.
pub struct UdevOutcome {
    pub incidents: Vec<IncidentRecord>,
    pub turn: Option<Lifecycle>,
    pub actions: Vec<DeviceAction>,
}

/// The turn that a kind of event marks.
fn marked_turn(kind: EventKind) -> (turn: Option<Lifecycle>)
    ensures
        turn == turn_of(kind),
{
    match kind {
        EventKind::Plug => Some(Lifecycle::Connected),
        EventKind::Unplug => Some(Lifecycle::Disconnected),
        EventKind::Change => None,
    }
}

impl DeviceTracker {
    /// A tracker that has seen nothing.
    pub fn new() -> (tracker: Self)
        ensures
            tracker@ == TrackerView::blank(),
            tracker@.wf(),
    {
        let tracker = DeviceTracker {
            known_devices: StringHashMap::new(),
            places: StringHashMap::new(),
            last_lifecycle: None,
            seen_devpaths: StringHashSet::new(),
            connect_history: StringHashMap::new(),
            enum_burst_count: 0,
            enum_burst_start_ms: None,
        };
        assert(tracker@ == TrackerView::blank());
        tracker
    }

    /// The number of sub-devices in the current burst.
    pub fn enum_burst_count(&self) -> (count: u32)
        ensures
            count == self@.burst_count,
    {
        self.enum_burst_count
    }

    /// Whether, at the time `burst_ms`, the event asks for a count of sub-devices that 32 bits
    /// cannot hold.
    pub fn is_burst_full_at(&self, event: &UdevEvent, burst_ms: u128) -> (full: bool)
        ensures
            full == self@.burst_full_at(event@, burst_ms),
    {
        let open = match self.enum_burst_start_ms {
            Some(start) => within(burst_ms, start, BURST_SPAN_MS),
            None => false,
        };
        open && self.enum_burst_count == u32::MAX && !event.is_malformed() && classify(
            event.action().as_str(),
        ) == EventKind::Plug
    }

    /// Forgets what was reported last, on a change event.
    fn reset(&mut self, kind: EventKind)
        ensures
            final(self)@ == old(self)@.after_reset(kind),
    {
        if kind == EventKind::Change {
            self.last_lifecycle = None;
            self.seen_devpaths.clear();
            self.enum_burst_count = 0;
            self.enum_burst_start_ms = None;
        }
    }

    /// Counts a sub-device; tells whether the burst has just reached its limit.
    fn count_sub_device(&mut self, kind: EventKind, now: u128) -> (reached: bool)
        requires
            kind is Plug && old(self)@.burst_open(now) ==> old(self)@.burst_count < u32::MAX,
        ensures
            final(self)@ == old(self)@.after_burst(kind, now),
            reached == (kind is Plug && final(self)@.burst_count == BURST_LIMIT),
    {
        if kind == EventKind::Plug {
            let open = match self.enum_burst_start_ms {
                Some(start) => within(now, start, BURST_SPAN_MS),
                None => false,
            };
            if open {
                self.enum_burst_count = self.enum_burst_count + 1;
            } else {
                self.enum_burst_count = 1;
                self.enum_burst_start_ms = Some(now);
            }
            self.enum_burst_count == BURST_LIMIT
        } else {
            false
        }
    }

    /// Notes a connect or disconnect of a device; tells whether that makes it flap.
    fn note_turn(&mut self, key: String, now: u128) -> (flaps: bool)
        requires
            old(self)@.wf(),
        ensures
            flaps == old(self)@.flaps(key@, now),
            flaps ==> old(self)@.history_with(key@, now).len() == FLAPPING_LIMIT,
            final(self)@ == (TrackerView {
                history: old(self)@.history.insert(
                    key@,
                    if flaps {
                        Seq::empty()
                    } else {
                        old(self)@.history_with(key@, now)
                    },
                ),
                ..old(self)@
            }),
    {
        let mut times: Vec<u128> = match self.connect_history.get(key.as_str()) {
            Some(before) => before.clone(),
            None => Vec::new(),
        };
        let ghost before = if self@.history.contains_key(key@) {
            self@.history[key@]
        } else {
            Seq::<u128>::empty()
        };
        assert(times@ == before);
        note_time(&mut times, now, FLAPPING_SPAN_MS);
        proof {
            window::lemma_recent(before, now, FLAPPING_SPAN_MS);
        }
        let flaps = times.len() >= FLAPPING_LIMIT;
        if flaps {
            times.clear();
        }
        let ghost old_view = self@;
        let ghost kept = times@;
        let ghost name = key@;
        self.connect_history.insert(key, times);
        assert(self@.history == old_view.history.insert(name, kept));
        flaps
    }
}

impl DeviceTracker {
    /// The incidents of a change event of a device.
    fn compare(
        &self,
        snapshot: &DeviceSnapshot,
        clock: &AnomalyClock,
        identity: &SensorIdentity,
    ) -> (incidents: Vec<IncidentRecord>)
        requires
            kind_of(snapshot@.action) is Change,
        ensures
            incident::record_views(incidents@) == self@.snapshot_incidents(
                snapshot@,
                clock@,
                identity@,
            ),
    {
        let former = self.find_former(snapshot);
        let mut incidents: Vec<IncidentRecord> = Vec::new();
        if let Some(known) = self.known_devices.get(snapshot.key.as_str()) {
            let serial_before = match former {
                Some(_) => &snapshot.serial,
                None => &known.serial,
            };
            incidents = find_anomalies(known, serial_before, snapshot, clock, identity);
        }
        let ghost by_key = incident::record_views(incidents@);
        assert(by_key == self@.changes_by_key(snapshot@, clock@, identity@));
        if let Some(before) = former {
            let mut more = find_anomalies(before, &before.serial, snapshot, clock, identity);
            let ghost by_path = incident::record_views(more@);
            incidents.append(&mut more);
            assert(incident::record_views(incidents@) == by_key + by_path);
        }
        assert(incident::record_views(incidents@) == self@.snapshot_incidents(
            snapshot@,
            clock@,
            identity@,
        ));
        incidents
    }

    /// The device at the path of `snapshot`, as it was before, where its serial number has changed.
    fn find_former(&self, snapshot: &DeviceSnapshot) -> (former: Option<&DeviceSnapshot>)
        ensures
            match former {
                Some(place) => self@.former(snapshot@) == Some(place@),
                None => self@.former(snapshot@) is None,
            },
    {
        let place = match self.places.get(snapshot.devpath.as_str()) {
            Some(place) => place,
            None => {
                return None;
            },
        };
        let known = match self.known_devices.get(place.key.as_str()) {
            Some(known) => known,
            None => {
                return None;
            },
        };
        if !same_text(place.key.as_str(), snapshot.key.as_str()) && place.vendor_id.is_some()
            && place.product_id.is_some() && same_option(&place.vendor_id, &snapshot.vendor_id)
            && same_option(&place.product_id, &snapshot.product_id) && !same_option(
            &place.serial,
            &snapshot.serial,
        ) && share_path(known.devpath.as_str(), snapshot.devpath.as_str()) {
            Some(place)
        } else {
            None
        }
    }

    /// Remembers a device by its path, or forgets it once it is unplugged.
    fn note_place(&mut self, snapshot: &DeviceSnapshot, kind: EventKind)
        ensures
            final(self)@ == (TrackerView {
                places: if kind is Unplug {
                    old(self)@.places.remove(snapshot@.devpath)
                } else {
                    old(self)@.places.insert(snapshot@.devpath, snapshot@)
                },
                ..old(self)@
            }),
    {
        let ghost before = self@;
        if kind == EventKind::Unplug {
            self.places.remove(snapshot.devpath.as_str());
            assert(self@.places == before.places.remove(snapshot@.devpath));
        } else {
            let path = snapshot.devpath.clone();
            self.places.insert(path, duplicate(snapshot));
            assert(self@.places == before.places.insert(snapshot@.devpath, snapshot@));
        }
    }
}

impl Default for DeviceTracker {
    fn default() -> (tracker: Self)
        ensures
            tracker@ == TrackerView::blank(),
    {
        DeviceTracker::new()
    }
}

/// Takes in an event at the times of `clock`: what the sensor remembers, the incidents that the
/// event makes, and the turn that it marks.
pub fn process_udev_event_at(
    event: &UdevEvent,
    tracker: &mut DeviceTracker,
    clock: &EventClock,
    identity: &SensorIdentity,
) -> (outcome: UdevOutcome)
    requires
        old(tracker)@.wf(),
        !old(tracker)@.burst_full_at(event@, clock@.burst_ms),
    ensures
        final(tracker)@ == old(tracker)@.after_event(event@, clock@.burst_ms, clock@.flap_ms),
        final(tracker)@.wf(),
        outcome.turn == old(tracker)@.turn(event@),
        outcome.actions@ == actions_for(event@, outcome.turn),
        incident::record_views(outcome.incidents@) == old(tracker)@.event_incidents(
            event@,
            clock@,
            identity@,
        ),
{
    let mut incidents: Vec<IncidentRecord> = Vec::new();
    if event.is_malformed() {
        incidents.push(log_malformed_event(event, &clock.malformed, identity));
        assert(incident::record_views(incidents@) == tracker@.event_incidents(
            event@,
            clock@,
            identity@,
        ));
        return UdevOutcome { incidents, turn: None, actions: plan_actions(event, None) };
    }
    let ghost start = tracker@;
    let action = event.action();
    let kind = classify(action.as_str());
    tracker.reset(kind);
    let reached = tracker.count_sub_device(kind, clock.burst_ms);
    let ghost counted = tracker@;
    if reached {
        incidents.push(log_enum_burst(event, tracker.enum_burst_count, &clock.burst, identity));
    }
    let ghost first = anomaly::if_so(
        start.bursts(event@, clock@.burst_ms),
        usb_incidents::burst_incident(event@, BURST_LIMIT, clock@.burst, identity@),
    );
    assert(incident::record_views(incidents@) == first);
    let turn = match marked_turn(kind) {
        Some(turn) => {
            let repeated = match tracker.last_lifecycle {
                Some(last) => last == turn,
                None => false,
            };
            if repeated {
                None
            } else {
                Some(turn)
            }
        },
        None => None,
    };
    assert(turn == counted.new_turn(kind));
    assert(turn == start.turn(event@));
    if let Some(begun) = turn {
        tracker.last_lifecycle = Some(begun);
        tracker.seen_devpaths.clear();
        let ghost cleared = tracker@;
        assert(cleared == (TrackerView { last: Some(begun), seen: Set::empty(), ..counted }));
        assert(cleared.history == start.history);
        assert(cleared.wf());
        if let Some(key) = derive_key_from_event(event) {
            let name = key.clone();
            let flaps = tracker.note_turn(key, clock.flap_ms);
            assert(flaps == start.flaps(name@, clock@.flap_ms));
            if flaps {
                incidents.push(
                    log_flapping(event, name.as_str(), FLAPPING_LIMIT as u32, &clock.flap, identity),
                );
            }
        }
        incidents.push(report_turn(event, begun, &clock.turn, identity));
        if begun == Lifecycle::Disconnected {
            tracker.enum_burst_count = 0;
            tracker.enum_burst_start_ms = None;
        }
    }
    proof {
        lemma_event_keeps_wf(start, event@, clock@.burst_ms, clock@.flap_ms);
    }
    assert(tracker@ == start.after_event(event@, clock@.burst_ms, clock@.flap_ms));
    assert(incident::record_views(incidents@) == start.event_incidents(event@, clock@, identity@));
    UdevOutcome { incidents, turn, actions: plan_actions(event, turn) }
}

/// What an event at the times of `clock` does to a tracker and asks for.
pub open spec fn event_takes(
    before: TrackerView,
    event: UdevEventView,
    clock: EventClockView,
    identity: IdentityView,
    after: TrackerView,
    outcome: UdevOutcome,
) -> bool {
    &&& after == before.after_event(event, clock.burst_ms, clock.flap_ms)
    &&& outcome.turn == before.turn(event)
    &&& outcome.actions@ == actions_for(event, outcome.turn)
    &&& incident::record_views(outcome.incidents@) == before.event_incidents(
        event,
        clock,
        identity,
    )
}

/// Takes in an event at the present time.
pub fn process_udev_event(
    event: &UdevEvent,
    tracker: &mut DeviceTracker,
    identity: &SensorIdentity,
) -> (outcome: UdevOutcome)
    requires
        old(tracker)@.wf(),
        !old(tracker)@.burst_full(event@),
    ensures
        final(tracker)@.wf(),
        exists|clock: EventClockView|
            clock.is_reading() && #[trigger] event_takes(
                old(tracker)@,
                event@,
                clock,
                identity@,
                final(tracker)@,
                outcome,
            ),
{
    let clock = EventClock::read();
    let outcome = process_udev_event_at(event, tracker, &clock, identity);
    assert(event_takes(old(tracker)@, event@, clock@, identity@, tracker@, outcome));
    outcome
}

impl TrackerView {
    /// The tracker once a device was looked at.
    pub open spec fn after_snapshot(self, snapshot: SnapshotView) -> TrackerView {
        let seen = self.seen.insert(snapshot.devpath);
        if kind_of(snapshot.action) is Unplug {
            TrackerView {
                known: self.known.remove(snapshot.key),
                places: self.places.remove(snapshot.devpath),
                seen,
                ..self
            }
        } else {
            TrackerView {
                known: self.known.insert(snapshot.key, snapshot),
                places: self.places.insert(snapshot.devpath, snapshot),
                seen,
                ..self
            }
        }
    }

    /// The device at the path of `snapshot`, as it was before, where its serial number has changed:
    /// it is known, under another key, is still on that path, and has the same vendor and product.
    /// A new serial number gives a device a new key, so that it has to be found by its path.
    pub open spec fn former(self, snapshot: SnapshotView) -> Option<SnapshotView> {
        let place = self.places[snapshot.devpath];
        if self.places.contains_key(snapshot.devpath) && place.key != snapshot.key
            && place.vendor_id is Some && place.product_id is Some && place.vendor_id
            == snapshot.vendor_id && place.product_id == snapshot.product_id && place.serial
            != snapshot.serial && self.known.contains_key(place.key) && on_one_path(
            self.known[place.key].devpath,
            snapshot.devpath,
        ) {
            Some(place)
        } else {
            None
        }
    }

    /// What differs from the device that is known under the key of `snapshot`; its serial number is
    /// left to the device at its path, where that one's has changed.
    pub open spec fn changes_by_key(
        self,
        snapshot: SnapshotView,
        clock: AnomalyClockView,
        identity: IdentityView,
    ) -> Seq<IncidentView> {
        if self.known.contains_key(snapshot.key) {
            let known = self.known[snapshot.key];
            let before = if self.former(snapshot) is Some {
                SnapshotView { serial: snapshot.serial, ..known }
            } else {
                known
            };
            anomaly::anomalies(before, snapshot, clock, identity)
        } else {
            Seq::empty()
        }
    }

    /// What differs from the device at the path of `snapshot`, where its serial number has changed.
    pub open spec fn changes_by_path(
        self,
        snapshot: SnapshotView,
        clock: AnomalyClockView,
        identity: IdentityView,
    ) -> Seq<IncidentView> {
        match self.former(snapshot) {
            Some(before) => anomaly::anomalies(before, snapshot, clock, identity),
            None => Seq::empty(),
        }
    }

    /// The incidents of a device that was looked at: on a change event, what differs from the last
    /// time, when it is held against the device that is known under its key and against the one at
    /// its path.
    pub open spec fn snapshot_incidents(
        self,
        snapshot: SnapshotView,
        clock: AnomalyClockView,
        identity: IdentityView,
    ) -> Seq<IncidentView> {
        if kind_of(snapshot.action) is Change {
            self.changes_by_key(snapshot, clock, identity) + self.changes_by_path(
                snapshot,
                clock,
                identity,
            )
        } else {
            Seq::empty()
        }
    }

    /// The diagnostic line of a device that was looked at: one for each path since the last turn.
    pub open spec fn snapshot_line(self, snapshot: SnapshotView) -> Option<Seq<char>> {
        if self.seen.contains(snapshot.devpath) {
            None
        } else {
            Some(snapshot::diagnostic_line(snapshot))
        }
    }
}

/// What looking at a device asks for: a diagnostic line, and incidents to record.
pub struct SnapshotOutcome {
    pub diagnostic: Option<String>,
    pub incidents: Vec<IncidentRecord>,
}

/// Takes in what is known of a device, at the times of `clock`.
pub fn process_snapshot_at(
    snapshot: DeviceSnapshot,
    tracker: &mut DeviceTracker,
    clock: &AnomalyClock,
    identity: &SensorIdentity,
) -> (outcome: SnapshotOutcome)
    requires
        old(tracker)@.wf(),
    ensures
        final(tracker)@ == old(tracker)@.after_snapshot(snapshot@),
        final(tracker)@.wf(),
        text::opt_view(outcome.diagnostic) == old(tracker)@.snapshot_line(snapshot@),
        incident::record_views(outcome.incidents@) == old(tracker)@.snapshot_incidents(
            snapshot@,
            clock@,
            identity@,
        ),
{
    let ghost before = tracker@;
    let ghost seen = snapshot@;
    let diagnostic = if tracker.seen_devpaths.insert(snapshot.devpath.clone()) {
        Some(log_usb_event(&snapshot))
    } else {
        None
    };
    let kind = classify(snapshot.action.as_str());
    let incidents: Vec<IncidentRecord> = if kind == EventKind::Change {
        tracker.compare(&snapshot, clock, identity)
    } else {
        Vec::new()
    };
    tracker.note_place(&snapshot, kind);
    let ghost noted = tracker@;
    if kind == EventKind::Unplug {
        tracker.known_devices.remove(snapshot.key.as_str());
        assert(tracker@.known == noted.known.remove(seen.key));
    } else {
        let key = snapshot.key.clone();
        tracker.known_devices.insert(key, snapshot);
        assert(tracker@.known == noted.known.insert(seen.key, seen));
    }
    assert(incident::record_views(incidents@) == before.snapshot_incidents(
        seen,
        clock@,
        identity@,
    ));
    assert(tracker@ == before.after_snapshot(seen));
    SnapshotOutcome { diagnostic, incidents }
}

/// What looking at a device, at the times of `clock`, does to a tracker and asks for.
pub open spec fn snapshot_takes(
    before: TrackerView,
    snapshot: SnapshotView,
    clock: AnomalyClockView,
    identity: IdentityView,
    after: TrackerView,
    outcome: SnapshotOutcome,
) -> bool {
    &&& after == before.after_snapshot(snapshot)
    &&& text::opt_view(outcome.diagnostic) == before.snapshot_line(snapshot)
    &&& incident::record_views(outcome.incidents@) == before.snapshot_incidents(
        snapshot,
        clock,
        identity,
    )
}

/// Takes in what is known of a device, at the present time.
pub fn process_snapshot(
    snapshot: DeviceSnapshot,
    tracker: &mut DeviceTracker,
    identity: &SensorIdentity,
) -> (outcome: SnapshotOutcome)
    requires
        old(tracker)@.wf(),
    ensures
        final(tracker)@.wf(),
        exists|clock: AnomalyClockView|
            clock.is_reading() && #[trigger] snapshot_takes(
                old(tracker)@,
                snapshot@,
                clock,
                identity@,
                final(tracker)@,
                outcome,
            ),
{
    let clock = AnomalyClock::read();
    let ghost seen = snapshot@;
    let outcome = process_snapshot_at(snapshot, tracker, &clock, identity);
    assert(snapshot_takes(old(tracker)@, seen, clock@, identity@, tracker@, outcome));
    outcome
}

/// Taking in an event keeps every history short and every snapshot under its key.
pub proof fn lemma_event_keeps_wf(
    tracker: TrackerView,
    event: UdevEventView,
    burst_ms: u128,
    flap_ms: u128,
)
    requires
        tracker.wf(),
    ensures
        tracker.after_event(event, burst_ms, flap_ms).wf(),
{
}

} // verus!
