//! What holds of what is read of a device, of its changes, and of the check of its class.

use vstd::prelude::*;

use crate::anomaly;
use crate::anomaly::{AnomalyClock, AnomalyClockView};
use crate::class_policy;
use crate::clock::StampView;
use crate::digits;
use crate::incident::{IdentityView, IncidentView};
use crate::snapshot;
use crate::snapshot::{Attribute, DeviceReads, DeviceSnapshot, SnapshotView};
use crate::sysfs;
use crate::text;
use crate::udev::UdevEventView;
use crate::usb_incidents;

verus! {

/// A snapshot says each thing in its own field.
pub proof fn lemma_snapshot_view(snapshot: DeviceSnapshot)
    ensures
        snapshot@.key == snapshot.key@,
        snapshot@.timestamp_ms == snapshot.timestamp_ms,
        snapshot@.action == snapshot.action@,
        snapshot@.devpath == snapshot.devpath@,
        snapshot@.bus_topology == text::opt_view(snapshot.bus_topology),
        snapshot@.vendor_id == text::opt_view(snapshot.vendor_id),
        snapshot@.product_id == text::opt_view(snapshot.product_id),
        snapshot@.serial == text::opt_view(snapshot.serial),
        snapshot@.device_class == text::opt_view(snapshot.device_class),
        snapshot@.device_subclass == text::opt_view(snapshot.device_subclass),
        snapshot@.device_protocol == text::opt_view(snapshot.device_protocol),
        snapshot@.manufacturer == text::opt_view(snapshot.manufacturer),
        snapshot@.product == text::opt_view(snapshot.product),
        snapshot@.port_id == text::opt_view(snapshot.port_id),
{
}

/// Each attribute of a device is the first usable value among the reads of its own file.
pub proof fn lemma_reads_view(reads: DeviceReads)
    ensures
        reads@.vendor_id == sysfs::first_usable(sysfs::read_views(reads.vendor_id@)),
        reads@.product_id == sysfs::first_usable(sysfs::read_views(reads.product_id@)),
        reads@.serial == sysfs::first_usable(sysfs::read_views(reads.serial@)),
        reads@.device_class == sysfs::first_usable(sysfs::read_views(reads.device_class@)),
        reads@.device_subclass == sysfs::first_usable(sysfs::read_views(reads.device_subclass@)),
        reads@.device_protocol == sysfs::first_usable(sysfs::read_views(reads.device_protocol@)),
        reads@.manufacturer == sysfs::first_usable(sysfs::read_views(reads.manufacturer@)),
        reads@.product == sysfs::first_usable(sysfs::read_views(reads.product@)),
        reads@.bus_number == sysfs::first_usable(sysfs::read_views(reads.bus_number@)),
        reads@.device_number == sysfs::first_usable(sysfs::read_views(reads.device_number@)),
{
}

/// What is captured of a device takes each field from its own attribute, from the event, or as it
/// is given.
pub proof fn lemma_captured(
    event: UdevEventView,
    action: Seq<char>,
    devpath: Seq<char>,
    reads: DeviceReads,
    now: u128,
)
    ensures
        ({
            let seen = snapshot::captured(event, action, devpath, reads@, now);
            let vendor = sysfs::first_usable(sysfs::read_views(reads.vendor_id@));
            let product = sysfs::first_usable(sysfs::read_views(reads.product_id@));
            let serial = sysfs::first_usable(sysfs::read_views(reads.serial@));
            &&& seen.timestamp_ms == now
            &&& seen.action == action
            &&& seen.devpath == devpath
            &&& seen.vendor_id == vendor
            &&& seen.product_id == product
            &&& seen.serial == serial
            &&& seen.device_class == sysfs::first_usable(sysfs::read_views(reads.device_class@))
            &&& seen.device_subclass == sysfs::first_usable(
                sysfs::read_views(reads.device_subclass@),
            )
            &&& seen.device_protocol == sysfs::first_usable(
                sysfs::read_views(reads.device_protocol@),
            )
            &&& seen.manufacturer == sysfs::first_usable(sysfs::read_views(reads.manufacturer@))
            &&& seen.product == sysfs::first_usable(sysfs::read_views(reads.product@))
            &&& seen.bus_topology == snapshot::topology(
                sysfs::first_usable(sysfs::read_views(reads.bus_number@)),
                sysfs::first_usable(sysfs::read_views(reads.device_number@)),
            )
            &&& seen.port_id == snapshot::event_port(event)
            &&& seen.key == snapshot::stable_key(devpath, vendor, product, serial)
        }),
{
}

/// The files of the attributes have the names that sysfs gives them.
pub proof fn lemma_attribute_names()
    ensures
        Attribute::VendorId.name() == "idVendor"@,
        Attribute::ProductId.name() == "idProduct"@,
        Attribute::Serial.name() == "serial"@,
        Attribute::DeviceClass.name() == "bDeviceClass"@,
        Attribute::DeviceSubclass.name() == "bDeviceSubClass"@,
        Attribute::DeviceProtocol.name() == "bDeviceProtocol"@,
        Attribute::Manufacturer.name() == "manufacturer"@,
        Attribute::Product.name() == "product"@,
        Attribute::BusNumber.name() == "busnum"@,
        Attribute::DeviceNumber.name() == "devnum"@,
{
}

/// A device hangs at the bus number and device number that were read, as far as they were.
pub proof fn lemma_topology(bus: Seq<char>, device: Seq<char>)
    ensures
        snapshot::topology(Some(bus), Some(device)) == Some("bus "@ + bus + " dev "@ + device),
        snapshot::topology(Some(bus), None) == Some("bus "@ + bus),
        snapshot::topology(None, Some(device)) == Some("dev "@ + device),
        snapshot::topology(None, None) is None,
{
}

/// The key of a device is its serial number where it has one that is not empty; else its vendor and
/// product where both are there; else its path.
pub proof fn lemma_stable_key(
    devpath: Seq<char>,
    vendor: Option<Seq<char>>,
    product: Option<Seq<char>>,
    serial: Option<Seq<char>>,
)
    ensures
        serial matches Some(number) ==> number.len() > 0 ==> snapshot::stable_key(
            devpath,
            vendor,
            product,
            serial,
        ) == "serial:"@ + number,
        (serial is None || serial->0.len() == 0) && vendor is Some && product is Some
            ==> snapshot::stable_key(devpath, vendor, product, serial) == "vidpid:"@ + vendor->0
            + ":"@ + product->0,
        (serial is None || serial->0.len() == 0) && (vendor is None || product is None)
            ==> snapshot::stable_key(devpath, vendor, product, serial) == "devpath:"@ + devpath,
{
}

/// The value of a property that is there and not empty.
pub open spec fn told(event: UdevEventView, name: Seq<char>) -> bool {
    event.properties.contains_key(name) && event.properties[name].len() > 0
}

/// The key that an event gives is the short serial number that it tells; else the vendor and the
/// model where it tells both; else the path; and none where it tells none of these.
pub proof fn lemma_event_key(event: UdevEventView)
    ensures
        told(event, "ID_SERIAL_SHORT"@) ==> snapshot::event_key(event) == Some(
            "serial:"@ + event.properties["ID_SERIAL_SHORT"@],
        ),
        !told(event, "ID_SERIAL_SHORT"@) && told(event, "ID_VENDOR_ID"@) && told(
            event,
            "ID_MODEL_ID"@,
        ) ==> snapshot::event_key(event) == Some(
            "vidpid:"@ + event.properties["ID_VENDOR_ID"@] + ":"@
                + event.properties["ID_MODEL_ID"@],
        ),
        !told(event, "ID_SERIAL_SHORT"@) && !(told(event, "ID_VENDOR_ID"@) && told(
            event,
            "ID_MODEL_ID"@,
        )) && told(event, "DEVPATH"@) ==> snapshot::event_key(event) == Some(
            "devpath:"@ + event.properties["DEVPATH"@],
        ),
        !told(event, "ID_SERIAL_SHORT"@) && !(told(event, "ID_VENDOR_ID"@) && told(
            event,
            "ID_MODEL_ID"@,
        )) && !told(event, "DEVPATH"@) ==> snapshot::event_key(event) is None,
{
}

/// The port of a device is the path that the event gives, else its tag.
pub proof fn lemma_event_port(event: UdevEventView)
    ensures
        event.properties.contains_key("ID_PATH"@) ==> snapshot::event_port(event) == Some(
            event.properties["ID_PATH"@],
        ),
        !event.properties.contains_key("ID_PATH"@) && event.properties.contains_key("ID_PATH_TAG"@)
            ==> snapshot::event_port(event) == Some(event.properties["ID_PATH_TAG"@]),
        !event.properties.contains_key("ID_PATH"@) && !event.properties.contains_key(
            "ID_PATH_TAG"@,
        ) ==> snapshot::event_port(event) is None,
{
}

/// A text, or `unknown` where there is none.
pub open spec fn or_unknown(value: Option<Seq<char>>) -> Seq<char> {
    match value {
        Some(text) => text,
        None => "unknown"@,
    }
}

/// The diagnostic line tells the time, the action, and then each field of the device behind its
/// label.
pub proof fn lemma_diagnostic_line(seen: SnapshotView)
    ensures
        snapshot::diagnostic_line(seen) == "["@ + digits::decimal(seen.timestamp_ms as nat)
            + "] usb "@ + seen.action + " key="@ + seen.key + " devpath="@ + seen.devpath
            + (" topology="@ + or_unknown(seen.bus_topology)) + (" vid="@ + or_unknown(
            seen.vendor_id,
        )) + (" pid="@ + or_unknown(seen.product_id)) + (" serial="@ + or_unknown(seen.serial)) + (
        " class="@ + or_unknown(seen.device_class)) + (" subclass="@ + or_unknown(
            seen.device_subclass,
        )) + (" protocol="@ + or_unknown(seen.device_protocol)) + (" manufacturer="@ + or_unknown(
            seen.manufacturer,
        )) + (" product="@ + or_unknown(seen.product)) + (" port="@ + or_unknown(seen.port_id)),
{
}

/// A read gives a value exactly when the file could be read and holds more than white space.
pub open spec fn gives_value(read: Option<Seq<char>>) -> bool {
    read is Some && text::trimmed(read->0).len() > 0
}

/// The value of an attribute is that of the first read which gives one, trimmed.
pub proof fn lemma_first_usable(reads: Seq<Option<Seq<char>>>, at: int)
    requires
        0 <= at < reads.len(),
        gives_value(reads[at]),
        forall|k: int| 0 <= k < at ==> !gives_value(#[trigger] reads[k]),
    ensures
        sysfs::first_usable(reads) == Some(text::trimmed(reads[at]->0)),
    decreases reads.len(),
{
    if at > 0 {
        assert(!gives_value(reads[0]));
        let rest = reads.drop_first();
        assert(rest[at - 1] == reads[at]);
        assert forall|k: int| 0 <= k < at - 1 implies !gives_value(#[trigger] rest[k]) by {
            assert(!gives_value(reads[k + 1]));
        }
        lemma_first_usable(rest, at - 1);
    }
}

/// An attribute has no value exactly when no read gives one.
pub proof fn lemma_none_usable(reads: Seq<Option<Seq<char>>>)
    ensures
        sysfs::first_usable(reads) is None <==> forall|k: int|
            0 <= k < reads.len() ==> !gives_value(#[trigger] reads[k]),
    decreases reads.len(),
{
    if reads.len() > 0 {
        let rest = reads.drop_first();
        lemma_none_usable(rest);
        if gives_value(reads[0]) {
            assert(sysfs::first_usable(reads) is Some);
        } else {
            if forall|k: int| 0 <= k < reads.len() ==> !gives_value(#[trigger] reads[k]) {
                assert forall|k: int| 0 <= k < rest.len() implies !gives_value(
                    #[trigger] rest[k],
                ) by {
                    assert(rest[k] == reads[k + 1]);
                }
            }
            if sysfs::first_usable(reads) is None {
                assert forall|k: int| 0 <= k < reads.len() implies !gives_value(
                    #[trigger] reads[k],
                ) by {
                    if k > 0 {
                        assert(rest[k - 1] == reads[k]);
                    }
                }
            }
        }
    }
}

/// What was read of a list of files is the contents of each, in their order.
pub proof fn lemma_read_views(reads: Seq<Option<String>>)
    ensures
        sysfs::read_views(reads).len() == reads.len(),
        forall|i: int|
            0 <= i < reads.len() ==> (#[trigger] sysfs::read_views(reads)[i]) == match reads[i] {
                Some(contents) => Some(contents@),
                None => None,
            },
{
}

/// The directory of a device lies under `/sys/`, without the slashes in front of the device path
/// and with everything behind them.
pub proof fn lemma_sysfs_path(devpath: Seq<char>) -> (slashes: int)
    ensures
        0 <= slashes <= devpath.len(),
        forall|k: int| 0 <= k < slashes ==> #[trigger] devpath[k] == '/',
        slashes < devpath.len() ==> devpath[slashes] != '/',
        sysfs::sysfs_path(devpath) == "/sys/"@ + devpath.skip(slashes),
{
    lemma_without_leading(devpath)
}

/// Leading slashes are dropped, all of them and nothing else.
proof fn lemma_without_leading(s: Seq<char>) -> (count: int)
    ensures
        0 <= count <= s.len(),
        forall|k: int| 0 <= k < count ==> #[trigger] s[k] == '/',
        count < s.len() ==> s[count] != '/',
        sysfs::without_leading(s, '/') == s.skip(count),
    decreases s.len(),
{
    if s.len() > 0 && s[0] == '/' {
        let rest = s.drop_first();
        let count = lemma_without_leading(rest);
        assert forall|k: int| 0 <= k < count + 1 implies #[trigger] s[k] == '/' by {
            if k > 0 {
                assert(rest[k - 1] == '/');
            }
        }
        assert(count < rest.len() ==> rest[count] == s[count + 1]);
        assert(rest.skip(count) == s.skip(count + 1));
        count + 1
    } else {
        assert(s.skip(0) == s);
        0
    }
}

/// A component of a path that names something: it holds no slash, is not empty, and is not `.`.
pub open spec fn names_something(component: Seq<char>) -> bool {
    &&& component.len() > 0
    &&& component != seq!['.']
    &&& forall|i: int| 0 <= i < component.len() ==> #[trigger] component[i] != '/'
}

/// A component holds no slash.
pub open spec fn has_no_slash(component: Seq<char>) -> bool {
    forall|i: int| 0 <= i < component.len() ==> #[trigger] component[i] != '/'
}

/// The last component is what stands behind the last slash.
pub proof fn lemma_cut_component(rest: Seq<char>, component: Seq<char>)
    requires
        has_no_slash(component),
    ensures
        sysfs::cut_component(rest + seq!['/'] + component) == (rest, component),
        sysfs::cut_component(component) == (Seq::<char>::empty(), component),
    decreases component.len(),
{
    let path = rest + seq!['/'] + component;
    if component.len() == 0 {
        assert(path.last() == '/');
        assert(path.drop_last() == rest);
        assert(component == Seq::<char>::empty());
    } else {
        let front = component.drop_last();
        assert forall|i: int| 0 <= i < front.len() implies #[trigger] front[i] != '/' by {
            assert(component[i] != '/');
        }
        lemma_cut_component(rest, front);
        assert(path.last() == component[component.len() - 1]);
        assert(component[component.len() - 1] != '/');
        assert(path.drop_last() == rest + seq!['/'] + front);
        assert(front.push(component.last()) == component);
    }
}

/// A path below the root ends where a component names something: those behind it go.
pub proof fn lemma_settled(rest: Seq<char>, component: Seq<char>)
    requires
        has_no_slash(component),
    ensures
        names_something(component) ==> sysfs::settled(rest + seq!['/'] + component) == rest
            + seq!['/'] + component && sysfs::settled(component) == component,
        !names_something(component) ==> sysfs::settled(rest + seq!['/'] + component)
            == sysfs::settled(rest) && sysfs::settled(component).len() == 0,
{
    lemma_cut_component(rest, component);
    if component.len() > 0 && component == seq!['.'] {
        assert(sysfs::settled(Seq::<char>::empty()).len() == 0);
    }
}

/// The parent of a path is what stands before its last component that names something; what
/// follows that component is of no account, and the root has no parent.
pub proof fn lemma_parent(rest: Seq<char>, component: Seq<char>)
    requires
        has_no_slash(component),
    ensures
        names_something(component) ==> sysfs::parent_of(
            seq!['/'] + (rest + seq!['/'] + component),
        ) == Some(seq!['/'] + sysfs::settled(rest)),
        names_something(component) ==> sysfs::parent_of(seq!['/'] + component) == Some(seq!['/']),
        !names_something(component) ==> sysfs::parent_of(
            seq!['/'] + (rest + seq!['/'] + component),
        ) == sysfs::parent_of(seq!['/'] + rest),
        !names_something(component) ==> sysfs::parent_of(seq!['/'] + component) is None,
        sysfs::parent_of(seq!['/']) is None,
{
    lemma_settled(rest, component);
    lemma_cut_component(rest, component);
    let below = rest + seq!['/'] + component;
    assert((seq!['/'] + below).skip(1) == below);
    assert((seq!['/'] + component).skip(1) == component);
    assert((seq!['/'] + rest).skip(1) == rest);
    assert(seq!['/'].skip(1).len() == 0);
    assert(sysfs::settled(Seq::<char>::empty()) == Seq::<char>::empty());
    assert(seq!['/'] + Seq::<char>::empty() == seq!['/']);
}

/// The directories above a path begin with the path itself; each is the parent of the one before
/// it, and the last has none.
pub proof fn lemma_upwards(path: Seq<char>)
    requires
        path.len() > 0,
    ensures
        sysfs::upwards(path).len() > 0,
        sysfs::upwards(path)[0] == path,
        forall|i: int|
            0 < i < sysfs::upwards(path).len() ==> sysfs::parent_of(
                sysfs::upwards(path)[i - 1],
            ) == Some(#[trigger] sysfs::upwards(path)[i]),
        sysfs::parent_of(sysfs::upwards(path).last()) is None,
    decreases path.len(),
{
    if let Some(parent) = sysfs::parent_of(path) {
        sysfs::lemma_parent_shorter(path);
        lemma_upwards(parent);
        let all = sysfs::upwards(path);
        let above = sysfs::upwards(parent);
        assert(all == seq![path] + above);
        assert forall|i: int| 0 < i < all.len() implies sysfs::parent_of(all[i - 1]) == Some(
            #[trigger] all[i],
        ) by {
            assert(all[i] == above[i - 1]);
            if i > 1 {
                assert(all[i - 1] == above[i - 2]);
                assert(sysfs::parent_of(above[i - 1 - 1]) == Some(above[i - 1]));
            }
        }
        assert(all.last() == above.last());
    }
}

/// An attribute is looked for in the directory of the device and in each one above it, from the
/// innermost outwards; a file stands in a directory behind one slash.
pub proof fn lemma_attribute_files(devpath: Seq<char>, attribute: Seq<char>)
    ensures
        sysfs::attribute_files(devpath, attribute).len() == sysfs::upwards(
            sysfs::sysfs_path(devpath),
        ).len(),
        forall|i: int|
            0 <= i < sysfs::attribute_files(devpath, attribute).len() ==> (
            #[trigger] sysfs::attribute_files(devpath, attribute)[i]) == sysfs::file_in(
                sysfs::upwards(sysfs::sysfs_path(devpath))[i],
                attribute,
            ),
        devpath.len() > 0 && devpath.last() != '/' ==> sysfs::file_in(devpath, attribute)
            == devpath + seq!['/'] + attribute,
        sysfs::file_in(devpath + seq!['/'], attribute) == devpath + seq!['/'] + attribute,
        sysfs::file_in(Seq::empty(), attribute) == attribute,
{
    assert((devpath + seq!['/']).last() == '/');
    assert(Seq::<char>::empty() + attribute == attribute);
}

/// An incident of the given type is among some.
pub open spec fn has_type(incidents: Seq<IncidentView>, incident_type_id: u8) -> bool {
    exists|i: int|
        0 <= i < incidents.len() && (#[trigger] incidents[i]).incident_type_id == incident_type_id
}

/// A comparison holds an incident of type 3 exactly when port or place on the bus differ, of type 4
/// exactly when class, subclass or protocol differ, of type 5 exactly when the serial numbers
/// differ, of type 6 exactly when the paths differ; and the types come in this order, each once.
pub proof fn lemma_change_types(
    before: SnapshotView,
    now: SnapshotView,
    clock: AnomalyClockView,
    identity: IdentityView,
)
    ensures
        ({
            let incidents = anomaly::anomalies(before, now, clock, identity);
            &&& has_type(incidents, 3) <==> before.port_id != now.port_id || before.bus_topology
                != now.bus_topology
            &&& has_type(incidents, 4) <==> before.device_class != now.device_class
                || before.device_subclass != now.device_subclass || before.device_protocol
                != now.device_protocol
            &&& has_type(incidents, 5) <==> before.serial != now.serial
            &&& has_type(incidents, 6) <==> before.devpath != now.devpath
            &&& forall|i: int, j: int|
                0 <= i < j < incidents.len() ==> (#[trigger] incidents[i]).incident_type_id < (
                #[trigger] incidents[j]).incident_type_id
            &&& forall|i: int|
                0 <= i < incidents.len() ==> 3 <= (#[trigger] incidents[i]).incident_type_id <= 6
        }),
{
    let incidents = anomaly::anomalies(before, now, clock, identity);
    let moved = before.port_id != now.port_id || before.bus_topology != now.bus_topology;
    let reclassed = before.device_class != now.device_class || before.device_subclass
        != now.device_subclass || before.device_protocol != now.device_protocol;
    let renumbered = before.serial != now.serial;
    let rerouted = before.devpath != now.devpath;
    let a: int = if moved {
        1
    } else {
        0
    };
    let b: int = if reclassed {
        a + 1
    } else {
        a
    };
    let c: int = if renumbered {
        b + 1
    } else {
        b
    };
    let d: int = if rerouted {
        c + 1
    } else {
        c
    };
    assert(incidents.len() == d);
    assert(moved ==> incidents[0].incident_type_id == 3);
    assert(reclassed ==> incidents[a].incident_type_id == 4);
    assert(renumbered ==> incidents[b].incident_type_id == 5);
    assert(rerouted ==> incidents[c].incident_type_id == 6);
}

/// Each incident of a comparison says what the field was and what it is, carries the device as it
/// is now, and has the timestamp of its own kind of change.
pub proof fn lemma_change_contents(
    before: SnapshotView,
    now: SnapshotView,
    clock: AnomalyClockView,
    identity: IdentityView,
    i: int,
)
    requires
        0 <= i < anomaly::anomalies(before, now, clock, identity).len(),
    ensures
        ({
            let incident = anomaly::anomalies(before, now, clock, identity)[i];
            &&& incident.incident_type_id == 3 ==> incident == usb_incidents::anomaly_incident(
                now,
                3,
                "high"@,
                "port/topology changed: port "@ + text::opt_debug(before.port_id) + "→"@
                    + text::opt_debug(now.port_id) + ", bus "@ + text::opt_debug(
                    before.bus_topology,
                ) + "→"@ + text::opt_debug(now.bus_topology),
                "investigate_port_change"@,
                clock.topology,
                identity,
            )
            &&& incident.incident_type_id == 4 ==> incident == usb_incidents::anomaly_incident(
                now,
                4,
                "critical"@,
                "usb class changed: "@ + text::opt_debug(before.device_class) + "/"@
                    + text::opt_debug(before.device_subclass) + "/"@ + text::opt_debug(
                    before.device_protocol,
                ) + " → "@ + text::opt_debug(now.device_class) + "/"@ + text::opt_debug(
                    now.device_subclass,
                ) + "/"@ + text::opt_debug(now.device_protocol),
                "block_and_alert"@,
                clock.class,
                identity,
            )
            &&& incident.incident_type_id == 5 ==> incident == usb_incidents::anomaly_incident(
                now,
                5,
                "critical"@,
                "serial changed from "@ + text::opt_debug(before.serial) + " to "@
                    + text::opt_debug(now.serial),
                "block_and_alert"@,
                clock.serial,
                identity,
            )
            &&& incident.incident_type_id == 6 ==> incident == usb_incidents::anomaly_incident(
                now,
                6,
                "high"@,
                "devpath changed from "@ + text::str_debug(before.devpath) + " to "@
                    + text::str_debug(now.devpath),
                "investigate_devpath"@,
                clock.devpath,
                identity,
            )
        }),
{
}

/// What the incidents of changes say, whatever the texts of the fields are.
pub proof fn lemma_change_texts(
    a: Seq<char>,
    b: Seq<char>,
    c: Seq<char>,
    d: Seq<char>,
    e: Seq<char>,
    f: Seq<char>,
)
    ensures
        anomaly::topology_text(a, b, c, d) == "port/topology changed: port "@ + a + "→"@ + b
            + ", bus "@ + c + "→"@ + d,
        anomaly::class_text(a, b, c, d, e, f) == "usb class changed: "@ + a + "/"@ + b + "/"@ + c
            + " → "@ + d + "/"@ + e + "/"@ + f,
        anomaly::serial_text(a, b) == "serial changed from "@ + a + " to "@ + b,
        anomaly::devpath_text(a, b) == "devpath changed from "@ + a + " to "@ + b,
{
}

/// The timestamps of a comparison stand each in its own place.
pub proof fn lemma_anomaly_clock(clock: AnomalyClock)
    ensures
        clock@.topology == clock.topology@,
        clock@.class == clock.class@,
        clock@.serial == clock.serial@,
        clock@.devpath == clock.devpath@,
{
}

/// A plugged device is reported for its class exactly when a list is configured, the event names
/// the device, the class was read, is neither empty nor `00`, and is none of the pieces between the
/// commas of the list, each of them trimmed and both in lower case.
pub proof fn lemma_class_is_reported(
    event: UdevEventView,
    allowed: Seq<char>,
    device_class: Option<Seq<char>>,
    stamp: StampView,
    identity: IdentityView,
)
    ensures
        ({
            let reported = class_policy::class_incident(
                event,
                allowed,
                device_class,
                stamp,
                identity,
            );
            let pieces = text::pieces(allowed, ',');
            &&& reported is Some <==> {
                &&& allowed.len() > 0
                &&& event.properties.contains_key("DEVPATH"@)
                &&& device_class is Some
                &&& device_class->0.len() > 0
                &&& device_class->0 != "00"@
                &&& forall|i: int|
                    0 <= i < pieces.len() ==> class_policy::lowercase(
                        text::trimmed(#[trigger] pieces[i]),
                    ) != class_policy::lowercase(device_class->0)
            }
            &&& reported is Some ==> reported == Some(
                class_policy::unauthorized_incident(
                    event.properties["DEVPATH"@],
                    device_class->0,
                    allowed,
                    stamp,
                    identity,
                ),
            )
        }),
{
    let pieces = text::pieces(allowed, ',');
    let classes = class_policy::permitted_classes(allowed);
    if device_class is Some {
        let wanted = class_policy::lowercase(device_class->0);
        assert(classes.len() == pieces.len());
        if classes.contains(wanted) {
            let i = choose|i: int| 0 <= i < classes.len() && classes[i] == wanted;
            assert(class_policy::lowercase(text::trimmed(pieces[i])) == wanted);
        } else {
            assert forall|i: int| 0 <= i < pieces.len() implies class_policy::lowercase(
                text::trimmed(#[trigger] pieces[i]),
            ) != wanted by {
                assert(classes[i] != wanted);
            }
        }
    }
}

/// The permitted classes are the pieces between the commas of the list, each trimmed and in lower
/// case, in their order.
pub proof fn lemma_permitted_classes(allowed: Seq<char>)
    ensures
        class_policy::permitted_classes(allowed).len() == text::pieces(allowed, ',').len(),
        class_policy::ascii_classes(allowed).len() == text::pieces(allowed, ',').len(),
        forall|i: int|
            0 <= i < text::pieces(allowed, ',').len() ==> (
            #[trigger] class_policy::permitted_classes(allowed)[i]) == class_policy::lowercase(
                text::trimmed(text::pieces(allowed, ',')[i]),
            ),
        forall|i: int|
            0 <= i < text::pieces(allowed, ',').len() ==> (#[trigger] class_policy::ascii_classes(
                allowed,
            )[i]) == class_policy::ascii_lowered(text::trimmed(text::pieces(allowed, ',')[i])),
{
}

/// In lower case each letter `A` to `Z` is the one 32 further on, and everything else stays.
pub proof fn lemma_ascii_lowered(text: Seq<char>, i: int)
    requires
        0 <= i < text.len(),
    ensures
        class_policy::ascii_lowered(text).len() == text.len(),
        0x41 <= text[i] as u32 <= 0x5a ==> class_policy::ascii_lowered(text)[i] as u32 == text[i]
            as u32 + 32,
        !(0x41 <= text[i] as u32 <= 0x5a) ==> class_policy::ascii_lowered(text)[i] == text[i],
        class_policy::is_ascii_text(text) <==> forall|k: int|
            0 <= k < text.len() ==> #[trigger] text[k] as u32 <= 0x7f,
{
    if class_policy::is_ascii_text(text) {
        assert forall|k: int| 0 <= k < text.len() implies #[trigger] text[k] as u32 <= 0x7f by {
            assert((text[k] as u32) < 0x80);
        }
    }
}

} // verus!
