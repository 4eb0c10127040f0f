//! Fingerprints of USB devices.

use vstd::prelude::*;

use crate::clock;
use crate::clock::{current_timestamp_ms, ClockReading};
use crate::digits;
use crate::digits::write_decimal;
use crate::sysfs;
use crate::sysfs::read_attr_upwards;
use crate::text;
use crate::text::as_opt_str;
use crate::udev::UdevEvent;
use crate::udev::UdevEventView;

verus! {

/// What is known of a device at one event.
#[derive(Debug)]
pub struct DeviceSnapshot {
    pub key: String,
    pub timestamp_ms: u128,
    pub action: String,
    pub devpath: String,
    pub bus_topology: Option<String>,
    pub vendor_id: Option<String>,
    pub product_id: Option<String>,
    pub serial: Option<String>,
    pub device_class: Option<String>,
    pub device_subclass: Option<String>,
    pub device_protocol: Option<String>,
    pub manufacturer: Option<String>,
    pub product: Option<String>,
    pub port_id: Option<String>,
}

/// The contents of a [`DeviceSnapshot`].
pub struct SnapshotView {
    pub key: Seq<char>,
    pub timestamp_ms: u128,
    pub action: Seq<char>,
    pub devpath: Seq<char>,
    pub bus_topology: Option<Seq<char>>,
    pub vendor_id: Option<Seq<char>>,
    pub product_id: Option<Seq<char>>,
    pub serial: Option<Seq<char>>,
    pub device_class: Option<Seq<char>>,
    pub device_subclass: Option<Seq<char>>,
    pub device_protocol: Option<Seq<char>>,
    pub manufacturer: Option<Seq<char>>,
    pub product: Option<Seq<char>>,
    pub port_id: Option<Seq<char>>,
}

impl View for DeviceSnapshot {
    type V = SnapshotView;

    open spec fn view(&self) -> SnapshotView {
        SnapshotView {
            key: self.key@,
            timestamp_ms: self.timestamp_ms,
            action: self.action@,
            devpath: self.devpath@,
            bus_topology: text::opt_view(self.bus_topology),
            vendor_id: text::opt_view(self.vendor_id),
            product_id: text::opt_view(self.product_id),
            serial: text::opt_view(self.serial),
            device_class: text::opt_view(self.device_class),
            device_subclass: text::opt_view(self.device_subclass),
            device_protocol: text::opt_view(self.device_protocol),
            manufacturer: text::opt_view(self.manufacturer),
            product: text::opt_view(self.product),
            port_id: text::opt_view(self.port_id),
        }
    }
}

/// The same snapshot once more.
pub fn duplicate(snapshot: &DeviceSnapshot) -> (copy: DeviceSnapshot)
    ensures
        copy@ == snapshot@,
{
    DeviceSnapshot {
        key: snapshot.key.clone(),
        timestamp_ms: snapshot.timestamp_ms,
        action: snapshot.action.clone(),
        devpath: snapshot.devpath.clone(),
        bus_topology: snapshot.bus_topology.clone(),
        vendor_id: snapshot.vendor_id.clone(),
        product_id: snapshot.product_id.clone(),
        serial: snapshot.serial.clone(),
        device_class: snapshot.device_class.clone(),
        device_subclass: snapshot.device_subclass.clone(),
        device_protocol: snapshot.device_protocol.clone(),
        manufacturer: snapshot.manufacturer.clone(),
        product: snapshot.product.clone(),
        port_id: snapshot.port_id.clone(),
    }
}

/// What was read of the attribute files of a device: for each attribute, its candidate files in
/// their order, as far as they were read.
pub struct DeviceReads {
    pub vendor_id: Vec<Option<String>>,
    pub product_id: Vec<Option<String>>,
    pub serial: Vec<Option<String>>,
    pub device_class: Vec<Option<String>>,
    pub device_subclass: Vec<Option<String>>,
    pub device_protocol: Vec<Option<String>>,
    pub manufacturer: Vec<Option<String>>,
    pub product: Vec<Option<String>>,
    pub bus_number: Vec<Option<String>>,
    pub device_number: Vec<Option<String>>,
}

/// The attributes that [`DeviceReads`] give.
pub struct AttributesView {
    pub vendor_id: Option<Seq<char>>,
    pub product_id: Option<Seq<char>>,
    pub serial: Option<Seq<char>>,
    pub device_class: Option<Seq<char>>,
    pub device_subclass: Option<Seq<char>>,
    pub device_protocol: Option<Seq<char>>,
    pub manufacturer: Option<Seq<char>>,
    pub product: Option<Seq<char>>,
    pub bus_number: Option<Seq<char>>,
    pub device_number: Option<Seq<char>>,
}

/// The attribute that a list of reads gives.
pub open spec fn attribute_value(reads: Vec<Option<String>>) -> Option<Seq<char>> {
    sysfs::first_usable(sysfs::read_views(reads@))
}

impl View for DeviceReads {
    type V = AttributesView;

    open spec fn view(&self) -> AttributesView {
        AttributesView {
            vendor_id: attribute_value(self.vendor_id),
            product_id: attribute_value(self.product_id),
            serial: attribute_value(self.serial),
            device_class: attribute_value(self.device_class),
            device_subclass: attribute_value(self.device_subclass),
            device_protocol: attribute_value(self.device_protocol),
            manufacturer: attribute_value(self.manufacturer),
            product: attribute_value(self.product),
            bus_number: attribute_value(self.bus_number),
            device_number: attribute_value(self.device_number),
        }
    }
}

/// The attributes of a device that sysfs holds.
#[derive(Debug, Clone, Copy)]
pub enum Attribute {
    VendorId,
    ProductId,
    Serial,
    DeviceClass,
    DeviceSubclass,
    DeviceProtocol,
    Manufacturer,
    Product,
    BusNumber,
    DeviceNumber,
}

impl Attribute {
    /// The name of the file that holds the attribute.
    pub open spec fn name(self) -> Seq<char> {
        match self {
            Attribute::VendorId => "idVendor"@,
            Attribute::ProductId => "idProduct"@,
            Attribute::Serial => "serial"@,
            Attribute::DeviceClass => "bDeviceClass"@,
            Attribute::DeviceSubclass => "bDeviceSubClass"@,
            Attribute::DeviceProtocol => "bDeviceProtocol"@,
            Attribute::Manufacturer => "manufacturer"@,
            Attribute::Product => "product"@,
            Attribute::BusNumber => "busnum"@,
            Attribute::DeviceNumber => "devnum"@,
        }
    }

    /// The name of the file that holds the attribute.
    pub fn file_name(&self) -> (name: &'static str)
        ensures
            name@ == self.name(),
    {
        match self {
            Attribute::VendorId => "idVendor",
            Attribute::ProductId => "idProduct",
            Attribute::Serial => "serial",
            Attribute::DeviceClass => "bDeviceClass",
            Attribute::DeviceSubclass => "bDeviceSubClass",
            Attribute::DeviceProtocol => "bDeviceProtocol",
            Attribute::Manufacturer => "manufacturer",
            Attribute::Product => "product",
            Attribute::BusNumber => "busnum",
            Attribute::DeviceNumber => "devnum",
        }
    }
}

/// Where a device hangs on the bus.
pub open spec fn topology(bus: Option<Seq<char>>, device: Option<Seq<char>>) -> Option<Seq<char>> {
    match (bus, device) {
        (Some(b), Some(d)) => Some("bus "@ + b + " dev "@ + d),
        (Some(b), None) => Some("bus "@ + b),
        (None, Some(d)) => Some("dev "@ + d),
        (None, None) => None,
    }
}

/// The key under which a device is known: by serial number, else by vendor and product, else by
/// device path.
pub open spec fn stable_key(
    devpath: Seq<char>,
    vendor_id: Option<Seq<char>>,
    product_id: Option<Seq<char>>,
    serial: Option<Seq<char>>,
) -> Seq<char> {
    if serial is Some && serial->0.len() > 0 {
        "serial:"@ + serial->0
    } else if vendor_id is Some && product_id is Some {
        "vidpid:"@ + vendor_id->0 + ":"@ + product_id->0
    } else {
        "devpath:"@ + devpath
    }
}

/// The key of a device as far as the properties of an event give one.
pub open spec fn event_key(event: UdevEventView) -> Option<Seq<char>> {
    let vendor = event.property_or_empty("ID_VENDOR_ID"@);
    let product = event.property_or_empty("ID_MODEL_ID"@);
    let serial = event.property_or_empty("ID_SERIAL_SHORT"@);
    let devpath = event.property_or_empty("DEVPATH"@);
    if serial.len() > 0 {
        Some("serial:"@ + serial)
    } else if vendor.len() > 0 && product.len() > 0 {
        Some("vidpid:"@ + vendor + ":"@ + product)
    } else if devpath.len() > 0 {
        Some("devpath:"@ + devpath)
    } else {
        None
    }
}

/// The port that an event names.
pub open spec fn event_port(event: UdevEventView) -> Option<Seq<char>> {
    match event.property("ID_PATH"@) {
        Some(path) => Some(path),
        None => event.property("ID_PATH_TAG"@),
    }
}

/// What is known of a device at an event.
pub open spec fn captured(
    event: UdevEventView,
    action: Seq<char>,
    devpath: Seq<char>,
    attributes: AttributesView,
    now: u128,
) -> SnapshotView {
    SnapshotView {
        key: stable_key(devpath, attributes.vendor_id, attributes.product_id, attributes.serial),
        timestamp_ms: now,
        action,
        devpath,
        bus_topology: topology(attributes.bus_number, attributes.device_number),
        vendor_id: attributes.vendor_id,
        product_id: attributes.product_id,
        serial: attributes.serial,
        device_class: attributes.device_class,
        device_subclass: attributes.device_subclass,
        device_protocol: attributes.device_protocol,
        manufacturer: attributes.manufacturer,
        product: attributes.product,
        port_id: event_port(event),
    }
}

/// The key under which a device is known.
pub fn stable_device_key(
    devpath: &str,
    vendor_id: Option<&str>,
    product_id: Option<&str>,
    serial: Option<&str>,
) -> (key: String)
    ensures
        key@ == stable_key(
            devpath@,
            text::opt_str_view(vendor_id),
            text::opt_str_view(product_id),
            text::opt_str_view(serial),
        ),
{
    if let Some(s) = serial {
        if !s.is_empty() {
            let mut key = "serial:".to_owned();
            key.append(s);
            return key;
        }
    }
    if let (Some(v), Some(p)) = (vendor_id, product_id) {
        let mut key = "vidpid:".to_owned();
        key.append(v);
        key.append(":");
        key.append(p);
        return key;
    }
    let mut key = "devpath:".to_owned();
    key.append(devpath);
    key
}

/// The value of a property of an event; empty where it is absent.
fn property_or_empty<'a>(event: &'a UdevEvent, name: &str) -> (value: &'a str)
    ensures
        value@ == event@.property_or_empty(name@),
{
    match event.property(name) {
        Some(value) => value,
        None => {
            proof {
                reveal_strlit("");
                assert(""@ == Seq::<char>::empty());
            }
            ""
        },
    }
}

/// The key of a device as far as the properties of an event give one.
pub fn derive_key_from_event(event: &UdevEvent) -> (key: Option<String>)
    ensures
        text::opt_view(key) == event_key(event@),
{
    let vendor = property_or_empty(event, "ID_VENDOR_ID");
    let product = property_or_empty(event, "ID_MODEL_ID");
    let serial = property_or_empty(event, "ID_SERIAL_SHORT");
    let devpath = property_or_empty(event, "DEVPATH");
    if !serial.is_empty() {
        let mut key = "serial:".to_owned();
        key.append(serial);
        Some(key)
    } else if !vendor.is_empty() && !product.is_empty() {
        let mut key = "vidpid:".to_owned();
        key.append(vendor);
        key.append(":");
        key.append(product);
        Some(key)
    } else if !devpath.is_empty() {
        let mut key = "devpath:".to_owned();
        key.append(devpath);
        Some(key)
    } else {
        None
    }
}

/// Where a device hangs on the bus.
fn bus_topology(bus: &Option<String>, device: &Option<String>) -> (result: Option<String>)
    ensures
        text::opt_view(result) == topology(text::opt_view(*bus), text::opt_view(*device)),
{
    match (bus, device) {
        (Some(b), Some(d)) => {
            let mut s = "bus ".to_owned();
            s.append(b.as_str());
            s.append(" dev ");
            s.append(d.as_str());
            Some(s)
        },
        (Some(b), None) => {
            let mut s = "bus ".to_owned();
            s.append(b.as_str());
            Some(s)
        },
        (None, Some(d)) => {
            let mut s = "dev ".to_owned();
            s.append(d.as_str());
            Some(s)
        },
        (None, None) => None,
    }
}

/// An owned copy of an optional string slice.
fn owned(s: Option<&str>) -> (result: Option<String>)
    ensures
        text::opt_view(result) == text::opt_str_view(s),
{
    match s {
        Some(inner) => Some(inner.to_owned()),
        None => None,
    }
}

/// What is known of a device at an event, which is read at the time `now`.
pub fn capture_device_snapshot_at(
    event: &UdevEvent,
    action: &str,
    devpath: &str,
    reads: &DeviceReads,
    now: u128,
) -> (snapshot: DeviceSnapshot)
    ensures
        snapshot@ == captured(event@, action@, devpath@, reads@, now),
        snapshot.timestamp_ms == now,
        snapshot.action@ == action@,
        snapshot.devpath@ == devpath@,
        text::opt_view(snapshot.vendor_id) == sysfs::first_usable(
            sysfs::read_views(reads.vendor_id@),
        ),
        text::opt_view(snapshot.product_id) == sysfs::first_usable(
            sysfs::read_views(reads.product_id@),
        ),
        text::opt_view(snapshot.serial) == sysfs::first_usable(
            sysfs::read_views(reads.serial@),
        ),
        text::opt_view(snapshot.device_class) == sysfs::first_usable(
            sysfs::read_views(reads.device_class@),
        ),
        text::opt_view(snapshot.device_subclass) == sysfs::first_usable(
            sysfs::read_views(reads.device_subclass@),
        ),
        text::opt_view(snapshot.device_protocol) == sysfs::first_usable(
            sysfs::read_views(reads.device_protocol@),
        ),
        text::opt_view(snapshot.manufacturer) == sysfs::first_usable(
            sysfs::read_views(reads.manufacturer@),
        ),
        text::opt_view(snapshot.product) == sysfs::first_usable(
            sysfs::read_views(reads.product@),
        ),
        text::opt_view(snapshot.bus_topology) == topology(
            sysfs::first_usable(sysfs::read_views(reads.bus_number@)),
            sysfs::first_usable(sysfs::read_views(reads.device_number@)),
        ),
        text::opt_view(snapshot.port_id) == event_port(event@),
        snapshot.key@ == stable_key(
            devpath@,
            sysfs::first_usable(sysfs::read_views(reads.vendor_id@)),
            sysfs::first_usable(sysfs::read_views(reads.product_id@)),
            sysfs::first_usable(sysfs::read_views(reads.serial@)),
        ),
{
    let vendor_id = read_attr_upwards(&reads.vendor_id);
    let product_id = read_attr_upwards(&reads.product_id);
    let serial = read_attr_upwards(&reads.serial);
    let bus_number = read_attr_upwards(&reads.bus_number);
    let device_number = read_attr_upwards(&reads.device_number);
    let key = stable_device_key(
        devpath,
        as_opt_str(&vendor_id),
        as_opt_str(&product_id),
        as_opt_str(&serial),
    );
    let port_id = match event.property("ID_PATH") {
        Some(path) => Some(path.to_owned()),
        None => owned(event.property("ID_PATH_TAG")),
    };
    DeviceSnapshot {
        key,
        timestamp_ms: now,
        action: action.to_owned(),
        devpath: devpath.to_owned(),
        bus_topology: bus_topology(&bus_number, &device_number),
        vendor_id,
        product_id,
        serial,
        device_class: read_attr_upwards(&reads.device_class),
        device_subclass: read_attr_upwards(&reads.device_subclass),
        device_protocol: read_attr_upwards(&reads.device_protocol),
        manufacturer: read_attr_upwards(&reads.manufacturer),
        product: read_attr_upwards(&reads.product),
        port_id,
    }
}

/// What is known of a device at an event, at the present time.
pub fn capture_device_snapshot(
    event: &UdevEvent,
    action: &str,
    devpath: &str,
    reads: &DeviceReads,
) -> (snapshot: DeviceSnapshot)
    ensures
        exists|reading: ClockReading| #[trigger]
            reading.wf() && snapshot@ == captured(
                event@,
                action@,
                devpath@,
                reads@,
                reading.in_millis() as u128,
            ) && snapshot.timestamp_ms == reading.in_millis(),
        snapshot.action@ == action@,
        snapshot.devpath@ == devpath@,
        text::opt_view(snapshot.vendor_id) == sysfs::first_usable(
            sysfs::read_views(reads.vendor_id@),
        ),
        text::opt_view(snapshot.product_id) == sysfs::first_usable(
            sysfs::read_views(reads.product_id@),
        ),
        text::opt_view(snapshot.serial) == sysfs::first_usable(
            sysfs::read_views(reads.serial@),
        ),
        text::opt_view(snapshot.device_class) == sysfs::first_usable(
            sysfs::read_views(reads.device_class@),
        ),
        text::opt_view(snapshot.device_subclass) == sysfs::first_usable(
            sysfs::read_views(reads.device_subclass@),
        ),
        text::opt_view(snapshot.device_protocol) == sysfs::first_usable(
            sysfs::read_views(reads.device_protocol@),
        ),
        text::opt_view(snapshot.manufacturer) == sysfs::first_usable(
            sysfs::read_views(reads.manufacturer@),
        ),
        text::opt_view(snapshot.product) == sysfs::first_usable(
            sysfs::read_views(reads.product@),
        ),
        text::opt_view(snapshot.bus_topology) == topology(
            sysfs::first_usable(sysfs::read_views(reads.bus_number@)),
            sysfs::first_usable(sysfs::read_views(reads.device_number@)),
        ),
        text::opt_view(snapshot.port_id) == event_port(event@),
        snapshot.key@ == stable_key(
            devpath@,
            sysfs::first_usable(sysfs::read_views(reads.vendor_id@)),
            sysfs::first_usable(sysfs::read_views(reads.product_id@)),
            sysfs::first_usable(sysfs::read_views(reads.serial@)),
        ),
{
    let now: u128 = current_timestamp_ms();
    capture_device_snapshot_at(event, action, devpath, reads, now)
}

/// A field of the diagnostic line: its label, and its value or `unknown`.
pub open spec fn diagnostic_field(label: Seq<char>, value: Option<Seq<char>>) -> Seq<char> {
    label + text::text_or(value, "unknown"@)
}

/// The diagnostic line of a device event.
pub open spec fn diagnostic_line(snapshot: SnapshotView) -> Seq<char> {
    "["@ + digits::decimal(snapshot.timestamp_ms as nat) + "] usb "@ + snapshot.action + " key="@
        + snapshot.key + " devpath="@ + snapshot.devpath + diagnostic_field(
        " topology="@,
        snapshot.bus_topology,
    ) + diagnostic_field(" vid="@, snapshot.vendor_id) + diagnostic_field(
        " pid="@,
        snapshot.product_id,
    ) + diagnostic_field(" serial="@, snapshot.serial) + diagnostic_field(
        " class="@,
        snapshot.device_class,
    ) + diagnostic_field(" subclass="@, snapshot.device_subclass) + diagnostic_field(
        " protocol="@,
        snapshot.device_protocol,
    ) + diagnostic_field(" manufacturer="@, snapshot.manufacturer) + diagnostic_field(
        " product="@,
        snapshot.product,
    ) + diagnostic_field(" port="@, snapshot.port_id)
}

/// Appends a field of the diagnostic line.
fn append_field(line: &mut String, label: &str, value: &Option<String>)
    ensures
        final(line)@ == old(line)@ + diagnostic_field(label@, text::opt_view(*value)),
{
    line.append(label);
    match value {
        Some(inner) => line.append(inner.as_str()),
        None => line.append("unknown"),
    }
    assert(line@ == old(line)@ + diagnostic_field(label@, text::opt_view(*value)));
}

/// The diagnostic line of a device event.
pub fn log_usb_event(snapshot: &DeviceSnapshot) -> (line: String)
    ensures
        line@ == diagnostic_line(snapshot@),
{
    let mut line = "[".to_owned();
    line.append(write_decimal(snapshot.timestamp_ms).as_str());
    line.append("] usb ");
    line.append(snapshot.action.as_str());
    line.append(" key=");
    line.append(snapshot.key.as_str());
    line.append(" devpath=");
    line.append(snapshot.devpath.as_str());
    append_field(&mut line, " topology=", &snapshot.bus_topology);
    append_field(&mut line, " vid=", &snapshot.vendor_id);
    append_field(&mut line, " pid=", &snapshot.product_id);
    append_field(&mut line, " serial=", &snapshot.serial);
    append_field(&mut line, " class=", &snapshot.device_class);
    append_field(&mut line, " subclass=", &snapshot.device_subclass);
    append_field(&mut line, " protocol=", &snapshot.device_protocol);
    append_field(&mut line, " manufacturer=", &snapshot.manufacturer);
    append_field(&mut line, " product=", &snapshot.product);
    append_field(&mut line, " port=", &snapshot.port_id);
    line
}

/// The serial number that was read of a device is not empty.
pub open spec fn has_usable_serial(attributes: AttributesView) -> bool {
    attributes.serial is Some ==> attributes.serial->0.len() > 0
}

/// A serial number that was read is never empty.
pub proof fn lemma_serial_is_usable(reads: DeviceReads)
    ensures
        has_usable_serial(reads@),
{
    sysfs::lemma_first_usable_not_empty(sysfs::read_views(reads.serial@));
}

/// The key of a device tells its serial number: snapshots with the same key carry the same serial
/// number, or both carry none.
pub proof fn lemma_key_fixes_serial(
    devpath_a: Seq<char>,
    devpath_b: Seq<char>,
    a: AttributesView,
    b: AttributesView,
)
    requires
        has_usable_serial(a),
        has_usable_serial(b),
        stable_key(devpath_a, a.vendor_id, a.product_id, a.serial) == stable_key(
            devpath_b,
            b.vendor_id,
            b.product_id,
            b.serial,
        ),
    ensures
        a.serial == b.serial,
{
    reveal_strlit("serial:");
    reveal_strlit("vidpid:");
    reveal_strlit("devpath:");
    let key_a = stable_key(devpath_a, a.vendor_id, a.product_id, a.serial);
    let key_b = stable_key(devpath_b, b.vendor_id, b.product_id, b.serial);
    assert("serial:"@[0] == 's');
    assert("vidpid:"@[0] == 'v');
    assert("devpath:"@[0] == 'd');
    assert(a.serial is Some <==> key_a[0] == 's');
    assert(b.serial is Some <==> key_b[0] == 's');
    if a.serial is Some {
        assert(key_a.skip(7) == a.serial->0);
        assert(key_b.skip(7) == b.serial->0);
    }
}

} // verus!
