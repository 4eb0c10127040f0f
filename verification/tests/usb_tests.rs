use usb_sensor::byte_order::ByteOrder;
use usb_sensor::anomaly::AnomalyClock;
use usb_sensor::class_policy::{check_unauthorized_class, check_unauthorized_class_at, parse_permitted_classes};
use usb_sensor::clock::Stamp;
use usb_sensor::digest::{build_event_id, build_evidence_hash};
use usb_sensor::incident::{incident_record_to_json, severity_id_for, IncidentRecord, SensorIdentity};
use usb_sensor::snapshot::{capture_device_snapshot, capture_device_snapshot_at, derive_key_from_event};
use usb_sensor::snapshot::{log_usb_event, stable_device_key, Attribute, DeviceReads, DeviceSnapshot};
use usb_sensor::sysfs::{attribute_candidates, parent, read_attr_upwards, sysfs_path_from_devpath};
use usb_sensor::udev::{feed_line, finish, is_udev_header, known_action, parse_action_from_header, UdevEvent};
use usb_sensor::usb_incidents::{log_enum_burst, log_flapping, log_malformed_event, log_typed_anomaly};
use usb_sensor::usb_incidents::log_usb_lifecycle_event;
use usb_sensor::usb_monitor::{classify, process_snapshot, process_snapshot_at, process_udev_event};
use usb_sensor::usb_monitor::{process_udev_event_at, report_turn, share_path, DeviceTracker};
use usb_sensor::usb_monitor::{DeviceAction, EventClock, EventKind, Lifecycle};

fn order() -> ByteOrder {
    if 1u16.to_ne_bytes()[0] == 1 {
        ByteOrder::Little
    } else {
        ByteOrder::Big
    }
}

fn identity() -> SensorIdentity {
    SensorIdentity { sensor_id: "s".to_owned(), ecu_id: "e".to_owned(), byte_order: order() }
}

fn stamp(millis: u128) -> Stamp {
    Stamp { millis, timestamp: "2026-07-20T06:46:00Z".to_owned() }
}

fn clock(millis: u128) -> EventClock {
    EventClock {
        malformed: stamp(millis),
        burst_ms: millis,
        burst: stamp(millis),
        flap_ms: millis,
        flap: stamp(millis),
        turn: stamp(millis),
    }
}

fn anomaly_clock() -> AnomalyClock {
    AnomalyClock {
        topology: "t3".to_owned(),
        class: "t4".to_owned(),
        serial: "t5".to_owned(),
        devpath: "t6".to_owned(),
    }
}

fn event(properties: &[(&str, &str)]) -> UdevEvent {
    let mut event = UdevEvent::new();
    for (name, value) in properties {
        event.set_property(name.to_string(), value.to_string());
    }
    event
}

fn plug(devpath: &str) -> UdevEvent {
    event(&[("ACTION", "add"), ("DEVPATH", devpath)])
}

fn unplug(devpath: &str) -> UdevEvent {
    event(&[("ACTION", "remove"), ("DEVPATH", devpath)])
}

fn snapshot(key: &str, action: &str) -> DeviceSnapshot {
    DeviceSnapshot {
        key: key.to_owned(),
        timestamp_ms: 42,
        action: action.to_owned(),
        devpath: "/devices/usb1/1-2".to_owned(),
        bus_topology: Some("bus 1 dev 2".to_owned()),
        vendor_id: Some("0781".to_owned()),
        product_id: Some("5581".to_owned()),
        serial: Some("AB12".to_owned()),
        device_class: Some("00".to_owned()),
        device_subclass: Some("00".to_owned()),
        device_protocol: None,
        manufacturer: None,
        product: None,
        port_id: Some("pci-0:2".to_owned()),
    }
}

fn no_reads() -> DeviceReads {
    DeviceReads {
        vendor_id: vec![],
        product_id: vec![],
        serial: vec![],
        device_class: vec![],
        device_subclass: vec![],
        device_protocol: vec![],
        manufacturer: vec![],
        product: vec![],
        bus_number: vec![],
        device_number: vec![],
    }
}

fn one(text: &str) -> Vec<Option<String>> {
    vec![Some(text.to_owned())]
}

fn types(incidents: &[IncidentRecord]) -> Vec<u8> {
    incidents.iter().map(|i| i.incident_type_id).collect()
}

fn taxonomy(record: &IncidentRecord) {
    let severity = match record.incident_type_id {
        1 | 2 | 9 => "low",
        7 | 10 | 12 | 14 | 16 => "medium",
        3 | 6 | 8 | 11 => "high",
        4 | 5 | 13 | 15 | 17 => "critical",
        _ => panic!("no such type"),
    };
    assert_eq!(record.severity, severity);
    assert_eq!(record.severity_id, severity_id_for(severity));
}

#[test]
fn headers() {
    assert!(is_udev_header("KERNEL[123.4] add      /devices/usb1 (usb)"));
    assert!(is_udev_header("UDEV  [123.4] bind     /devices/usb1 (usb)"));
    assert!(!is_udev_header("UDEV - the event which udev sends out after rule processing"));
    assert!(!is_udev_header("KERNEL - the kernel uevent"));
    assert!(!is_udev_header("ACTION=add"));
}

#[test]
fn actions_in_headers() {
    assert_eq!(parse_action_from_header("KERNEL[1] add /x").as_deref(), Some("add"));
    assert_eq!(parse_action_from_header("KERNEL[1] remove /x").as_deref(), Some("remove"));
    assert_eq!(parse_action_from_header("KERNEL[1] change /x").as_deref(), Some("change"));
    assert_eq!(parse_action_from_header("KERNEL[1] bind /x").as_deref(), Some("bind"));
    assert_eq!(parse_action_from_header("KERNEL[1] move /x"), None);
}

#[test]
fn unbind_in_a_header_is_a_disconnect() {
    let header = "UDEV  [1.0] unbind   /devices/x (usb)";
    assert_eq!(parse_action_from_header(header).as_deref(), Some("unbind"));
    let mut tracker = DeviceTracker::new();
    let mut gone = UdevEvent::new();
    gone.header = Some(header.to_owned());
    let outcome = process_udev_event_at(&gone, &mut tracker, &clock(1), &identity());
    assert_eq!(outcome.turn, Some(Lifecycle::Disconnected));
}

#[test]
fn known_actions() {
    for action in ["add", "bind", "remove", "detach", "unbind", "change"] {
        assert!(known_action(action));
    }
    for action in ["", "bogus", "ADD", "move"] {
        assert!(!known_action(action));
    }
}

#[test]
fn an_action_comes_from_property_header_or_default() {
    let mut read = event(&[("ACTION", "remove")]);
    read.header = Some("KERNEL[1] add /x".to_owned());
    assert_eq!(read.action(), "remove");
    let mut bare = UdevEvent::new();
    bare.header = Some("KERNEL[1] add /x".to_owned());
    assert_eq!(bare.action(), "add");
    assert_eq!(UdevEvent::new().action(), "change");
    assert_eq!(bare.devpath(), None);
    assert_eq!(plug("/d").devpath(), Some("/d"));
}

#[test]
fn events_from_lines() {
    let lines = [
        "monitor will print the received events for:\n",
        "UDEV - the event which udev sends out after rule processing\n",
        "KERNEL - the kernel uevent\n",
        "\n",
        "KERNEL[1.0] add      /devices/usb1/1-2 (usb)\n",
        "ACTION=add\n",
        " DEVPATH = /devices/usb1/1-2 \n",
        "ID_PATH=a=b\n",
        "UDEV  [1.1] bind     /devices/usb1/1-2 (usb)\n",
        "ACTION=bind\n",
        "\n",
        "ACTION=remove\r\n",
    ];
    let mut current = UdevEvent::new();
    let mut done: Vec<UdevEvent> = Vec::new();
    for line in lines {
        if let Some(completed) = feed_line(&mut current, line) {
            done.push(completed);
        }
    }
    if let Some(last) = finish(current) {
        done.push(last);
    }
    assert_eq!(done.len(), 3);
    assert_eq!(
        done[0].header.as_deref(),
        Some("KERNEL[1.0] add      /devices/usb1/1-2 (usb)")
    );
    assert_eq!(done[0].property("DEVPATH"), Some("/devices/usb1/1-2"));
    assert_eq!(done[0].property("ID_PATH"), Some("a=b"));
    assert_eq!(done[1].action(), "bind");
    assert_eq!(done[1].property("ID_PATH"), None);
    assert_eq!(done[2].header, None);
    assert_eq!(done[2].action(), "remove");
}

#[test]
fn an_empty_stream_gives_no_event() {
    let mut current = UdevEvent::default();
    assert!(!current.has_data());
    assert!(feed_line(&mut current, "\n").is_none());
    assert!(feed_line(&mut current, "no property\n").is_none());
    assert!(finish(current).is_none());
}

#[test]
fn kinds_of_actions() {
    assert_eq!(classify("add"), EventKind::Plug);
    assert_eq!(classify("bind"), EventKind::Plug);
    assert_eq!(classify("remove"), EventKind::Unplug);
    assert_eq!(classify("detach"), EventKind::Unplug);
    assert_eq!(classify("unbind"), EventKind::Unplug);
    assert_eq!(classify("change"), EventKind::Change);
    assert_eq!(classify("move"), EventKind::Change);
}

#[test]
fn device_keys() {
    assert_eq!(stable_device_key("/d", Some("v"), Some("p"), Some("s")), "serial:s");
    assert_eq!(stable_device_key("/d", Some("v"), Some("p"), Some("")), "vidpid:v:p");
    assert_eq!(stable_device_key("/d", Some("v"), Some("p"), None), "vidpid:v:p");
    assert_eq!(stable_device_key("/d", Some("v"), None, None), "devpath:/d");
}

#[test]
fn event_keys() {
    let full = event(&[
        ("ID_VENDOR_ID", "v"),
        ("ID_MODEL_ID", "p"),
        ("ID_SERIAL_SHORT", "s"),
        ("DEVPATH", "/d"),
    ]);
    assert_eq!(derive_key_from_event(&full).as_deref(), Some("serial:s"));
    let model = event(&[("ID_VENDOR_ID", "v"), ("ID_MODEL_ID", "p"), ("ID_SERIAL_SHORT", "")]);
    assert_eq!(derive_key_from_event(&model).as_deref(), Some("vidpid:v:p"));
    let half = event(&[("ID_VENDOR_ID", "v"), ("DEVPATH", "/d")]);
    assert_eq!(derive_key_from_event(&half).as_deref(), Some("devpath:/d"));
    assert_eq!(derive_key_from_event(&event(&[("DEVPATH", "")])), None);
}

#[test]
fn sysfs_paths() {
    assert_eq!(sysfs_path_from_devpath("/devices/usb1"), "/sys/devices/usb1");
    assert_eq!(sysfs_path_from_devpath("//devices"), "/sys/devices");
    assert_eq!(sysfs_path_from_devpath("devices"), "/sys/devices");
    assert_eq!(sysfs_path_from_devpath(""), "/sys/");
    assert_eq!(parent("/sys/devices").as_deref(), Some("/sys"));
    assert_eq!(parent("/sys/").as_deref(), Some("/"));
    assert_eq!(parent("/"), None);
}

#[test]
fn parents_agree_with_the_standard_library() {
    for path in ["/a/b/c", "/a//b", "/a/./b", "/a/b/.", "/a/b/", "/./a", "//", "/a", "/..", "/a/../b/"] {
        let expected = std::path::Path::new(path).parent().map(|p| p.to_str().unwrap().to_owned());
        assert_eq!(parent(path), expected);
    }
}

#[test]
fn candidate_files() {
    assert_eq!(
        attribute_candidates("/devices/usb1", Attribute::VendorId.file_name()),
        vec![
            "/sys/devices/usb1/idVendor",
            "/sys/devices/idVendor",
            "/sys/idVendor",
            "/idVendor",
        ]
    );
    assert_eq!(attribute_candidates("", "serial"), vec!["/sys/serial", "/serial"]);
}

#[test]
fn the_first_usable_read_wins() {
    assert_eq!(read_attr_upwards(&vec![]), None);
    assert_eq!(
        read_attr_upwards(&vec![None, Some(" \n".to_owned()), Some(" 0781\n".to_owned()), Some("x".to_owned())])
            .as_deref(),
        Some("0781")
    );
    assert_eq!(read_attr_upwards(&vec![None, Some("".to_owned())]), None);
}

#[test]
fn attribute_names() {
    assert_eq!(Attribute::ProductId.file_name(), "idProduct");
    assert_eq!(Attribute::Serial.file_name(), "serial");
    assert_eq!(Attribute::DeviceClass.file_name(), "bDeviceClass");
    assert_eq!(Attribute::DeviceSubclass.file_name(), "bDeviceSubClass");
    assert_eq!(Attribute::DeviceProtocol.file_name(), "bDeviceProtocol");
    assert_eq!(Attribute::Manufacturer.file_name(), "manufacturer");
    assert_eq!(Attribute::Product.file_name(), "product");
    assert_eq!(Attribute::BusNumber.file_name(), "busnum");
    assert_eq!(Attribute::DeviceNumber.file_name(), "devnum");
}

#[test]
fn a_captured_snapshot() {
    let mut reads = no_reads();
    reads.vendor_id = one("0781\n");
    reads.product_id = one("5581\n");
    reads.bus_number = one("1\n");
    reads.device_number = one("7\n");
    reads.manufacturer = one("SanDisk\n");
    let seen = event(&[("ID_PATH_TAG", "tag")]);
    let taken = capture_device_snapshot_at(&seen, "add", "/d", &reads, 5);
    assert_eq!(taken.key, "vidpid:0781:5581");
    assert_eq!(taken.timestamp_ms, 5);
    assert_eq!(taken.bus_topology.as_deref(), Some("bus 1 dev 7"));
    assert_eq!(taken.manufacturer.as_deref(), Some("SanDisk"));
    assert_eq!(taken.serial, None);
    assert_eq!(taken.port_id.as_deref(), Some("tag"));
    assert_eq!(
        log_usb_event(&taken),
        "[5] usb add key=vidpid:0781:5581 devpath=/d topology=bus 1 dev 7 vid=0781 pid=5581 serial=unknown class=unknown subclass=unknown protocol=unknown manufacturer=SanDisk product=unknown port=tag"
    );
}

#[test]
fn bus_topologies() {
    let seen = event(&[("ID_PATH", "path"), ("ID_PATH_TAG", "tag")]);
    let mut reads = no_reads();
    reads.bus_number = one("1");
    let bus = capture_device_snapshot(&seen, "add", "/d", &reads);
    assert_eq!(bus.bus_topology.as_deref(), Some("bus 1"));
    assert_eq!(bus.port_id.as_deref(), Some("path"));
    assert_eq!(bus.key, "devpath:/d");
    reads.bus_number = vec![];
    reads.device_number = one("2");
    let dev = capture_device_snapshot(&seen, "add", "/d", &reads);
    assert_eq!(dev.bus_topology.as_deref(), Some("dev 2"));
    let none = capture_device_snapshot(&seen, "add", "/d", &no_reads());
    assert_eq!(none.bus_topology, None);
}

#[test]
fn snapshots_with_one_key_have_one_serial() {
    let seen = plug("/d");
    let mut reads = no_reads();
    reads.vendor_id = one("v");
    reads.product_id = one("p");
    let without = capture_device_snapshot_at(&seen, "add", "/d", &reads, 1);
    reads.serial = one("s");
    let with = capture_device_snapshot_at(&seen, "add", "/d", &reads, 1);
    assert_ne!(without.key, with.key);
}

#[test]
fn lifecycle_incidents() {
    let seen = plug("/d");
    let record =
        log_usb_lifecycle_event(&seen, 1, "connected", "low", "watcher_started", &stamp(9), &identity());
    assert_eq!(record.event_id, build_event_id("USB_LIFECYCLE", "/d", 9, order()));
    assert_eq!(record.source, "/d");
    assert_eq!(record.confidence, 100);
    assert_eq!(record.evidence_hash, build_evidence_hash("/d", "connected", "watcher_started"));
    assert_eq!((record.bus_type.as_str(), record.can_id.as_str(), record.direction.as_str()), ("USB", "n/a", "rx"));
    assert_eq!((record.sensor_id.as_str(), record.ecu_id.as_str()), ("s", "e"));
    taxonomy(&record);
    let pathless = event(&[("ACTION", "add")]);
    let record =
        log_usb_lifecycle_event(&pathless, 1, "connected", "low", "watcher_started", &stamp(9), &identity());
    assert_eq!(record.source, "unknown");
}

#[test]
fn turn_incidents() {
    let seen = plug("/d");
    let started = report_turn(&seen, Lifecycle::Connected, &stamp(1), &identity());
    assert_eq!(started.incident_type_id, 1);
    assert_eq!(started.signature, "connected");
    assert_eq!(started.action_hint, "watcher_started");
    taxonomy(&started);
    let stopped = report_turn(&seen, Lifecycle::Disconnected, &stamp(1), &identity());
    assert_eq!(stopped.incident_type_id, 2);
    assert_eq!(stopped.signature, "disconnected");
    assert_eq!(stopped.action_hint, "watcher_stopped");
    taxonomy(&stopped);
}

#[test]
fn the_first_unplug_is_reported_though_nothing_was_plugged() {
    let mut tracker = DeviceTracker::new();
    let outcome = process_udev_event_at(&unplug("/d"), &mut tracker, &clock(1), &identity());
    assert_eq!(types(&outcome.incidents), vec![2]);
    assert_eq!(outcome.incidents[0].event_id, build_event_id("USB_LIFECYCLE", "/d", 1, order()));
}

#[test]
fn anomaly_prefixes() {
    let device = snapshot("k", "change");
    for (id, prefix) in [
        (3u8, "USB_TOPOLOGY_CHANGE"),
        (4, "USB_CLASS_CHANGE"),
        (5, "USB_SERIAL_CHANGE"),
        (6, "USB_DEVPATH_CHANGE"),
        (7, "USB_ANOMALY"),
    ] {
        let record = log_typed_anomaly(&device, id, "high", "why", "hint", "now", &identity());
        assert_eq!(record.event_id, build_event_id(prefix, "k", 42, order()));
        assert_eq!(record.evidence_hash, build_evidence_hash("k", "why", "/devices/usb1/1-2"));
        assert_eq!(record.usb_class.as_deref(), Some("00"));
        assert_eq!(record.usb_protocol, None);
        assert_eq!(record.confidence, 92);
        assert_eq!(record.timestamp, "now");
    }
}

#[test]
fn flapping_incidents() {
    let record = log_flapping(&plug("/d"), "devpath:/d", 5, &stamp(3), &identity());
    assert_eq!(record.incident_type_id, 7);
    assert_eq!(record.signature, "5 connect/disconnect events within 30 seconds");
    assert_eq!(record.event_id, build_event_id("USB_FLAPPING", "devpath:/d", 3, order()));
    assert_eq!(record.evidence_hash, build_evidence_hash("devpath:/d", &record.signature, "/d"));
    assert_eq!((record.confidence, record.action_hint.as_str()), (85, "investigate_device"));
    taxonomy(&record);
}

#[test]
fn burst_incidents() {
    let record = log_enum_burst(&plug("/d"), 20, &stamp(3), &identity());
    assert_eq!(record.incident_type_id, 16);
    assert_eq!(record.signature, "20 add/bind sub-device events within 10 seconds");
    assert_eq!(record.evidence_hash, build_evidence_hash("/d", &record.signature, "enum_burst"));
    assert_eq!((record.confidence, record.action_hint.as_str()), (75, "investigate_device"));
    taxonomy(&record);
}

#[test]
fn malformed_incidents() {
    let mut bad = UdevEvent::new();
    bad.header = Some("KERNEL[1] \"odd\"".to_owned());
    assert!(bad.is_malformed());
    let record = log_malformed_event(&bad, &stamp(3), &identity());
    assert_eq!(record.incident_type_id, 15);
    assert_eq!(record.source, "KERNEL[1] \"odd\"");
    assert_eq!(
        record.signature,
        "malformed udev event: header=\"KERNEL[1] \\\"odd\\\"\", no action or devpath resolved"
    );
    assert_eq!(
        record.evidence_hash,
        build_evidence_hash("KERNEL[1] \"odd\"", "malformed", "parse_failure")
    );
    assert_eq!((record.confidence, record.action_hint.as_str()), (70, "log_and_alert"));
    taxonomy(&record);
    assert_eq!(log_malformed_event(&UdevEvent::new(), &stamp(3), &identity()).source, "unknown");
}

#[test]
fn what_is_malformed() {
    let mut named = event(&[("DEVPATH", "/d")]);
    named.header = Some("KERNEL[1] odd".to_owned());
    assert!(!named.is_malformed());
    let mut acting = event(&[("ACTION", "add")]);
    acting.header = Some("KERNEL[1] odd".to_owned());
    assert!(!acting.is_malformed());
    assert!(!UdevEvent::new().is_malformed());
    assert!(!event(&[("ACTION", "bogus")]).is_malformed());
}

#[test]
fn an_unknown_action_without_a_device_is_malformed() {
    let mut bogus = event(&[("ACTION", "bogus")]);
    bogus.header = Some("UDEV".to_owned());
    assert!(bogus.is_malformed());
    let mut tracker = DeviceTracker::default();
    let outcome = process_udev_event_at(&bogus, &mut tracker, &clock(1), &identity());
    assert_eq!(types(&outcome.incidents), vec![15]);
    taxonomy(&outcome.incidents[0]);
    bogus.set_property("DEVPATH".to_owned(), "/d".to_owned());
    assert!(!bogus.is_malformed());
}

#[test]
fn a_malformed_event_changes_nothing() {
    let mut tracker = DeviceTracker::new();
    process_udev_event_at(&plug("/d"), &mut tracker, &clock(1), &identity());
    let mut bad = UdevEvent::new();
    bad.header = Some("KERNEL[1] odd".to_owned());
    let outcome = process_udev_event_at(&bad, &mut tracker, &clock(2), &identity());
    assert_eq!(types(&outcome.incidents), vec![15]);
    assert_eq!(outcome.turn, None);
    assert!(outcome.actions.is_empty());
    assert_eq!(tracker.enum_burst_count(), 1);
    let again = process_udev_event_at(&plug("/d"), &mut tracker, &clock(3), &identity());
    assert_eq!(again.turn, None);
}

#[test]
fn a_turn_is_reported_once() {
    let mut tracker = DeviceTracker::default();
    let first = process_udev_event_at(&plug("/d"), &mut tracker, &clock(1), &identity());
    assert_eq!(first.turn, Some(Lifecycle::Connected));
    assert_eq!(types(&first.incidents), vec![1]);
    let bind = event(&[("ACTION", "bind"), ("DEVPATH", "/d/1")]);
    assert_eq!(process_udev_event_at(&bind, &mut tracker, &clock(2), &identity()).turn, None);
    let gone = process_udev_event_at(&unplug("/d"), &mut tracker, &clock(3), &identity());
    assert_eq!(gone.turn, Some(Lifecycle::Disconnected));
    assert_eq!(types(&gone.incidents), vec![2]);
    assert_eq!(process_udev_event_at(&unplug("/d"), &mut tracker, &clock(4), &identity()).turn, None);
    let back = process_udev_event(&plug("/d"), &mut tracker, &identity());
    assert_eq!(back.turn, Some(Lifecycle::Connected));
}

#[test]
fn what_is_to_be_done_about_an_event() {
    let mut tracker = DeviceTracker::new();
    let first = process_udev_event_at(&plug("/d"), &mut tracker, &clock(1), &identity());
    assert_eq!(
        first.actions,
        vec![DeviceAction::StartWatcher, DeviceAction::CheckClass, DeviceAction::LookAtDevice]
    );
    let second = process_udev_event_at(&plug("/d"), &mut tracker, &clock(2), &identity());
    assert_eq!(second.actions, vec![DeviceAction::LookAtDevice]);
    let pathless = event(&[("ACTION", "unbind")]);
    let third = process_udev_event_at(&pathless, &mut tracker, &clock(3), &identity());
    assert_eq!(third.actions, vec![DeviceAction::StopWatcher]);
}

#[test]
fn a_change_reports_afresh() {
    let mut tracker = DeviceTracker::new();
    process_udev_event_at(&plug("/d"), &mut tracker, &clock(1), &identity());
    let change = event(&[("ACTION", "change"), ("DEVPATH", "/d")]);
    assert_eq!(process_udev_event_at(&change, &mut tracker, &clock(2), &identity()).turn, None);
    assert_eq!(tracker.enum_burst_count(), 0);
    let again = process_udev_event_at(&plug("/d"), &mut tracker, &clock(3), &identity());
    assert_eq!(again.turn, Some(Lifecycle::Connected));
}

#[test]
fn a_burst_is_reported_at_the_twentieth_sub_device() {
    let mut tracker = DeviceTracker::new();
    for i in 1u32..=25 {
        let outcome = process_udev_event_at(&plug("/d"), &mut tracker, &clock(i as u128 * 400), &identity());
        let expected: Vec<u8> = if i == 20 {
            vec![16]
        } else if i == 1 {
            vec![1]
        } else {
            vec![]
        };
        assert_eq!(types(&outcome.incidents), expected);
        assert_eq!(tracker.enum_burst_count(), i);
        for incident in &outcome.incidents {
            taxonomy(incident);
        }
    }
}

#[test]
fn a_burst_ends_after_ten_seconds_or_a_disconnect() {
    let mut tracker = DeviceTracker::new();
    process_udev_event_at(&plug("/d"), &mut tracker, &clock(0), &identity());
    process_udev_event_at(&plug("/d"), &mut tracker, &clock(10_000), &identity());
    assert_eq!(tracker.enum_burst_count(), 2);
    process_udev_event_at(&plug("/d"), &mut tracker, &clock(10_001), &identity());
    assert_eq!(tracker.enum_burst_count(), 1);
    process_udev_event_at(&unplug("/d"), &mut tracker, &clock(10_002), &identity());
    assert_eq!(tracker.enum_burst_count(), 0);
}

#[test]
fn a_counter_is_never_full_in_a_short_burst() {
    let mut tracker = DeviceTracker::new();
    process_udev_event_at(&plug("/d"), &mut tracker, &clock(1), &identity());
    assert!(!tracker.is_burst_full_at(&plug("/d"), 2));
}

#[test]
fn a_device_flaps_at_the_fifth_turn() {
    let mut tracker = DeviceTracker::new();
    let mut reported: Vec<(u32, Vec<u8>)> = Vec::new();
    for i in 1u32..=10 {
        let turn = if i % 2 == 1 { plug("/d") } else { unplug("/d") };
        let outcome = process_udev_event_at(&turn, &mut tracker, &clock(i as u128 * 1_000), &identity());
        if outcome.incidents.len() > 1 {
            assert_eq!(outcome.incidents[0].signature, "5 connect/disconnect events within 30 seconds");
            taxonomy(&outcome.incidents[0]);
            reported.push((i, types(&outcome.incidents)));
        }
    }
    assert_eq!(reported, vec![(5, vec![7, 1]), (10, vec![7, 2])]);
}

#[test]
fn slow_turns_do_not_flap() {
    let mut tracker = DeviceTracker::new();
    for i in 1u32..=20 {
        let turn = if i % 2 == 1 { plug("/d") } else { unplug("/d") };
        let outcome = process_udev_event_at(&turn, &mut tracker, &clock(i as u128 * 8_000), &identity());
        assert_eq!(types(&outcome.incidents), vec![if i % 2 == 1 { 1 } else { 2 }]);
    }
}

#[test]
fn turns_of_other_devices_do_not_count() {
    let mut tracker = DeviceTracker::new();
    for i in 1u32..=12 {
        let path = format!("/d{}", i % 3);
        let turn = if i % 2 == 1 { plug(&path) } else { unplug(&path) };
        let outcome = process_udev_event_at(&turn, &mut tracker, &clock(i as u128), &identity());
        assert_eq!(types(&outcome.incidents), vec![if i % 2 == 1 { 1 } else { 2 }]);
    }
}

#[test]
fn each_path_is_logged_once_since_the_last_turn() {
    let mut tracker = DeviceTracker::new();
    process_udev_event_at(&plug("/d"), &mut tracker, &clock(1), &identity());
    let first = process_snapshot_at(snapshot("k", "add"), &mut tracker, &anomaly_clock(), &identity());
    assert!(first.diagnostic.unwrap().starts_with("[42] usb add key=k "));
    let second = process_snapshot_at(snapshot("k", "bind"), &mut tracker, &anomaly_clock(), &identity());
    assert_eq!(second.diagnostic, None);
    process_udev_event_at(&unplug("/d"), &mut tracker, &clock(2), &identity());
    let third = process_snapshot(snapshot("k", "remove"), &mut tracker, &identity());
    assert!(third.diagnostic.is_some());
}

#[test]
fn an_unchanged_device_gives_no_anomaly() {
    let mut tracker = DeviceTracker::new();
    process_snapshot_at(snapshot("k", "add"), &mut tracker, &anomaly_clock(), &identity());
    let outcome = process_snapshot_at(snapshot("k", "change"), &mut tracker, &anomaly_clock(), &identity());
    assert!(outcome.incidents.is_empty());
}

#[test]
fn every_changed_attribute_is_reported() {
    let mut tracker = DeviceTracker::new();
    process_snapshot_at(snapshot("k", "add"), &mut tracker, &anomaly_clock(), &identity());
    let mut changed = snapshot("k", "change");
    changed.port_id = None;
    changed.device_class = Some("03".to_owned());
    changed.serial = Some("CD34".to_owned());
    changed.devpath = "/devices/usb2/2-1".to_owned();
    let outcome = process_snapshot_at(changed, &mut tracker, &anomaly_clock(), &identity());
    assert_eq!(types(&outcome.incidents), vec![3, 4, 5, 6]);
    let signatures: Vec<&str> = outcome.incidents.iter().map(|i| i.signature.as_str()).collect();
    assert_eq!(
        signatures,
        vec![
            "port/topology changed: port Some(\"pci-0:2\")→None, bus Some(\"bus 1 dev 2\")→Some(\"bus 1 dev 2\")",
            "usb class changed: Some(\"00\")/Some(\"00\")/None → Some(\"03\")/Some(\"00\")/None",
            "serial changed from Some(\"AB12\") to Some(\"CD34\")",
            "devpath changed from \"/devices/usb1/1-2\" to \"/devices/usb2/2-1\"",
        ]
    );
    let hints: Vec<&str> = outcome.incidents.iter().map(|i| i.action_hint.as_str()).collect();
    assert_eq!(
        hints,
        vec!["investigate_port_change", "block_and_alert", "block_and_alert", "investigate_devpath"]
    );
    let stamps: Vec<&str> = outcome.incidents.iter().map(|i| i.timestamp.as_str()).collect();
    assert_eq!(stamps, vec!["t3", "t4", "t5", "t6"]);
    for incident in &outcome.incidents {
        taxonomy(incident);
    }
}

#[test]
fn anomalies_come_on_change_events_alone() {
    for action in ["add", "bind", "remove", "unbind"] {
        let mut tracker = DeviceTracker::new();
        process_snapshot_at(snapshot("k", "add"), &mut tracker, &anomaly_clock(), &identity());
        let mut changed = snapshot("k", action);
        changed.device_class = Some("03".to_owned());
        let outcome = process_snapshot_at(changed, &mut tracker, &anomaly_clock(), &identity());
        assert!(outcome.incidents.is_empty());
    }
}

#[test]
fn an_unplugged_device_is_forgotten() {
    let mut tracker = DeviceTracker::new();
    process_snapshot_at(snapshot("k", "add"), &mut tracker, &anomaly_clock(), &identity());
    process_snapshot_at(snapshot("k", "remove"), &mut tracker, &anomaly_clock(), &identity());
    let mut changed = snapshot("k", "change");
    changed.device_class = Some("03".to_owned());
    changed.serial = Some("CD34".to_owned());
    let outcome = process_snapshot_at(changed, &mut tracker, &anomaly_clock(), &identity());
    assert!(outcome.incidents.is_empty());
}

#[test]
fn a_new_serial_number_of_the_same_model_is_reported() {
    let seen = plug("/d");
    let mut reads = no_reads();
    reads.vendor_id = one("0781");
    reads.product_id = one("5581");
    reads.serial = one("AB12");
    let mut tracker = DeviceTracker::new();
    let first = capture_device_snapshot_at(&seen, "add", "/d", &reads, 1);
    process_snapshot_at(first, &mut tracker, &anomaly_clock(), &identity());
    reads.serial = one("CD34");
    let second = capture_device_snapshot_at(&seen, "change", "/d", &reads, 2);
    let outcome = process_snapshot_at(second, &mut tracker, &anomaly_clock(), &identity());
    assert_eq!(types(&outcome.incidents), vec![5]);
    assert_eq!(outcome.incidents[0].signature, "serial changed from Some(\"AB12\") to Some(\"CD34\")");
    taxonomy(&outcome.incidents[0]);
    let third = capture_device_snapshot_at(&seen, "change", "/d", &reads, 3);
    let outcome = process_snapshot_at(third, &mut tracker, &anomaly_clock(), &identity());
    assert!(outcome.incidents.is_empty());
}

fn model(serial: &str) -> DeviceReads {
    let mut reads = no_reads();
    reads.vendor_id = one("1d6b");
    reads.product_id = one("0002");
    reads.serial = one(serial);
    reads
}

fn look(tracker: &mut DeviceTracker, action: &str, devpath: &str, serial: &str) -> Vec<u8> {
    let seen = event(&[("ACTION", action), ("DEVPATH", devpath)]);
    let device = capture_device_snapshot_at(&seen, action, devpath, &model(serial), 1);
    types(&process_snapshot_at(device, tracker, &anomaly_clock(), &identity()).incidents)
}

#[test]
fn two_known_devices_of_one_model_are_no_anomaly() {
    let mut tracker = DeviceTracker::new();
    assert!(look(&mut tracker, "add", "/x", "A").is_empty());
    assert!(look(&mut tracker, "add", "/y", "B").is_empty());
    assert!(look(&mut tracker, "change", "/x", "A").is_empty());
    assert!(look(&mut tracker, "change", "/y", "B").is_empty());
}

#[test]
fn two_unknown_devices_of_one_model_are_no_anomaly() {
    let mut tracker = DeviceTracker::new();
    assert!(look(&mut tracker, "change", "/x", "A").is_empty());
    assert!(look(&mut tracker, "change", "/y", "B").is_empty());
}

#[test]
fn a_serial_change_to_a_known_serial_is_reported_once() {
    let mut tracker = DeviceTracker::new();
    look(&mut tracker, "add", "/y", "B");
    look(&mut tracker, "add", "/x", "A");
    let reported = look(&mut tracker, "change", "/x", "B");
    assert_eq!(reported.iter().filter(|t| **t == 5).count(), 1);
    assert_eq!(reported, vec![6, 5]);
}

#[test]
fn a_class_change_is_reported_with_a_serial_change() {
    let seen = event(&[("ACTION", "change"), ("DEVPATH", "/x")]);
    let mut tracker = DeviceTracker::new();
    let mut reads = model("A");
    reads.device_class = one("08");
    let before = capture_device_snapshot_at(&seen, "add", "/x", &reads, 1);
    process_snapshot_at(before, &mut tracker, &anomaly_clock(), &identity());
    reads.device_class = one("03");
    reads.serial = one("B");
    let now = capture_device_snapshot_at(&seen, "change", "/x", &reads, 2);
    let outcome = process_snapshot_at(now, &mut tracker, &anomaly_clock(), &identity());
    assert_eq!(types(&outcome.incidents), vec![4, 5]);
}

#[test]
fn a_serial_change_is_reported_after_others_came_and_went() {
    let mut tracker = DeviceTracker::new();
    look(&mut tracker, "add", "/x", "A");
    look(&mut tracker, "add", "/y", "B");
    look(&mut tracker, "remove", "/y", "B");
    assert_eq!(look(&mut tracker, "change", "/x", "C"), vec![5]);
}

#[test]
fn a_serial_change_is_reported_after_interfaces_were_seen() {
    let mut tracker = DeviceTracker::new();
    look(&mut tracker, "add", "/x/1-2", "A");
    look(&mut tracker, "add", "/x/1-2/1-2:1.0", "A");
    assert_eq!(look(&mut tracker, "change", "/x/1-2", "B"), vec![5]);
}

#[test]
fn a_device_that_moved_away_is_not_held_against_the_next() {
    let mut tracker = DeviceTracker::new();
    look(&mut tracker, "add", "/x", "A");
    look(&mut tracker, "add", "/z", "A");
    assert!(look(&mut tracker, "change", "/x", "C").is_empty());
}

#[test]
fn paths_of_one_device() {
    assert!(share_path("/x", "/x"));
    assert!(share_path("/x", "/x/y"));
    assert!(share_path("/x/y", "/x"));
    assert!(!share_path("/usb1", "/usb10"));
}

#[test]
fn permitted_classes_are_read_without_case() {
    assert_eq!(parse_permitted_classes("03, 0A ,eF"), vec!["03", "0a", "ef"]);
    assert_eq!(parse_permitted_classes("É,ß"), vec!["é", "ß"]);
}

#[test]
fn a_class_that_is_not_listed_is_reported() {
    let seen = plug("/d");
    let record = check_unauthorized_class_at(&seen, "03,09", Some("08"), &stamp(4), &identity()).unwrap();
    assert_eq!(record.incident_type_id, 8);
    assert_eq!(record.signature, "device class 08 not in allowed list [03,09]");
    assert_eq!(record.usb_class.as_deref(), Some("08"));
    assert_eq!(record.event_id, build_event_id("USB_UNAUTH_CLASS", "/d", 4, order()));
    assert_eq!(record.evidence_hash, build_evidence_hash("/d", "08", "03,09"));
    assert_eq!((record.confidence, record.action_hint.as_str()), (95, "block_device"));
    assert!(incident_record_to_json(&record).contains("\"usb_class\": \"08\""));
    taxonomy(&record);
}

#[test]
fn classes_that_are_not_reported() {
    let seen = plug("/d");
    assert!(check_unauthorized_class(&seen, "03,EF", Some("ef"), &identity()).is_none());
    assert!(check_unauthorized_class(&seen, "", Some("08"), &identity()).is_none());
    assert!(check_unauthorized_class(&seen, "03", Some("00"), &identity()).is_none());
    assert!(check_unauthorized_class(&seen, "03", Some(""), &identity()).is_none());
    assert!(check_unauthorized_class(&seen, "03", None, &identity()).is_none());
    let pathless = event(&[("ACTION", "add")]);
    assert!(check_unauthorized_class(&pathless, "03", Some("08"), &identity()).is_none());
    assert!(check_unauthorized_class(&seen, "03", Some("08"), &identity()).is_some());
}
