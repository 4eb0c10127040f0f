use usb_sensor::byte_order::ByteOrder;
use usb_sensor::clock::Stamp;
use usb_sensor::digest::{build_event_id, build_evidence_hash};
use usb_sensor::idsm::{idsm_addr, idsm_drop_connection, idsm_payload, idsm_request, record_incident};
use usb_sensor::idsm::{set_idsm_addr, IdsmLink, LinkStep};
use usb_sensor::incident::{incident_ecu_id, incident_record_to_json, incident_sensor_id, severity_id_for};
use usb_sensor::incident::{IncidentRecord, SensorIdentity};
use usb_sensor::json::{json_option_string, json_string};
use usb_sensor::supervisor::{after_monitor, monitor_ended, monitor_ended_at, record_restart, record_restart_at, MonitorEnd};

fn order() -> ByteOrder {
    if 1u16.to_ne_bytes()[0] == 1 {
        ByteOrder::Little
    } else {
        ByteOrder::Big
    }
}

fn record() -> IncidentRecord {
    IncidentRecord {
        event_id: "USB_LIFECYCLE_1753000000000_a1b2c3d4e5f67890".to_owned(),
        incident_type_id: 1,
        sensor_id: "sensor-01".to_owned(),
        timestamp: "2026-07-20T06:46:00Z".to_owned(),
        ecu_id: "unknown_ecu".to_owned(),
        bus_type: "USB".to_owned(),
        source: "/devices/pci0000:00/0000:00:14.0/usb1/1-2".to_owned(),
        can_id: "n/a".to_owned(),
        direction: "rx".to_owned(),
        severity: "low".to_owned(),
        severity_id: 1,
        confidence: 100,
        signature: "connected".to_owned(),
        usb_class: None,
        usb_subclass: None,
        usb_protocol: None,
        evidence_hash: "sha256:0123456789abcdef".to_owned(),
        action_hint: "watcher_started".to_owned(),
    }
}

fn identity() -> SensorIdentity {
    SensorIdentity { sensor_id: "sensor-01".to_owned(), ecu_id: "unknown_ecu".to_owned(), byte_order: order() }
}

fn stamp(millis: u128) -> Stamp {
    Stamp { millis, timestamp: "2026-07-20T06:46:00Z".to_owned() }
}

#[test]
fn severities_have_levels() {
    assert_eq!(severity_id_for("low"), 1);
    assert_eq!(severity_id_for("medium"), 2);
    assert_eq!(severity_id_for("high"), 3);
    assert_eq!(severity_id_for("critical"), 4);
    assert_eq!(severity_id_for("Critical"), 0);
    assert_eq!(severity_id_for(""), 0);
}

#[test]
fn identity_defaults() {
    assert_eq!(incident_sensor_id(None), "sensor-01");
    assert_eq!(incident_sensor_id(Some("sensor-lab-01".to_owned())), "sensor-lab-01");
    assert_eq!(incident_ecu_id(None), "unknown_ecu");
    assert_eq!(incident_ecu_id(Some("ecu-gateway".to_owned())), "ecu-gateway");
}

#[test]
fn a_record_as_json() {
    let expected = "{
  \"event_id\": \"USB_LIFECYCLE_1753000000000_a1b2c3d4e5f67890\",
  \"incident_type_id\": 1,
  \"sensor_id\": \"sensor-01\",
  \"timestamp\": \"2026-07-20T06:46:00Z\",
  \"ecu_id\": \"unknown_ecu\",
  \"bus_type\": \"USB\",
  \"source\": \"/devices/pci0000:00/0000:00:14.0/usb1/1-2\",
  \"can_id\": \"n/a\",
  \"direction\": \"rx\",
  \"severity\": \"low\",
  \"severity_id\": 1,
  \"confidence\": 100,
  \"signature\": \"connected\",
  \"usb_class\": null,
  \"usb_subclass\": null,
  \"usb_protocol\": null,
  \"evidence_hash\": \"sha256:0123456789abcdef\",
  \"action_hint\": \"watcher_started\"
}";
    assert_eq!(incident_record_to_json(&record()), expected);
}

#[test]
fn records_that_differ_have_different_texts() {
    let mut other = record();
    other.usb_class = Some("null".to_owned());
    assert_ne!(incident_record_to_json(&record()), incident_record_to_json(&other));
    assert!(incident_record_to_json(&other).contains("\"usb_class\": \"null\","));
}

#[test]
fn json_strings_are_escaped() {
    assert_eq!(json_string("a\"b\\c"), "\"a\\\"b\\\\c\"");
    assert_eq!(json_string("\u{8}\u{c}\n\r\t"), "\"\\b\\f\\n\\r\\t\"");
    assert_eq!(json_string("\u{0}\u{1f}\u{7f}\u{9f}"), "\"\\u0000\\u001f\\u007f\\u009f\"");
    assert_eq!(json_string("é — 🔌"), "\"é — 🔌\"");
    assert_eq!(json_string(""), "\"\"");
    assert_eq!(json_option_string(None), "null");
    assert_eq!(json_option_string(Some("x")), "\"x\"");
}

#[test]
fn json_strings_hold_no_control_characters() {
    for code in 0u32..0x200 {
        if let Some(c) = char::from_u32(code) {
            let written = json_string(&format!("{c}"));
            assert!(!written.chars().any(|w| w.is_control()));
            if c.is_control() {
                assert!(written.starts_with("\"\\"));
            }
        }
    }
}

#[test]
fn restarts_are_reported_in_threes() {
    let mut times: Vec<u128> = Vec::new();
    assert!(record_restart_at(&mut times, "a", &stamp(1_000), &identity()).is_none());
    assert!(record_restart_at(&mut times, "b", &stamp(2_000), &identity()).is_none());
    let incident = record_restart_at(&mut times, "c", &stamp(301_000), &identity()).unwrap();
    assert_eq!(incident.incident_type_id, 14);
    assert_eq!(incident.severity, "medium");
    assert_eq!(incident.severity_id, 2);
    assert_eq!(incident.confidence, 88);
    assert_eq!(incident.source, "udevadm");
    assert_eq!(incident.signature, "3 udevadm restarts within 300 seconds — last: c");
    assert_eq!(incident.event_id, build_event_id("UDEVADM_CRASH", "c", 301_000, order()));
    assert_eq!(incident.evidence_hash, build_evidence_hash("udevadm", "c", "3"));
    assert_eq!(incident.action_hint, "investigate_device_instability");
    assert_eq!(incident.timestamp, "2026-07-20T06:46:00Z");
    assert!(times.is_empty());
}

#[test]
fn old_restarts_do_not_count() {
    let mut times: Vec<u128> = Vec::new();
    assert!(record_restart_at(&mut times, "a", &stamp(0), &identity()).is_none());
    assert!(record_restart_at(&mut times, "b", &stamp(1), &identity()).is_none());
    assert!(record_restart_at(&mut times, "c", &stamp(300_002), &identity()).is_none());
    assert_eq!(times, vec![300_002]);
}

#[test]
fn restarts_at_the_present_time() {
    let mut times: Vec<u128> = Vec::new();
    assert!(record_restart(&mut times, "a", &identity()).is_none());
    assert!(record_restart(&mut times, "a", &identity()).is_none());
    assert!(record_restart(&mut times, "a", &identity()).is_some());
    assert!(times.is_empty());
}

#[test]
fn what_is_done_after_the_monitor() {
    let step = after_monitor(MonitorEnd::Exited, "exit status: 1");
    assert_eq!(
        step.notice,
        "udevadm monitor stopped with status exit status: 1; restarting in 2 seconds"
    );
    assert_eq!(step.reason, "udevadm exited: exit status: 1");
    assert_eq!(step.wait_secs, 2);
    let step = after_monitor(MonitorEnd::LaunchFailed, "not found");
    assert_eq!(step.notice, "failed to start udevadm monitor: not found; retrying in 5 seconds");
    assert_eq!(step.reason, "udevadm launch failed: not found");
    assert_eq!(step.wait_secs, 5);
}

#[test]
fn a_record_has_twenty_lines() {
    let mut incident = record();
    incident.signature = "a\nb\r\n\"c\"".to_owned();
    incident.usb_class = Some("x\ny".to_owned());
    assert_eq!(incident_record_to_json(&incident).lines().count(), 20);
}

#[test]
fn the_manager_gets_one_line() {
    let mut incident = record();
    incident.signature = "two\nlines \"quoted\"".to_owned();
    assert_eq!(
        idsm_payload(&incident),
        "{\"event_id\":1,\"source\":\"/devices/pci0000:00/0000:00:14.0/usb1/1-2\",\"description\":\"two\\nlines \\\"quoted\\\"\",\"context_data\":null}\n"
    );
    assert_ne!(idsm_payload(&incident), idsm_payload(&record()));
}

#[test]
fn the_request_to_the_manager() {
    let mut incident = record();
    incident.source = "é".to_owned();
    let body = idsm_payload(&incident);
    let request = idsm_request(&incident, "10.0.0.7:8081");
    assert_eq!(
        request,
        format!(
            "POST / HTTP/1.1\r\nHost: 10.0.0.7:8081\r\nContent-Type: application/json\r\nContent-Length: {}\r\n\r\n{}",
            body.len(),
            body
        )
    );
    assert_eq!(request.split_once("\r\n\r\n").unwrap().1, body);
}

#[test]
fn an_incident_is_printed_and_sent() {
    let delivery = record_incident(&record(), Some("a:1"));
    assert_eq!(delivery.printed, format!("{}\n", incident_record_to_json(&record())));
    assert_eq!(delivery.request, Some(idsm_request(&record(), "a:1")));
    assert_eq!(record_incident(&record(), None).request, None);
}

#[test]
fn ends_of_the_monitor_share_one_list() {
    let mut times: Vec<u128> = Vec::new();
    let ends = [
        (MonitorEnd::Exited, "exit status: 1"),
        (MonitorEnd::LaunchFailed, "not found"),
        (MonitorEnd::Exited, "signal: 9"),
    ];
    let mut incidents: Vec<Option<IncidentRecord>> = Vec::new();
    for (i, (end, detail)) in ends.into_iter().enumerate() {
        let (step, incident) =
            monitor_ended_at(&mut times, end, detail, &stamp(i as u128 * 1_000), &identity());
        assert_eq!(step.wait_secs, if end == MonitorEnd::Exited { 2 } else { 5 });
        incidents.push(incident);
    }
    assert!(incidents[0].is_none() && incidents[1].is_none());
    assert_eq!(
        incidents[2].as_ref().unwrap().signature,
        "3 udevadm restarts within 300 seconds — last: udevadm exited: signal: 9"
    );
    assert!(times.is_empty());
    let (step, incident) = monitor_ended(&mut times, MonitorEnd::LaunchFailed, "gone", &identity());
    assert_eq!(step.reason, "udevadm launch failed: gone");
    assert!(incident.is_none());
    assert_eq!(times.len(), 1);
}

#[test]
fn the_address_of_the_manager() {
    assert_eq!(idsm_addr(None, None), "127.0.0.1:8081");
    assert_eq!(idsm_addr(Some("10.0.0.7".to_owned()), None), "10.0.0.7:8081");
    assert_eq!(idsm_addr(None, Some("9000".to_owned())), "127.0.0.1:9000");
}

#[test]
fn the_link_to_the_manager() {
    let mut link: IdsmLink<u32> = IdsmLink::new();
    assert_eq!(link.idsm_stream(false), LinkStep::Skip);
    assert!(set_idsm_addr(&mut link, "a:1".to_owned()));
    assert!(!set_idsm_addr(&mut link, "b:2".to_owned()));
    assert_eq!(link.address(), Some("a:1"));
    assert_eq!(link.idsm_stream(false), LinkStep::Connect);
    link.keep_connection(7);
    assert_eq!(link.idsm_stream(false), LinkStep::Reuse);
    assert_eq!(link.idsm_stream(true), LinkStep::Connect);
    link.note_send(true);
    assert_eq!(link.connection(), Some(&7));
    link.note_send(false);
    assert_eq!(link.connection(), None);
    assert_eq!(link.idsm_stream(false), LinkStep::Connect);
    link.keep_connection(8);
    idsm_drop_connection(&mut link);
    assert_eq!(link.connection(), None);
    assert_eq!(link.address(), Some("a:1"));
}
