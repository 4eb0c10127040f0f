use usb_sensor::byte_order::ByteOrder;
use usb_sensor::clamscan::{tells_of_threat, Scan, ScanFinding};
use usb_sensor::clock::Stamp;
use usb_sensor::digest::{build_event_id, build_evidence_hash};
use usb_sensor::fs_monitor::{emit_fs_incident, report_inotify_event, report_inotify_event_at, report_notices};
use usb_sensor::fs_monitor::{select_primary_kind, should_report_event, watch_root, FsClock, FsReport, WatchRoot};
use usb_sensor::incident::SensorIdentity;
use usb_sensor::inotify::{decode_inotify_name, parse_notices, Notice, WATCH_MASK};
use usb_sensor::inotify::{IN_ATTRIB, IN_CLOSE_WRITE, IN_CREATE, IN_DELETE, IN_DELETE_SELF, IN_MODIFY};
use usb_sensor::inotify::{IN_MOVED_FROM, IN_MOVED_TO, IN_MOVE_SELF};
use usb_sensor::watcher::{expand_tilde, expand_tilde_text, next_watch_step, plan_watch, resolve_fs_watch_target};
use usb_sensor::watcher::{ReadOutcome, StartPlan, WatchStep, WatcherSlot};

fn order() -> ByteOrder {
    if 1u16.to_ne_bytes()[0] == 1 {
        ByteOrder::Little
    } else {
        ByteOrder::Big
    }
}

fn identity() -> SensorIdentity {
    SensorIdentity { sensor_id: "s".to_owned(), ecu_id: "e".to_owned(), byte_order: order() }
}

fn stamp(millis: u128) -> Stamp {
    Stamp { millis, timestamp: "2026-07-20T06:46:00Z".to_owned() }
}

fn clock(millis: u128) -> FsClock {
    FsClock { upload_ms: millis, upload: stamp(millis), primary: stamp(millis) }
}

fn root() -> WatchRoot {
    WatchRoot { path: "/media/usb0".to_owned(), name: Some("usb0".to_owned()) }
}

fn types(reports: &[FsReport]) -> Vec<u8> {
    reports.iter().map(|r| r.incident.incident_type_id).collect()
}

fn record_bytes(mask: u32, field: &[u8]) -> Vec<u8> {
    let mut bytes: Vec<u8> = Vec::new();
    bytes.extend_from_slice(&1u32.to_le_bytes());
    bytes.extend_from_slice(&mask.to_le_bytes());
    bytes.extend_from_slice(&0u32.to_le_bytes());
    bytes.extend_from_slice(&(field.len() as u32).to_le_bytes());
    bytes.extend_from_slice(field);
    bytes
}

#[test]
fn names_in_records() {
    assert_eq!(decode_inotify_name(b"a.txt\0\0\0").as_deref(), Some("a.txt"));
    assert_eq!(decode_inotify_name(b"a.txt").as_deref(), Some("a.txt"));
    assert_eq!(decode_inotify_name(b"\0\0"), None);
    assert_eq!(decode_inotify_name(b""), None);
    assert_eq!(decode_inotify_name("é\0x".as_bytes()).as_deref(), Some("é"));
    assert_eq!(decode_inotify_name(b"a\xffb\0").as_deref(), Some("a\u{fffd}b"));
}

#[test]
fn records_are_read_back() {
    let mut bytes = record_bytes(IN_CREATE, b"a.txt\0\0\0");
    bytes.extend(record_bytes(IN_DELETE_SELF, b""));
    bytes.extend(record_bytes(IN_MODIFY, b"b\0\0\0"));
    let notices = parse_notices(&bytes, ByteOrder::Little);
    assert_eq!(notices.len(), 3);
    assert_eq!((notices[0].mask, notices[0].name.as_deref()), (IN_CREATE, Some("a.txt")));
    assert_eq!((notices[1].mask, notices[1].name.as_deref()), (IN_DELETE_SELF, None));
    assert_eq!((notices[2].mask, notices[2].name.as_deref()), (IN_MODIFY, Some("b")));
}

#[test]
fn records_that_are_cut_off() {
    let bytes = record_bytes(IN_CREATE, b"a.txt\0\0\0");
    assert_eq!(parse_notices(&bytes[..15], ByteOrder::Little).len(), 0);
    let cut = parse_notices(&bytes[..18], ByteOrder::Little);
    assert_eq!(cut.len(), 1);
    assert_eq!(cut[0].name.as_deref(), Some("a."));
}

#[test]
fn records_of_the_other_byte_order() {
    let mut bytes: Vec<u8> = Vec::new();
    for word in [1u32, IN_MOVED_TO, 7, 4] {
        bytes.extend_from_slice(&word.to_be_bytes());
    }
    bytes.extend_from_slice(b"x\0\0\0");
    let notices = parse_notices(&bytes, ByteOrder::Big);
    assert_eq!(notices.len(), 1);
    assert_eq!((notices[0].mask, notices[0].name.as_deref()), (IN_MOVED_TO, Some("x")));
}

#[test]
fn what_is_watched_for() {
    assert_eq!(WATCH_MASK, 0xfce);
}

#[test]
fn events_are_filtered_by_name() {
    assert!(should_report_event(None, None));
    assert!(should_report_event(None, Some("a")));
    assert!(should_report_event(Some(b"a"), Some("a")));
    assert!(!should_report_event(Some(b"a"), Some("b")));
    assert!(!should_report_event(Some(b"a"), None));
    assert!(should_report_event(Some("é".as_bytes()), Some("é")));
    assert!(!should_report_event(Some(b"\xff"), Some("\u{fffd}")));
}

#[test]
fn kinds_of_events() {
    let kind = |mask: u32| select_primary_kind(mask).map(|k| (k.incident_type_id, k.severity, k.label, k.action_hint));
    let deleted = Some((11, "high", "file_deleted", "investigate_deletion"));
    let moved = Some((12, "medium", "file_moved", "log_event"));
    let created = Some((9, "low", "file_created", "log_event"));
    let modified = Some((10, "medium", "file_modified", "log_event"));
    assert_eq!(kind(IN_DELETE), deleted);
    assert_eq!(kind(IN_DELETE_SELF | IN_CREATE), deleted);
    assert_eq!(kind(IN_MOVED_FROM), moved);
    assert_eq!(kind(IN_MOVED_TO), moved);
    assert_eq!(kind(IN_MOVE_SELF | IN_MODIFY), moved);
    assert_eq!(kind(IN_CREATE), created);
    assert_eq!(kind(IN_CREATE | IN_MODIFY), created);
    assert_eq!(kind(IN_MODIFY), modified);
    assert_eq!(kind(IN_ATTRIB), modified);
    assert_eq!(kind(IN_CLOSE_WRITE), modified);
    assert_eq!(kind(0x4000_0000), None);
    assert_eq!(kind(0), None);
}

#[test]
fn every_watched_event_has_a_kind() {
    for bit in 0..32 {
        let mask = 1u32 << bit;
        assert_eq!(select_primary_kind(mask).is_some(), mask & WATCH_MASK != 0);
    }
}

#[test]
fn fs_incidents() {
    let record = emit_fs_incident(11, "high", "sig", "what", "/f", "hint", &stamp(8), &identity());
    assert_eq!(record.event_id, build_event_id("FS_EVENT", "/f", 8, order()));
    assert_eq!(record.signature, "what");
    assert_eq!(record.evidence_hash, build_evidence_hash("/f", "sig", "high"));
    assert_eq!((record.severity_id, record.confidence), (3, 90));
    assert_eq!((record.source.as_str(), record.action_hint.as_str()), ("/f", "hint"));
}

#[test]
fn a_created_file_is_reported() {
    let mut uploads: Vec<u128> = Vec::new();
    let reports =
        report_inotify_event_at(IN_CREATE, &root(), Some("a.txt"), &mut uploads, &clock(5), &identity());
    assert_eq!(types(&reports), vec![9]);
    assert_eq!(reports[0].incident.source, "/media/usb0/a.txt");
    assert_eq!(reports[0].incident.signature, "file_created: a.txt");
    assert_eq!(
        reports[0].incident.evidence_hash,
        build_evidence_hash("/media/usb0/a.txt", "file_created", "low")
    );
    assert_eq!(
        reports[0].diagnostic,
        "fs watch type=9 action=file_created file=a.txt dir=/media/usb0"
    );
    assert!(uploads.is_empty());
}

#[test]
fn an_event_of_the_directory_itself() {
    let mut uploads: Vec<u128> = Vec::new();
    let reports = report_inotify_event(IN_DELETE_SELF, &root(), None, &mut uploads, &identity());
    assert_eq!(types(&reports), vec![11]);
    assert_eq!(reports[0].incident.source, "/media/usb0");
    assert_eq!(reports[0].incident.signature, "file_deleted: usb0");
    let nameless = WatchRoot { path: "/".to_owned(), name: None };
    let reports = report_inotify_event(IN_ATTRIB, &nameless, None, &mut uploads, &identity());
    assert_eq!(reports[0].incident.signature, "file_modified: /");
    let reports = report_inotify_event(IN_ATTRIB, &nameless, Some("a"), &mut uploads, &identity());
    assert_eq!(reports[0].incident.source, "/a");
}

#[test]
fn an_unwatched_event_is_not_reported() {
    let mut uploads: Vec<u128> = Vec::new();
    assert!(report_inotify_event(0x8000, &root(), Some("a"), &mut uploads, &identity()).is_empty());
}

#[test]
fn uploads_are_reported_in_tens() {
    let mut uploads: Vec<u128> = Vec::new();
    for i in 1u128..=30 {
        let reports = report_inotify_event_at(
            IN_CLOSE_WRITE,
            &root(),
            Some("a"),
            &mut uploads,
            &clock(i * 1_000),
            &identity(),
        );
        let expected: Vec<u8> = if i % 10 == 0 { vec![13, 10] } else { vec![10] };
        assert_eq!(types(&reports), expected);
        if i == 10 {
            assert_eq!(reports[0].incident.severity, "critical");
            assert_eq!(
                reports[0].incident.signature,
                "10 file uploads (close-after-write) in 60 seconds — possible exfiltration"
            );
            assert_eq!(reports[0].incident.action_hint, "quarantine_and_alert");
            assert_eq!(
                reports[0].incident.evidence_hash,
                build_evidence_hash("/media/usb0/a", "mass_file_upload_detected", "critical")
            );
            assert_eq!(
                reports[0].diagnostic,
                "fs watch type=13 10 file uploads (close-after-write) in 60 seconds — possible exfiltration dir=/media/usb0"
            );
        }
    }
}

#[test]
fn slow_uploads_are_not_reported() {
    let mut uploads: Vec<u128> = Vec::new();
    for i in 1u128..=30 {
        let reports = report_inotify_event_at(
            IN_CLOSE_WRITE,
            &root(),
            Some("a"),
            &mut uploads,
            &clock(i * 7_000),
            &identity(),
        );
        assert_eq!(types(&reports), vec![10]);
        assert!(uploads.len() <= 9);
    }
}

#[test]
fn notices_are_filtered_and_reported_in_order() {
    let notices = vec![
        Notice { mask: IN_CREATE, name: Some("a".to_owned()) },
        Notice { mask: IN_DELETE, name: Some("b".to_owned()) },
        Notice { mask: IN_CLOSE_WRITE, name: Some("a".to_owned()) },
        Notice { mask: IN_DELETE_SELF, name: None },
    ];
    let mut uploads: Vec<u128> = Vec::new();
    let all = report_notices(&notices, None, &root(), &mut uploads, &identity());
    assert_eq!(types(&all), vec![9, 11, 10, 11]);
    assert_eq!(uploads.len(), 1);
    let some = report_notices(&notices, Some(b"a"), &root(), &mut uploads, &identity());
    assert_eq!(types(&some), vec![9, 10]);
    assert_eq!(uploads.len(), 2);
}

#[test]
fn a_tilde_stands_for_the_home_directory() {
    let home = || Some(b"/home/u".to_vec());
    assert_eq!(expand_tilde(b"~/x".to_vec(), home()), b"/home/u/x");
    assert_eq!(expand_tilde(b"~/".to_vec(), home()), b"/home/u/");
    assert_eq!(expand_tilde(b"~/~/x".to_vec(), home()), b"/home/u/x");
    assert_eq!(expand_tilde(b"~//x".to_vec(), home()), b"/x");
    assert_eq!(expand_tilde(b"~x".to_vec(), home()), b"~x");
    assert_eq!(expand_tilde(b"/x".to_vec(), home()), b"/x");
    assert_eq!(expand_tilde(b"~/x".to_vec(), None), b"~/x");
    assert_eq!(expand_tilde(b"~/x".to_vec(), Some(b"/".to_vec())), b"/x");
    assert_eq!(expand_tilde(b"~/x".to_vec(), Some(Vec::new())), b"x");
    assert_eq!(expand_tilde(b"~/\xff".to_vec(), home()), "/home/u/\u{fffd}".as_bytes());
    assert_eq!(expand_tilde(b"\xff".to_vec(), home()), b"\xff");
    assert_eq!(expand_tilde_text(b"raw".to_vec(), "~/t", home()), b"/home/u/t");
}

#[test]
fn tildes_agree_with_the_standard_library() {
    for path in ["~/a", "~/a/b", "~/", "~//a", "~/~/a"] {
        for home in ["/home/u", "/home/u/", "/", ""] {
            let mut expected = std::path::PathBuf::from(home);
            expected.push(path.trim_start_matches("~/"));
            assert_eq!(
                expand_tilde(path.as_bytes().to_vec(), Some(home.as_bytes().to_vec())),
                expected.to_str().unwrap().as_bytes()
            );
        }
    }
}

#[test]
fn the_default_target() {
    assert_eq!(
        resolve_fs_watch_target(None, Some(b"/home/u".to_vec())),
        b"/home/u/Projects/rust/sensor"
    );
    assert_eq!(resolve_fs_watch_target(None, None), b"~/Projects/rust/sensor");
    assert_eq!(
        resolve_fs_watch_target(Some(b"/media/usb0".to_vec()), Some(b"/home/u".to_vec())),
        b"/media/usb0"
    );
}

#[test]
fn how_a_target_is_watched() {
    let plan = plan_watch(b"/a/b".to_vec(), true, Some(b"/a".to_vec()), Some(b"b".to_vec()));
    assert_eq!((plan.root, plan.filter_name), (b"/a/b".to_vec(), None));
    let plan = plan_watch(b"/a/b".to_vec(), false, Some(b"/a".to_vec()), Some(b"b".to_vec()));
    assert_eq!((plan.root, plan.filter_name), (b"/a".to_vec(), Some(b"b".to_vec())));
    let plan = plan_watch(b"".to_vec(), false, None, None);
    assert_eq!((plan.root, plan.filter_name), (b"".to_vec(), None));
}

#[test]
fn steps_of_the_watcher() {
    for stop in [false, true] {
        assert_eq!(next_watch_step(ReadOutcome::Bytes(32), stop), WatchStep::TakeIn(32));
        assert_eq!(next_watch_step(ReadOutcome::Failed, stop), WatchStep::GiveUp);
    }
    assert_eq!(next_watch_step(ReadOutcome::Bytes(0), false), WatchStep::Wait);
    assert_eq!(next_watch_step(ReadOutcome::WouldBlock, false), WatchStep::Wait);
    assert_eq!(next_watch_step(ReadOutcome::Bytes(0), true), WatchStep::Stop);
    assert_eq!(next_watch_step(ReadOutcome::WouldBlock, true), WatchStep::Stop);
}

#[test]
fn the_watched_directory() {
    let root = watch_root(b"/m/a", Some(b"a"));
    assert_eq!((root.path.as_str(), root.name.as_deref()), ("/m/a", Some("a")));
    let root = watch_root(b"/m/\xff", Some(b"\xff"));
    assert_eq!((root.path.as_str(), root.name), ("/m/\u{fffd}", None));
    let root = watch_root("/m/\u{fffd}".as_bytes(), Some("\u{fffd}".as_bytes()));
    assert_eq!(root.name.as_deref(), Some("\u{fffd}"));
    assert_eq!(watch_root(b"/", None).name, None);
}

#[test]
fn start_start_stop_start() {
    let mut slot: WatcherSlot<u32> = WatcherSlot::new();
    let answers = [
        slot.start_fs_watch_thread(1),
        slot.start_fs_watch_thread(2),
        slot.stop_fs_watch_thread().is_some(),
        slot.start_fs_watch_thread(3),
    ];
    assert_eq!(answers, [true, false, true, true]);
}

#[test]
fn one_watcher_runs_at_a_time() {
    let mut slot: WatcherSlot<u32> = WatcherSlot::new();
    assert_eq!(slot.stop_fs_watch_thread(), None);
    match slot.plan_start(Some(b"/m".to_vec()), None) {
        StartPlan::Watch(target) => assert_eq!(target, b"/m"),
        StartPlan::AlreadyRunning => panic!("no watcher runs"),
    }
    assert!(slot.start_fs_watch_thread(1));
    assert!(matches!(slot.plan_start(None, None), StartPlan::AlreadyRunning));
    assert!(!slot.start_fs_watch_thread(2));
    assert_eq!(slot.stop_fs_watch_thread(), Some(1));
    assert_eq!(slot.stop_fs_watch_thread(), None);
    assert!(slot.start_fs_watch_thread(3));
}

#[test]
fn a_threat_is_reported() {
    let mut scan = Scan::new("/media/usb0".to_owned());
    match scan.take_line_at("/media/usb0/x: a: Eicar-Test FOUND\n", &stamp(6), &identity()) {
        ScanFinding::Threat(record) => {
            assert_eq!(record.incident_type_id, 17);
            assert_eq!((record.severity.as_str(), record.severity_id), ("critical", 4));
            assert_eq!(record.confidence, 99);
            assert_eq!(record.source, "/media/usb0/x");
            assert_eq!(record.signature, "clamscan_threat_found: a: Eicar-Test FOUND");
            assert_eq!(record.event_id, build_event_id("CLAMSCAN_THREAT", "/media/usb0/x", 6, order()));
            assert_eq!(
                record.evidence_hash,
                build_evidence_hash("/media/usb0/x", "a: Eicar-Test FOUND", "/media/usb0")
            );
            assert_eq!(record.action_hint, "quarantine_and_alert");
        }
        _ => panic!("a threat"),
    }
    assert_eq!(scan.threats, 1);
    assert_eq!(scan.summary(Some("exit status: 1")), "clamscan: scan complete — 1 threat(s) found");
}

#[test]
fn lines_that_tell_of_a_threat() {
    assert!(tells_of_threat(" /x: Eicar FOUND \n"));
    assert!(!tells_of_threat("/x: OK"));
    assert!(!tells_of_threat("FOUND"));
}

#[test]
fn a_threat_without_a_path() {
    let mut scan = Scan::new("/t".to_owned());
    match scan.take_line("odd FOUND", &identity()) {
        ScanFinding::Threat(record) => {
            assert_eq!(record.source, "odd FOUND");
            assert_eq!(record.signature, "clamscan_threat_found: odd FOUND");
        }
        _ => panic!("a threat"),
    }
}

#[test]
fn other_lines_of_a_scan() {
    let mut scan = Scan::new("/t".to_owned());
    assert!(matches!(scan.take_line("  \n", &identity()), ScanFinding::Blank));
    match scan.take_line(" /t/a: OK \n", &identity()) {
        ScanFinding::Remark(line) => assert_eq!(line, "clamscan: /t/a: OK"),
        _ => panic!("a remark"),
    }
    assert!(matches!(scan.take_line("FOUND", &identity()), ScanFinding::Remark(_)));
    assert_eq!(scan.threats, 0);
    assert_eq!(scan.summary(None), "clamscan: scan complete — no threats found");
    assert_eq!(
        scan.summary(Some("exit status: 0")),
        "clamscan: scan complete — no threats found (exit code: exit status: 0)"
    );
}
