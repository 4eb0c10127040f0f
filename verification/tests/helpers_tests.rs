use std::collections::hash_map::DefaultHasher;
use std::hash::{Hash, Hasher};

use usb_sensor::byte_order::{to_bytes_in_order, ByteOrder};
use usb_sensor::calendar::{civil_from_days, timestamp_rfc3339};
use usb_sensor::clock::{current_timestamp_ms, current_timestamp_rfc3339, read_clock, reading_of, Stamp};
use usb_sensor::digest::{build_event_id, build_evidence_hash, format_event_id, format_evidence_hash};
use usb_sensor::digits::{write_decimal, write_hexadecimal, write_padded, write_signed};
use usb_sensor::text::{contains, debug_opt, ends_with, find, split, split_once, starts_with, trim, trim_end};
use usb_sensor::window::{note_time, within};

fn order() -> ByteOrder {
    if 1u16.to_ne_bytes()[0] == 1 {
        ByteOrder::Little
    } else {
        ByteOrder::Big
    }
}

#[test]
fn decimal_numbers() {
    assert_eq!(write_decimal(0), "0");
    assert_eq!(write_decimal(10), "10");
    assert_eq!(write_decimal(u128::MAX), u128::MAX.to_string());
    assert_eq!(write_padded(7, 2), "07");
    assert_eq!(write_padded(123, 2), "123");
    assert_eq!(write_signed(-12, 4), "-012");
    assert_eq!(write_signed(2026, 4), "2026");
    assert_eq!(write_signed(i32::MIN, 4), i32::MIN.to_string());
}

#[test]
fn hexadecimal_numbers() {
    assert_eq!(write_hexadecimal(0, 16), "0000000000000000");
    assert_eq!(write_hexadecimal(0xa1b2_c3d4, 16), "00000000a1b2c3d4");
    assert_eq!(write_hexadecimal(u64::MAX, 4), "ffffffffffffffff");
}

#[test]
fn known_dates() {
    assert_eq!(civil_from_days(0), (1970, 1, 1));
    assert_eq!(civil_from_days(59), (1970, 3, 1));
    assert_eq!(civil_from_days(11_016), (2000, 2, 29));
    assert_eq!(civil_from_days(11_017), (2000, 3, 1));
    assert_eq!(civil_from_days(-1), (1969, 12, 31));
    assert_eq!(civil_from_days(-719_468), (0, 3, 1));
    assert_eq!(civil_from_days(20_654), (2026, 7, 20));
    assert_eq!(civil_from_days(47_540), (2100, 2, 28));
    assert_eq!(civil_from_days(47_541), (2100, 3, 1));
}

#[test]
fn successive_days_are_successive_dates() {
    let mut previous = civil_from_days(-1_000);
    for days in -999..40_000 {
        let date = civil_from_days(days);
        let same_month = date.0 == previous.0 && date.1 == previous.1 && date.2 == previous.2 + 1;
        let next_month = date.0 == previous.0 && date.1 == previous.1 + 1 && date.2 == 1;
        let next_year = date.0 == previous.0 + 1 && date.1 == 1 && date.2 == 1 && previous.1 == 12;
        assert!(same_month || next_month || next_year);
        previous = date;
    }
}

#[test]
fn known_timestamps() {
    assert_eq!(timestamp_rfc3339(0), "1970-01-01T00:00:00Z");
    assert_eq!(timestamp_rfc3339(86_399), "1970-01-01T23:59:59Z");
    assert_eq!(timestamp_rfc3339(951_782_400), "2000-02-29T00:00:00Z");
    assert_eq!(timestamp_rfc3339(1_784_529_960), "2026-07-20T06:46:00Z");
    assert_eq!(timestamp_rfc3339(u64::MAX), "1969-12-31T23:59:59Z");
}

#[test]
fn distinct_instants_have_distinct_timestamps() {
    assert_ne!(timestamp_rfc3339(1_000), timestamp_rfc3339(1_001));
    assert_ne!(timestamp_rfc3339(0), timestamp_rfc3339(86_400));
}

#[test]
fn the_clock_runs_after_2024() {
    let reading = read_clock();
    assert!(reading.seconds > 1_704_067_200);
    assert!(reading.millis < 1_000);
    assert_eq!(reading.to_millis(), reading.seconds as u128 * 1_000 + reading.millis as u128);
    assert!(current_timestamp_ms() > 1_704_067_200_000);
    let stamp = Stamp::read();
    assert!(stamp.millis > 1_704_067_200_000);
    assert_eq!(stamp.timestamp.len(), 20);
}

#[test]
fn readings_of_a_clock() {
    let reading = reading_of(Some((1_753_000_000, 123)));
    assert_eq!((reading.seconds, reading.millis), (1_753_000_000, 123));
    assert_eq!(reading.to_millis(), 1_753_000_000_123);
    assert_eq!(reading_of(None).to_millis(), 0);
}

#[test]
fn the_clock_agrees_with_the_system() {
    let before = std::time::SystemTime::now()
        .duration_since(std::time::UNIX_EPOCH)
        .unwrap()
        .as_millis();
    let now = current_timestamp_ms();
    let text = current_timestamp_rfc3339();
    let after = std::time::SystemTime::now()
        .duration_since(std::time::UNIX_EPOCH)
        .unwrap()
        .as_millis();
    assert!(before <= now && now <= after);
    assert!(timestamp_rfc3339((before / 1_000) as u64) <= text);
    assert!(text <= timestamp_rfc3339((after / 1_000) as u64));
}

#[test]
fn identifiers_follow_the_hasher() {
    let mut hasher = DefaultHasher::new();
    "USB_LIFECYCLE".hash(&mut hasher);
    "/devices/usb1".hash(&mut hasher);
    1_753_000_000_000u128.hash(&mut hasher);
    let expected = format!("USB_LIFECYCLE_1753000000000_{:016x}", hasher.finish());
    assert_eq!(build_event_id("USB_LIFECYCLE", "/devices/usb1", 1_753_000_000_000, order()), expected);
    assert_ne!(build_event_id("USB_LIFECYCLE", "/devices/usb2", 1_753_000_000_000, order()), expected);
}

#[test]
fn bytes_of_numbers() {
    let n = 0x0102_0304_0506_0708_090a_0b0c_0d0e_0f10u128;
    assert_eq!(to_bytes_in_order(n, ByteOrder::Little), n.to_le_bytes());
    assert_eq!(to_bytes_in_order(n, ByteOrder::Big), n.to_be_bytes());
    assert_eq!(to_bytes_in_order(n, order()), n.to_ne_bytes());
}

#[test]
fn identifiers_depend_on_the_byte_order() {
    assert_ne!(
        build_event_id("A", "b", 1, ByteOrder::Little),
        build_event_id("A", "b", 1, ByteOrder::Big)
    );
}

#[test]
fn evidence_follows_the_hasher() {
    let mut hasher = DefaultHasher::new();
    "a".hash(&mut hasher);
    "bc".hash(&mut hasher);
    "".hash(&mut hasher);
    let expected = format!("sha256:{:016x}", hasher.finish());
    assert_eq!(build_evidence_hash("a", "bc", ""), expected);
    assert_ne!(build_evidence_hash("ab", "c", ""), expected);
}

#[test]
fn identifiers_with_a_known_digest() {
    assert_eq!(
        format_event_id("USB_LIFECYCLE", 1_753_000_000_000, 0xa1b2_c3d4_e5f6_7890),
        "USB_LIFECYCLE_1753000000000_a1b2c3d4e5f67890"
    );
    assert_eq!(format_evidence_hash(0x0123_4567_89ab_cdef), "sha256:0123456789abcdef");
}

#[test]
fn trimming() {
    assert_eq!(trim("\u{a0} a b\t\r\n"), "a b");
    assert_eq!(trim_end(" a \n"), " a");
    assert_eq!(trim(" \u{3000} "), "");
    for code in 0u32..0x3100 {
        if let Some(c) = char::from_u32(code) {
            let text = format!("{c}x{c}");
            assert_eq!(trim(&text), text.trim());
        }
    }
}

#[test]
fn searching() {
    assert_eq!(find("añb: c: d", ": "), Some(3));
    assert_eq!(find("abc", "cd"), None);
    assert_eq!(find("abc", ""), Some(0));
    assert!(contains("KERNEL[1.0] add /x", "add"));
    assert!(!contains("ad", "add"));
    assert!(starts_with("UDEV  [1]", "UDEV"));
    assert!(!starts_with("UDE", "UDEV"));
    assert!(ends_with("x FOUND", " FOUND"));
    assert!(!ends_with("FOUND", " FOUND"));
}

#[test]
fn splitting() {
    assert_eq!(split("03,09", ','), vec!["03", "09"]);
    assert_eq!(split(",a,", ','), vec!["", "a", ""]);
    assert_eq!(split("", ','), vec![""]);
    assert_eq!(split_once("A=b=c", '='), Some(("A".to_owned(), "b=c".to_owned())));
    assert_eq!(split_once("abc", '='), None);
}

#[test]
fn debug_texts() {
    assert_eq!(debug_opt(&Some("a\"b\n".to_owned())), "Some(\"a\\\"b\\n\")");
    assert_eq!(debug_opt(&None), "None");
}

#[test]
fn windows() {
    assert!(within(10_000, 0, 10_000));
    assert!(!within(10_001, 0, 10_000));
    assert!(within(5, 9, 0));
    let mut times = vec![0u128, 500, 2_000];
    note_time(&mut times, 1_400, 1_000);
    assert_eq!(times, vec![500, 2_000, 1_400]);
}
