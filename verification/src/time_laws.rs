//! What holds of dates, timestamps and clock readings.

use vstd::prelude::*;

use crate::anomaly;
use crate::anomaly::AnomalyClockView;
use crate::byte_order;
use crate::byte_order::ByteOrder;
use crate::calendar;
use crate::calendar::CivilDate;
use crate::clock::{ClockReading, StampView};
use crate::digits;
use crate::fs_monitor::FsClockView;
use crate::usb_monitor;
use crate::usb_monitor::EventClockView;

verus! {

/// Every fourth year is a leap year, but of the full centuries only every fourth.
pub proof fn lemma_leap_years(year: int)
    ensures
        year % 400 == 0 ==> calendar::is_leap_year(year),
        year % 100 == 0 && year % 400 != 0 ==> !calendar::is_leap_year(year),
        year % 4 == 0 && year % 100 != 0 ==> calendar::is_leap_year(year),
        year % 4 != 0 ==> !calendar::is_leap_year(year),
{
}

/// The lengths of the months.
pub proof fn lemma_month_lengths(year: int)
    ensures
        calendar::days_in_month(year, 1) == 31,
        calendar::days_in_month(year, 2) == if calendar::is_leap_year(year) {
            29int
        } else {
            28
        },
        calendar::days_in_month(year, 3) == 31,
        calendar::days_in_month(year, 4) == 30,
        calendar::days_in_month(year, 5) == 31,
        calendar::days_in_month(year, 6) == 30,
        calendar::days_in_month(year, 7) == 31,
        calendar::days_in_month(year, 8) == 31,
        calendar::days_in_month(year, 9) == 30,
        calendar::days_in_month(year, 10) == 31,
        calendar::days_in_month(year, 11) == 30,
        calendar::days_in_month(year, 12) == 31,
{
}

/// A date has one of twelve months and a day of that month.
pub proof fn lemma_valid_dates(date: CivilDate)
    ensures
        calendar::is_valid_date(date) <==> 1 <= date.month <= 12 && 1 <= date.day
            <= calendar::days_in_month(date.year, date.month),
{
}

/// Days are counted from the first of January 1970 on, one by one: through the month, from month to
/// month, and from year to year; and each number gives back its date.
pub proof fn lemma_days_are_counted(date: CivilDate)
    requires
        calendar::is_valid_date(date),
    ensures
        calendar::day_number(CivilDate { year: 1970, month: 1, day: 1 }) == 0,
        date.day < calendar::days_in_month(date.year, date.month) ==> calendar::day_number(
            CivilDate { year: date.year, month: date.month, day: date.day + 1 },
        ) == calendar::day_number(date) + 1,
        date.day == calendar::days_in_month(date.year, date.month) && date.month < 12
            ==> calendar::day_number(
            CivilDate { year: date.year, month: date.month + 1, day: 1 },
        ) == calendar::day_number(date) + 1,
        date.day == 31 && date.month == 12 ==> calendar::day_number(
            CivilDate { year: date.year + 1, month: 1, day: 1 },
        ) == calendar::day_number(date) + 1,
        calendar::civil_date(calendar::day_number(date)) == date,
{
    calendar::lemma_day_numbers_count_days(date);
    calendar::lemma_civil_date_of_day_number(date);
}

/// A number of two digits.
pub open spec fn two(n: int) -> Seq<char> {
    digits::zero_filled(digits::decimal(n as nat), 2)
}

/// The year that a timestamp tells: its lower 32 bits, as a signed number.
pub open spec fn told_year(date: CivilDate) -> int {
    ((date.year as i64) as i32) as int
}

/// The timestamp of an instant tells its date and its time of day in UTC: year, month and day, and
/// hour, minute and second. Of a year that 32 bits do not hold, the lower 32 bits are told.
pub proof fn lemma_timestamp(date: CivilDate, hour: int, minute: int, second: int, instant: i64)
    requires
        calendar::is_valid_date(date),
        0 <= hour < 24,
        0 <= minute < 60,
        0 <= second < 60,
        instant == calendar::day_number(date) * 86_400 + hour * 3600 + minute * 60 + second,
    ensures
        i32::MIN <= date.year <= i32::MAX ==> told_year(date) == date.year,
        calendar::rfc3339(instant) == digits::signed_decimal(told_year(date), 4) + seq!['-'] + two(
            date.month,
        ) + seq!['-'] + two(date.day) + seq!['T'] + two(hour) + seq![':'] + two(minute) + seq![':']
            + two(second) + seq!['Z'],
{
    let days = calendar::day_number(date);
    let sod = hour * 3600 + minute * 60 + second;
    calendar::lemma_civil_date_of_day_number(date);
    assert(instant as int / 86_400 == days);
    assert(instant as int % 86_400 == sod);
    assert(sod / 3600 == hour);
    assert((sod % 3600) / 60 == minute);
    assert(sod % 60 == second);
    assert(calendar::rfc3339(instant) =~= digits::signed_decimal(told_year(date), 4) + seq!['-'] + two(
        date.month,
    ) + seq!['-'] + two(date.day) + seq!['T'] + two(hour) + seq![':'] + two(minute) + seq![':']
        + two(second) + seq!['Z']);
}

/// A clock reading is so many seconds and less than a thousand milliseconds, and counts a thousand
/// for each second.
pub proof fn lemma_readings(reading: ClockReading)
    ensures
        reading.wf() <==> reading.millis < 1000,
        reading.in_millis() == 1000 * reading.seconds + reading.millis,
{
}

/// The milliseconds of a stamp are those of a clock reading, and its timestamp that of one.
pub proof fn lemma_stamps(stamp: StampView)
    ensures
        stamp.is_reading() <==> usb_monitor::is_millis(stamp.millis) && anomaly::is_timestamp(
            stamp.timestamp,
        ),
{
}

/// The readings that go into one event or one comparison are each a reading of the clock.
pub proof fn lemma_clocks_are_readings(
    event: EventClockView,
    change: AnomalyClockView,
    file: FsClockView,
)
    ensures
        event.is_reading() ==> {
            &&& event.malformed.is_reading()
            &&& event.burst.is_reading()
            &&& event.flap.is_reading()
            &&& event.turn.is_reading()
            &&& usb_monitor::is_millis(event.burst_ms)
            &&& usb_monitor::is_millis(event.flap_ms)
        },
        change.is_reading() ==> {
            &&& anomaly::is_timestamp(change.topology)
            &&& anomaly::is_timestamp(change.class)
            &&& anomaly::is_timestamp(change.serial)
            &&& anomaly::is_timestamp(change.devpath)
        },
        file.is_reading() ==> {
            &&& usb_monitor::is_millis(file.upload_ms)
            &&& file.upload.is_reading()
            &&& file.primary.is_reading()
        },
{
}

/// A number of milliseconds, and a timestamp, come each from a reading of the clock.
pub proof fn lemma_single_readings(millis: u128, timestamp: Seq<char>)
    ensures
        usb_monitor::is_millis(millis) <==> exists|reading: ClockReading|
            reading.millis < 1000 && millis == #[trigger] reading.in_millis(),
        anomaly::is_timestamp(timestamp) <==> exists|seconds: u64|
            timestamp == #[trigger] calendar::rfc3339(seconds as i64),
{
    if usb_monitor::is_millis(millis) {
        let reading = choose|reading: ClockReading| #[trigger]
            reading.wf() && millis == reading.in_millis();
        assert(millis == reading.in_millis());
    }
    if exists|reading: ClockReading|
        reading.millis < 1000 && millis == #[trigger] reading.in_millis() {
        let reading = choose|reading: ClockReading|
            reading.millis < 1000 && millis == #[trigger] reading.in_millis();
        assert(reading.wf());
    }
}

/// The sixteen bytes of a number stand in one order or in the other.
pub proof fn lemma_byte_orders(n: u128, i: int)
    requires
        0 <= i < vstd::bytes::spec_u128_to_le_bytes(n).len(),
    ensures
        byte_order::bytes_in_order(n, ByteOrder::Little) == vstd::bytes::spec_u128_to_le_bytes(n),
        byte_order::bytes_in_order(n, ByteOrder::Big).len() == vstd::bytes::spec_u128_to_le_bytes(
            n,
        ).len(),
        byte_order::bytes_in_order(n, ByteOrder::Big)[i] == vstd::bytes::spec_u128_to_le_bytes(n)[
        vstd::bytes::spec_u128_to_le_bytes(n).len() - 1 - i],
{
}

} // verus!
