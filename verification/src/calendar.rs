//! The proleptic Gregorian calendar and timestamps in RFC 3339 form.

use vstd::prelude::*;

use crate::digits;
use crate::digits::{write_padded, write_signed};

verus! {

/// A date of the proleptic Gregorian calendar.
pub struct CivilDate {
    pub year: int,
    pub month: int,
    pub day: int,
}

/// A leap year of the Gregorian calendar.
pub open spec fn is_leap_year(year: int) -> bool {
    year % 4 == 0 && (year % 100 != 0 || year % 400 == 0)
}

/// The number of days of a month.
pub open spec fn days_in_month(year: int, month: int) -> int {
    if month == 2 {
        if is_leap_year(year) {
            29
        } else {
            28
        }
    } else if month == 4 || month == 6 || month == 9 || month == 11 {
        30
    } else {
        31
    }
}

/// The month exists, and the day exists in it.
pub open spec fn is_valid_date(date: CivilDate) -> bool {
    &&& 1 <= date.month <= 12
    &&& 1 <= date.day <= days_in_month(date.year, date.month)
}

/// The number of leap years from year 1 up to `year`; years before year 1 count negative.
pub open spec fn leap_years_through(year: int) -> int {
    year / 4 - year / 100 + year / 400
}

/// The number of days of `year` before the first of `month`.
pub open spec fn days_before_month(year: int, month: int) -> int
    decreases month,
{
    if month <= 1 {
        0
    } else {
        days_before_month(year, month - 1) + days_in_month(year, month - 1)
    }
}

/// The number of days from 1 January 1970 to the first day of `year`.
pub open spec fn days_before_year(year: int) -> int {
    365 * (year - 1970) + leap_years_through(year - 1) - leap_years_through(1969)
}

/// The number of days from 1 January 1970 to `date`.
pub open spec fn day_number(date: CivilDate) -> int {
    days_before_year(date.year) + days_before_month(date.year, date.month) + date.day - 1
}

/// The date that lies `days` days after 1 January 1970.
pub open spec fn civil_date(days: int) -> CivilDate {
    choose|date: CivilDate| is_valid_date(date) && #[trigger] day_number(date) == days
}

/// Splits a day of a 400-year era, which begins on 1 March, into its year and the day of that year.
proof fn lemma_year_of_era(doe: int)
    requires
        0 <= doe <= 146096,
    ensures
        ({
            let yoe = (doe - doe / 1460 + doe / 36524 - doe / 146096) / 365;
            let doy = doe - (365 * yoe + yoe / 4 - yoe / 100);
            &&& 0 <= yoe <= 399
            &&& 0 <= doy <= 365
            &&& doy == 365 ==> is_leap_year(yoe + 1)
        }),
{
}

/// The number of days before a month, in closed form.
proof fn lemma_days_before_month(year: int, month: int)
    requires
        1 <= month <= 12,
    ensures
        month == 1 ==> days_before_month(year, month) == 0,
        month == 2 ==> days_before_month(year, month) == 31,
        month >= 3 ==> days_before_month(year, month) == (if is_leap_year(year) {
            60
        } else {
            59int
        }) + (153 * (month - 3) + 2) / 5,
    decreases month,
{
    if month > 1 {
        lemma_days_before_month(year, month - 1);
    }
}

/// Year by year, the count of leap years grows at the leap years.
proof fn lemma_leap_years_step(year: int)
    ensures
        leap_years_through(year) == leap_years_through(year - 1) + (if is_leap_year(year) {
            1int
        } else {
            0
        }),
{
    assert(year / 4 == (year - 1) / 4 + (if year % 4 == 0 {
        1int
    } else {
        0
    }));
    assert(year / 100 == (year - 1) / 100 + (if year % 100 == 0 {
        1int
    } else {
        0
    }));
    assert(year / 400 == (year - 1) / 400 + (if year % 400 == 0 {
        1int
    } else {
        0
    }));
    lemma_century_is_fourth_year(year);
}

/// A year divisible by 100 is divisible by 4, and one divisible by 400 by 100.
proof fn lemma_century_is_fourth_year(year: int)
    ensures
        year % 100 == 0 ==> year % 4 == 0,
        year % 400 == 0 ==> year % 100 == 0,
{
}

/// The days before the next year are the days before this one and its own.
proof fn lemma_days_before_next_year(year: int)
    ensures
        days_before_year(year + 1) == days_before_year(year) + (if is_leap_year(year) {
            366int
        } else {
            365
        }),
{
    lemma_leap_years_step(year);
}

/// The days of a date within its year.
proof fn lemma_day_of_year_bounds(date: CivilDate)
    requires
        is_valid_date(date),
    ensures
        0 <= days_before_month(date.year, date.month) + date.day - 1 < (if is_leap_year(
            date.year,
        ) {
            366int
        } else {
            365
        }),
{
    lemma_days_before_month(date.year, date.month);
}

/// Earlier years begin earlier.
proof fn lemma_days_before_year_monotonic(a: int, b: int)
    requires
        a <= b,
    ensures
        days_before_year(a) + 365 * (b - a) <= days_before_year(b),
    decreases b - a,
{
    if a < b {
        lemma_days_before_year_monotonic(a, b - 1);
        lemma_days_before_next_year(b - 1);
    }
}

/// No two valid dates lie equally far from 1 January 1970.
pub proof fn lemma_day_number_injective(a: CivilDate, b: CivilDate)
    requires
        is_valid_date(a),
        is_valid_date(b),
        day_number(a) == day_number(b),
    ensures
        a == b,
{
    lemma_day_of_year_bounds(a);
    lemma_day_of_year_bounds(b);
    if a.year < b.year {
        lemma_days_before_next_year(a.year);
        lemma_days_before_year_monotonic(a.year + 1, b.year);
    } else if b.year < a.year {
        lemma_days_before_next_year(b.year);
        lemma_days_before_year_monotonic(b.year + 1, a.year);
    }
    lemma_days_before_month(a.year, a.month);
    lemma_days_before_month(b.year, b.month);
}

/// Every valid date is the civil date of its day number.
pub proof fn lemma_civil_date_of_day_number(date: CivilDate)
    requires
        is_valid_date(date),
    ensures
        civil_date(day_number(date)) == date,
{
    let found = civil_date(day_number(date));
    assert(is_valid_date(found) && day_number(found) == day_number(date));
    lemma_day_number_injective(found, date);
}

/// The month that lies `month_prime` months after March.
pub open spec fn month_from_march(month_prime: int) -> int {
    if month_prime < 10 {
        month_prime + 3
    } else {
        month_prime - 9
    }
}

/// Splits a day of a year, which begins on 1 March, into month and day.
proof fn lemma_month_of_year(doy: int)
    requires
        0 <= doy <= 365,
    ensures
        ({
            let mp = (5 * doy + 2) / 153;
            let day = doy - (153 * mp + 2) / 5 + 1;
            &&& 0 <= mp <= 11
            &&& 1 <= day
            &&& mp == 11 ==> (day <= 29 && (day == 29 ==> doy == 365))
            &&& (mp == 1 || mp == 3 || mp == 6 || mp == 8) ==> day <= 30
            &&& day <= 31
        }),
{
}

/// A year and the year of its 400-year era leave the same remainders.
proof fn lemma_era_remainders(era: int, year: int)
    ensures
        (400 * era + year) % 4 == year % 4,
        (400 * era + year) % 100 == year % 100,
        (400 * era + year) % 400 == year % 400,
{
    vstd::arithmetic::div_mod::lemma_mod_multiples_vanish(100 * era, year, 4);
    vstd::arithmetic::div_mod::lemma_mod_multiples_vanish(4 * era, year, 100);
    vstd::arithmetic::div_mod::lemma_mod_multiples_vanish(era, year, 400);
}

/// A year and the year of its 400-year era have quotients that differ by the eras' own.
proof fn lemma_era_quotients(era: int, year: int)
    ensures
        (400 * era + year) / 4 == 100 * era + year / 4,
        (400 * era + year) / 100 == 4 * era + year / 100,
        (400 * era + year) / 400 == era + year / 400,
{
}

/// The leap years through a year, split into its 400-year era and the year of that era.
proof fn lemma_leap_years_of_era(era: int, yoe: int)
    requires
        0 <= yoe <= 399,
    ensures
        leap_years_through(400 * era + yoe) == 97 * era + yoe / 4 - yoe / 100,
        is_leap_year(400 * era + yoe + 1) == is_leap_year(yoe + 1),
{
    lemma_era_quotients(era, yoe);
    lemma_era_remainders(era, yoe + 1);
}

/// A year, month and day computed by eras form a valid date with the right day number.
proof fn lemma_date_of_era(era: int, doe: int)
    requires
        0 <= doe <= 146096,
    ensures
        ({
            let yoe = (doe - doe / 1460 + doe / 36524 - doe / 146096) / 365;
            let doy = doe - (365 * yoe + yoe / 4 - yoe / 100);
            let mp = (5 * doy + 2) / 153;
            let day = doy - (153 * mp + 2) / 5 + 1;
            let month = month_from_march(mp);
            let year = yoe + era * 400 + if month <= 2 {
                1int
            } else {
                0
            };
            let date = CivilDate { year, month, day };
            &&& 0 <= yoe <= 399
            &&& 0 <= doy <= 365
            &&& 0 <= mp <= 11
            &&& is_valid_date(date)
            &&& day_number(date) == 146097 * era + doe - 719468
        }),
{
    lemma_year_of_era(doe);
    let yoe = (doe - doe / 1460 + doe / 36524 - doe / 146096) / 365;
    let doy = doe - (365 * yoe + yoe / 4 - yoe / 100);
    lemma_month_of_year(doy);
    let mp = (5 * doy + 2) / 153;
    let day = doy - (153 * mp + 2) / 5 + 1;
    let month = month_from_march(mp);
    let march_year = yoe + era * 400;
    let year = march_year + if month <= 2 {
        1int
    } else {
        0
    };
    lemma_leap_years_of_era(era, yoe);
    lemma_days_before_month(year, month);
    if month <= 2 {
        assert(days_before_year(year) == 365 * (march_year + 1 - 1970) + leap_years_through(
            march_year,
        ) - leap_years_through(1969));
    } else {
        lemma_leap_years_step(march_year);
    }
    assert(leap_years_through(1969) == 477);
}

/// Year, month and day of the date that lies `days` days after 1 January 1970.
///
/// The year is returned modulo 2^32, as an `i32`.
pub fn civil_from_days(days: i64) -> (result: (i32, u32, u32))
    requires
        days <= i64::MAX - 719_468,
    ensures
        is_valid_date(civil_date(days as int)),
        day_number(civil_date(days as int)) == days,
        result.0 == (civil_date(days as int).year as i64) as i32,
        result.1 == civil_date(days as int).month,
        result.2 == civil_date(days as int).day,
{
    let days_from_march: i64 = days + 719_468;
    let shifted: i64 = if days_from_march >= 0 {
        days_from_march
    } else {
        days_from_march - 146_096
    };
    let era: i64 = shifted / 146_097;
    let day_of_era: i64 = days_from_march - era * 146_097;
    assert(0 <= day_of_era <= 146_096);
    proof {
        lemma_date_of_era(era as int, day_of_era as int);
    }
    let year_of_era: i64 = (day_of_era - day_of_era / 1_460 + day_of_era / 36_524 - day_of_era
        / 146_096) / 365;
    let march_year: i64 = year_of_era + era * 400;
    let day_of_year: i64 = day_of_era - (365 * year_of_era + year_of_era / 4 - year_of_era / 100);
    let month_prime: i64 = (5 * day_of_year + 2) / 153;
    let day: i64 = day_of_year - (153 * month_prime + 2) / 5 + 1;
    let month: i64 = month_prime + if month_prime < 10 {
        3
    } else {
        -9
    };
    let year: i64 = march_year + if month <= 2 {
        1
    } else {
        0
    };
    proof {
        let date = CivilDate { year: year as int, month: month as int, day: day as int };
        assert(is_valid_date(date));
        assert(day_number(date) == days);
        lemma_civil_date_of_day_number(date);
    }
    (year as i32, month as u32, day as u32)
}

/// The day after a date.
pub open spec fn next_date(date: CivilDate) -> CivilDate {
    if date.day < days_in_month(date.year, date.month) {
        CivilDate { day: date.day + 1, ..date }
    } else if date.month < 12 {
        CivilDate { month: date.month + 1, day: 1, ..date }
    } else {
        CivilDate { year: date.year + 1, month: 1, day: 1 }
    }
}

/// Day numbers count the days of the calendar: 1 January 1970 is day 0, and each day is followed
/// by a valid date whose number is one higher.
pub proof fn lemma_day_numbers_count_days(date: CivilDate)
    requires
        is_valid_date(date),
    ensures
        day_number(CivilDate { year: 1970, month: 1, day: 1 }) == 0,
        is_valid_date(next_date(date)),
        day_number(next_date(date)) == day_number(date) + 1,
{
    lemma_days_before_month(date.year, date.month);
    lemma_days_before_month(next_date(date).year, next_date(date).month);
    lemma_days_before_next_year(date.year);
    lemma_days_before_month(1970, 1);
}

/// The two decimal digits of a number below 100.
pub open spec fn two_digits(n: nat) -> Seq<char> {
    digits::zero_filled(digits::decimal(n), 2)
}

/// The date part of a timestamp, for a day and a year that is already cut to 32 bits.
pub open spec fn date_text(year: int, month: int, day: int) -> Seq<char> {
    digits::signed_decimal(year, 4) + seq!['-'] + two_digits(month as nat) + seq!['-']
        + two_digits(day as nat)
}

/// The time part of a timestamp, for a second of the day.
pub open spec fn time_text(second_of_day: int) -> Seq<char> {
    two_digits((second_of_day / 3600) as nat) + seq![':'] + two_digits(
        ((second_of_day % 3600) / 60) as nat,
    ) + seq![':'] + two_digits((second_of_day % 60) as nat)
}

/// The UTC timestamp, in RFC 3339 form, of the instant `seconds` seconds after the Unix epoch.
pub open spec fn rfc3339(seconds: i64) -> Seq<char> {
    let date = civil_date(seconds as int / 86_400);
    date_text(((date.year as i64) as i32) as int, date.month, date.day) + seq!['T'] + time_text(
        seconds as int % 86_400,
    ) + seq!['Z']
}

/// The UTC timestamp, in RFC 3339 form, of the instant `seconds` seconds after the Unix epoch.
///
/// Counts of 2^63 seconds and more wrap to negative ones.
pub fn timestamp_rfc3339(seconds: u64) -> (text: String)
    ensures
        text@ == rfc3339(seconds as i64),
{
    let signed: i64 = seconds as i64;
    let days: i64 = signed.checked_div_euclid(86_400).unwrap();
    let second_of_day: i64 = signed.checked_rem_euclid(86_400).unwrap();
    let (year, month, day) = civil_from_days(days);
    let hour: i64 = second_of_day / 3_600;
    let minute: i64 = (second_of_day % 3_600) / 60;
    let second: i64 = second_of_day % 60;
    let mut date = write_signed(year, 4);
    date.push('-');
    date.append(write_padded(month as u128, 2).as_str());
    date.push('-');
    date.append(write_padded(day as u128, 2).as_str());
    let ghost civil = civil_date(days as int);
    assert(date@ == date_text(year as int, civil.month, civil.day));
    let mut time = write_padded(hour as u128, 2);
    time.push(':');
    time.append(write_padded(minute as u128, 2).as_str());
    time.push(':');
    time.append(write_padded(second as u128, 2).as_str());
    assert(time@ == time_text(second_of_day as int));
    let mut text = date;
    text.push('T');
    text.append(time.as_str());
    text.push('Z');
    assert(text@ == rfc3339(signed));
    text
}

/// From the Unix epoch up to the end of year 9999 the year has four digits.
proof fn lemma_four_digit_year(days: int)
    requires
        0 <= days < 2_932_897,
    ensures
        is_valid_date(civil_date(days)),
        day_number(civil_date(days)) == days,
        1970 <= civil_date(days).year <= 9999,
{
    lemma_date_of_era((days + 719_468) / 146_097, (days + 719_468) % 146_097);
    let date = civil_date(days);
    lemma_day_of_year_bounds(date);
    assert(days_before_year(1970) == 0);
    assert(days_before_year(10_000) == 2_932_897);
    if date.year < 1970 {
        lemma_days_before_next_year(date.year);
        lemma_days_before_year_monotonic(date.year + 1, 1970);
    }
    if date.year > 9999 {
        lemma_days_before_year_monotonic(10_000, date.year);
    }
}

/// Up to the end of year 9999 a timestamp has 20 characters, and no two instants share one.
pub proof fn lemma_rfc3339_tells_instants_apart(a: i64, b: i64)
    requires
        0 <= a < 253_402_300_800,
        0 <= b < 253_402_300_800,
    ensures
        rfc3339(a).len() == 20,
        rfc3339(a) == rfc3339(b) ==> a == b,
{
    lemma_rfc3339_parts(a);
    lemma_rfc3339_parts(b);
    if rfc3339(a) == rfc3339(b) {
        let da = civil_date(a as int / 86_400);
        let db = civil_date(b as int / 86_400);
        let sa = a as int % 86_400;
        let sb = b as int % 86_400;
        lemma_two_digits_equal(da.month, db.month);
        lemma_two_digits_equal(da.day, db.day);
        lemma_two_digits_equal(sa / 3600, sb / 3600);
        lemma_two_digits_equal((sa % 3600) / 60, (sb % 3600) / 60);
        lemma_two_digits_equal(sa % 60, sb % 60);
        reveal_with_fuel(digits::capacity, 5);
        digits::lemma_fixed_width(da.year as nat, db.year as nat, 4, 10);
    }
}

/// Two numbers below 100 are equal where their two digits are.
proof fn lemma_two_digits_equal(a: int, b: int)
    requires
        0 <= a < 100,
        0 <= b < 100,
    ensures
        two_digits(a as nat).len() == 2,
        two_digits(a as nat) == two_digits(b as nat) ==> a == b,
{
    reveal_with_fuel(digits::capacity, 3);
    digits::lemma_fixed_width(a as nat, b as nat, 2, 10);
}

/// The parts of a timestamp before the end of year 9999, by their positions.
proof fn lemma_rfc3339_parts(seconds: i64)
    requires
        0 <= seconds < 253_402_300_800,
    ensures
        ({
            let text = rfc3339(seconds);
            let date = civil_date(seconds as int / 86_400);
            let sod = seconds as int % 86_400;
            &&& is_valid_date(date)
            &&& day_number(date) == seconds as int / 86_400
            &&& 1970 <= date.year <= 9999
            &&& 0 <= sod < 86_400
            &&& text.len() == 20
            &&& text.subrange(0, 4) == digits::zero_filled(digits::decimal(date.year as nat), 4)
            &&& text.subrange(5, 7) == two_digits(date.month as nat)
            &&& text.subrange(8, 10) == two_digits(date.day as nat)
            &&& text.subrange(11, 13) == two_digits((sod / 3600) as nat)
            &&& text.subrange(14, 16) == two_digits(((sod % 3600) / 60) as nat)
            &&& text.subrange(17, 19) == two_digits((sod % 60) as nat)
        }),
{
    let date = civil_date(seconds as int / 86_400);
    let sod = seconds as int % 86_400;
    lemma_four_digit_year(seconds as int / 86_400);
    reveal_with_fuel(digits::capacity, 5);
    digits::lemma_fixed_width(date.year as nat, date.year as nat, 4, 10);
    lemma_two_digits_equal(date.month, date.month);
    lemma_two_digits_equal(date.day, date.day);
    lemma_two_digits_equal(sod / 3600, sod / 3600);
    lemma_two_digits_equal((sod % 3600) / 60, (sod % 3600) / 60);
    lemma_two_digits_equal(sod % 60, sod % 60);
    let text = rfc3339(seconds);
    let day_text = date_text(((date.year as i64) as i32) as int, date.month, date.day);
    assert(day_text.len() == 10);
    assert(time_text(sod).len() == 8);
    assert(text.subrange(0, 4) == digits::zero_filled(digits::decimal(date.year as nat), 4));
    assert(text.subrange(5, 7) == two_digits(date.month as nat));
    assert(text.subrange(8, 10) == two_digits(date.day as nat));
    assert(text.subrange(11, 13) == two_digits((sod / 3600) as nat));
    assert(text.subrange(14, 16) == two_digits(((sod % 3600) / 60) as nat));
    assert(text.subrange(17, 19) == two_digits((sod % 60) as nat));
}

} // verus!
