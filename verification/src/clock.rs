//! Readings of the wall clock.

use std::time::{Duration, SystemTime, SystemTimeError};

use vstd::prelude::*;

use crate::calendar;
use crate::calendar::timestamp_rfc3339;

verus! {

/// `std::time::SystemTime`, a reading of the wall clock; its contents stay opaque.
#[verifier::external_type_specification]
#[verifier::external_body]
pub struct ExSystemTime(std::time::SystemTime);

/// `std::time::SystemTimeError`, which tells that one reading is earlier than another.
#[verifier::external_type_specification]
#[verifier::external_body]
pub struct ExSystemTimeError(std::time::SystemTimeError);

/// `std::time::SystemTime::now` reads the wall clock. Nothing is claimed of the reading.
pub assume_specification[ std::time::SystemTime::now ]() -> std::time::SystemTime;

/// `std::time::Duration::as_secs` gives the whole seconds of a duration. Nothing is claimed of
/// their number, which rests on the clock.
pub assume_specification[ std::time::Duration::as_secs ](duration: &std::time::Duration) -> u64;

/// `std::time::Duration::subsec_millis` gives the fractional part of a duration in whole
/// milliseconds, which is less than a thousand.
pub assume_specification[ std::time::Duration::subsec_millis ](
    duration: &std::time::Duration,
) -> (millis: u32)
    ensures
        millis < 1000,
;

/// `std::time::SystemTime::duration_since`, called with the Unix epoch: the time that has passed
/// since then, or an error where the clock stands before it. Nothing is claimed of either.
#[verifier::external_body]
fn since_unix_epoch(reading: &SystemTime) -> (elapsed: Result<Duration, SystemTimeError>) {
    reading.duration_since(std::time::UNIX_EPOCH)
}

/// What the wall clock shows: whole seconds since the Unix epoch and the milliseconds on top.
pub struct ClockReading {
    pub seconds: u64,
    pub millis: u32,
}

impl ClockReading {
    /// The milliseconds stay below one second.
    pub open spec fn wf(self) -> bool {
        self.millis < 1000
    }

    /// The reading in milliseconds.
    pub open spec fn in_millis(self) -> nat {
        (self.seconds * 1000 + self.millis) as nat
    }

    /// The reading in milliseconds.
    pub fn to_millis(&self) -> (millis: u128)
        ensures
            millis == self.in_millis(),
    {
        (self.seconds as u128) * 1000 + (self.millis as u128)
    }
}

/// Reads the wall clock; a clock that stands before the Unix epoch reads as the epoch itself.
pub fn read_clock() -> (reading: ClockReading)
    ensures
        reading.wf(),
{
    let now = SystemTime::now();
    let elapsed = match since_unix_epoch(&now) {
        Ok(elapsed) => Some((elapsed.as_secs(), elapsed.subsec_millis())),
        Err(_) => None,
    };
    reading_of(elapsed)
}

/// The reading of a clock for which so many whole seconds, and milliseconds on top, have passed
/// since the Unix epoch; `None` stands for a clock before the epoch, which reads as the epoch.
pub fn reading_of(elapsed: Option<(u64, u32)>) -> (reading: ClockReading)
    ensures
        elapsed matches Some((seconds, millis)) ==> reading.seconds == seconds && reading.millis
            == millis,
        elapsed is None ==> reading.seconds == 0 && reading.millis == 0,
{
    match elapsed {
        Some((seconds, millis)) => ClockReading { seconds, millis },
        None => ClockReading { seconds: 0, millis: 0 },
    }
}

/// Milliseconds that the wall clock shows since the Unix epoch.
pub fn current_timestamp_ms() -> (millis: u128)
    ensures
        exists|reading: ClockReading| #[trigger]
            reading.wf() && millis == reading.in_millis(),
{
    let reading = read_clock();
    reading.to_millis()
}

/// The RFC 3339 timestamp that the wall clock shows.
pub fn current_timestamp_rfc3339() -> (text: String)
    ensures
        exists|seconds: u64| text@ == #[trigger] calendar::rfc3339(seconds as i64),
{
    let reading = read_clock();
    timestamp_rfc3339(reading.seconds)
}

/// The two readings that go into one incident: milliseconds for its identifier, and the timestamp.
pub struct Stamp {
    pub millis: u128,
    pub timestamp: String,
}

/// The contents of a [`Stamp`].
pub struct StampView {
    pub millis: u128,
    pub timestamp: Seq<char>,
}

impl View for Stamp {
    type V = StampView;

    open spec fn view(&self) -> StampView {
        StampView { millis: self.millis, timestamp: self.timestamp@ }
    }
}

impl StampView {
    /// A stamp that two clock readings can give.
    pub open spec fn is_reading(self) -> bool {
        &&& exists|reading: ClockReading| #[trigger]
            reading.wf() && self.millis == reading.in_millis()
        &&& exists|seconds: u64| self.timestamp == #[trigger] calendar::rfc3339(seconds as i64)
    }
}

impl Stamp {
    /// Reads the clock for one incident, the milliseconds first.
    pub fn read() -> (stamp: Self)
        ensures
            stamp@.is_reading(),
    {
        let millis: u128 = current_timestamp_ms();
        let timestamp = current_timestamp_rfc3339();
        Stamp { millis, timestamp }
    }
}

} // verus!
