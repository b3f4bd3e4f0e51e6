//! Points in time, as seconds since the Unix epoch.

use std::time::Duration;

use chrono::{TimeZone, Utc};
use vstd::prelude::*;

verus! {

/// The first second of the calendar that `chrono` can represent.
pub const FIRST_CALENDAR_SECOND: i64 = -8_334_601_228_800;

/// The last second of the calendar that `chrono` can represent.
pub const LAST_CALENDAR_SECOND: i64 = 8_210_266_876_799;

/// The last second of the year 9999.
pub const LAST_GENERALIZED_SECOND: i64 = 253_402_300_799;

/// A point in time.
#[derive(Clone, Copy, Debug, PartialEq, Eq, Structural)]
pub struct DateTime {
    /// Whole seconds since the Unix epoch.
    pub seconds: i64,
    /// Nanoseconds since the last whole second.
    pub nanos: u32,
}

impl DateTime {
    /// Whole seconds since the Unix epoch.
    pub fn timestamp(self) -> (seconds: i64)
        ensures
            seconds == self.seconds,
    {
        self.seconds
    }
}

/// The time in a certificate or in a signed attribute.
#[derive(Clone, Copy, Debug, PartialEq, Eq, Structural)]
pub enum Time {
    /// Encoded as a UTCTime.
    Utc(DateTime),
    /// Encoded as a GeneralizedTime.
    General(GeneralizedTime),
}

impl DeepView for Time {
    type V = Time;

    open spec fn deep_view(&self) -> Time {
        *self
    }
}

impl Time {
    /// The point in time.
    pub open spec fn datetime(self) -> DateTime {
        match self {
            Time::Utc(u) => u,
            Time::General(gt) => gt.datetime(),
        }
    }
}

/// The time in a time stamp.
#[derive(Clone, Copy, Debug, PartialEq, Eq, Structural)]
pub struct GeneralizedTime {
    /// Whole seconds since the Unix epoch.
    pub seconds: i64,
    /// Nanoseconds since the last whole second.
    pub nanos: u32,
}

impl GeneralizedTime {
    /// The point in time.
    pub open spec fn datetime(self) -> DateTime {
        DateTime { seconds: self.seconds, nanos: self.nanos }
    }
}

/// A second that a GeneralizedTime of `der` can hold.
pub open spec fn in_generalized_range(seconds: int) -> bool {
    0 <= seconds <= LAST_GENERALIZED_SECOND
}

/// Calls `timestamp_opt` of `chrono::Utc`, and `timestamp` on the date that comes out: the same
/// number of seconds, for the seconds of the years that `chrono` can represent, and nothing
/// outside of them.
#[verifier::external_body]
fn calendar_second(seconds: i64) -> (second: Option<i64>)
    ensures
        second == (if FIRST_CALENDAR_SECOND <= seconds <= LAST_CALENDAR_SECOND {
            Some(seconds)
        } else {
            None
        }),
{
    Utc.timestamp_opt(seconds, 0).single().map(|time| time.timestamp())
}

/// Calls `der::asn1::GeneralizedTime::from_unix_duration`, and `to_unix_duration` on the time
/// that comes out: the same number of seconds up to the end of the year 9999, and nothing after
/// it.
#[verifier::external_body]
fn generalized_second(seconds: u64) -> (second: Option<u64>)
    ensures
        second == (if seconds <= LAST_GENERALIZED_SECOND {
            Some(seconds)
        } else {
            None
        }),
{
    der::asn1::GeneralizedTime::from_unix_duration(Duration::from_secs(seconds)).ok().map(
        |time| time.to_unix_duration().as_secs(),
    )
}

/// The point in time that a GeneralizedTime stands for.
pub fn generalized_time_to_datetime(gt: GeneralizedTime) -> (datetime: DateTime)
    ensures
        datetime == gt.datetime(),
{
    DateTime { seconds: gt.seconds, nanos: gt.nanos }
}

/// The point in time that a time stands for.
pub fn time_to_datetime(t: Time) -> (datetime: DateTime)
    ensures
        datetime == t.datetime(),
{
    match t {
        Time::Utc(u) => u,
        Time::General(gt) => generalized_time_to_datetime(gt),
    }
}

/// The GeneralizedTime of a number of seconds since the Unix epoch; `None` for times before 1970
/// and after 9999.
pub fn timestamp_to_generalized_time(dt: i64) -> (time: Option<GeneralizedTime>)
    ensures
        time == generalized_time_at(dt),
{
    match calendar_second(dt) {
        Some(seconds) if seconds >= 0 => match generalized_second(seconds as u64) {
            Some(second) => Some(GeneralizedTime { seconds: second as i64, nanos: 0 }),
            None => None,
        },
        _ => None,
    }
}

/// The GeneralizedTime at a second, where there is one.
pub open spec fn generalized_time_at(seconds: i64) -> Option<GeneralizedTime> {
    if in_generalized_range(seconds as int) {
        Some(GeneralizedTime { seconds, nanos: 0 })
    } else {
        None
    }
}

/// A number of seconds that becomes a GeneralizedTime is what the GeneralizedTime turns back
/// into, without a fraction.
pub proof fn generalized_time_keeps_the_second(seconds: i64)
    ensures
        generalized_time_at(seconds) matches Some(gt) ==> gt.datetime() == (DateTime {
            seconds,
            nanos: 0,
        }),
        generalized_time_at(seconds) is Some <==> in_generalized_range(seconds as int),
{
}

} // verus!
