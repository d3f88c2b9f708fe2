//! The date and time lines of the log.

use chrono::{Datelike, Local, TimeZone, Timelike};
use vstd::prelude::*;

verus! {

/// How the log writes a date and time: the names of the weekday and of the month,
/// the day, the year, and the time on a twelve-hour clock with AM or PM.
pub const DATE_TIME_FORMAT: &'static str = "%A, %B %e, %Y %r";

/// A date and time in the time zone of the machine that reads the log: the
/// calendar date and clock time there, and how far that zone was ahead of UTC.
#[derive(Clone, Copy, Debug, PartialEq, Eq, Structural)]
pub struct Timestamp {
    pub year: i32,
    /// From 1 to 12.
    pub month: u32,
    /// From 1 to 31.
    pub day: u32,
    /// From 0 to 23.
    pub hour: u32,
    /// From 0 to 59.
    pub minute: u32,
    /// From 0 to 59.
    pub second: u32,
    /// The part of a second, in nanoseconds. A leap second is second 59 with a
    /// thousand million nanoseconds or more.
    pub nanosecond: u32,
    /// Local time minus UTC, in seconds.
    pub utc_offset: i32,
}

impl Timestamp {
    /// Whether each field is in its range.
    pub open spec fn well_formed(self) -> bool {
        &&& 1 <= self.month <= 12
        &&& 1 <= self.day <= 31
        &&& self.hour <= 23
        &&& self.minute <= 59
        &&& self.second <= 59
        &&& self.nanosecond <= 1_999_999_999
        &&& -86_400 < self.utc_offset < 86_400
    }
}

/// Whether `time` may be what reading a date and time gave: nothing, or a
/// well-formed timestamp.
pub open spec fn may_be_read(time: Option<Timestamp>) -> bool {
    time matches Some(t) ==> t.well_formed()
}

/// Calls chrono's `TimeZone::datetime_from_str` on `Local` with
/// [`DATE_TIME_FORMAT`], and copies the fields of the date and time that it gives.
///
/// Trusted: the fields are in the ranges that chrono documents for them. Whether a
/// text is read, and with which offset, is left open: it depends on the time zone
/// of the machine, in which a local time may not exist or may occur twice.
#[verifier::external_body]
#[allow(deprecated)]
pub(crate) fn local_datetime_from_str(value: &str) -> (r: Option<Timestamp>)
    ensures
        may_be_read(r),
{
    match Local.datetime_from_str(value, DATE_TIME_FORMAT) {
        Ok(t) => Some(
            Timestamp {
                year: t.year(),
                month: t.month(),
                day: t.day(),
                hour: t.hour(),
                minute: t.minute(),
                second: t.second(),
                nanosecond: t.nanosecond(),
                utc_offset: t.offset().local_minus_utc(),
            },
        ),
        Err(_) => None,
    }
}

} // verus!
