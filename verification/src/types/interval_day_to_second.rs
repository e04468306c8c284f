use vstd::prelude::*;
use super::super::types::{Error, is_day_second_text, ds_negative, ds_days, ds_clock,
    clock_hours, clock_minutes, clock_seconds, clock_millis, parse_day_second};

verus! {

/// An interval of days and a clock reading, signed, to the millisecond.
#[derive(Debug, PartialEq, Eq)]
pub struct IntervalDayToSecond {
    pub negative: bool,
    pub days: u64,
    pub hours: u8,
    pub minutes: u8,
    pub seconds: u8,
    pub milliseconds: u32,
}

/// The signed second count an interval denotes.
pub open spec fn spec_total_seconds(
    neg: bool,
    days: int,
    hours: int,
    minutes: int,
    seconds: int,
) -> int {
    if neg {
        -(((days * 24 + hours) * 60 + minutes) * 60 + seconds)
    } else {
        ((days * 24 + hours) * 60 + minutes) * 60 + seconds
    }
}

impl IntervalDayToSecond {
    /// Parses the wire text `[-]D HH:MM:SS[.mmm]`.
    pub fn from_str(s: &str) -> (r: Result<Self, Error>)
        ensures
            r is Ok <==> is_day_second_text(s@),
            r matches Ok(iv) ==> iv.negative == ds_negative(s@) && iv.days == ds_days(s@)
                && iv.hours == clock_hours(ds_clock(s@))
                && iv.minutes == clock_minutes(ds_clock(s@))
                && iv.seconds == clock_seconds(ds_clock(s@))
                && iv.milliseconds == clock_millis(ds_clock(s@)),
            r matches Err(e) ==> e == Error::ParseIntervalDayFailed,
    {
        match parse_day_second(s) {
            Some((negative, days, hours, minutes, seconds, milliseconds)) => {
                Ok(IntervalDayToSecond { negative, days, hours, minutes, seconds, milliseconds })
            },
            None => Err(Error::ParseIntervalDayFailed),
        }
    }

    /// The interval as a signed second count.  The magnitude must fit a
    /// signed 64-bit count.
    pub fn total_seconds(&self) -> (r: i64)
        requires
            spec_total_seconds(false, self.days as int, self.hours as int,
                self.minutes as int, self.seconds as int) <= i64::MAX,
        ensures
            r == spec_total_seconds(self.negative, self.days as int, self.hours as int,
                self.minutes as int, self.seconds as int),
    {
        proof {
            let d = self.days as int;
            let h = self.hours as int;
            let m = self.minutes as int;
            let sec = self.seconds as int;
            assert(d <= ((d * 24 + h) * 60 + m) * 60 + sec
                && d * 24 + h <= ((d * 24 + h) * 60 + m) * 60 + sec
                && (d * 24 + h) * 60 + m <= ((d * 24 + h) * 60 + m) * 60 + sec)
                by (nonlinear_arith)
                requires d >= 0, h >= 0, m >= 0, sec >= 0;
        }
        let total = ((self.days as i64 * 24 + self.hours as i64) * 60 + self.minutes as i64)
            * 60 + self.seconds as i64;
        if self.negative {
            -total
        } else {
            total
        }
    }

    /// The zero interval, used as a row-decode placeholder.
    pub fn empty() -> (r: Self)
        ensures
            !r.negative && r.days == 0 && r.hours == 0 && r.minutes == 0 && r.seconds == 0
                && r.milliseconds == 0,
    {
        IntervalDayToSecond {
            negative: false,
            days: 0,
            hours: 0,
            minutes: 0,
            seconds: 0,
            milliseconds: 0,
        }
    }
}

} // verus!
