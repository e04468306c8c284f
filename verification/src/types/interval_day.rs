use vstd::prelude::*;
use super::super::types::{Error, char_pos, lemma_char_pos, digits_in, digits_val, scan_u64,
    char_find};

verus! {

/// An interval of whole days, signed.
#[derive(Debug, PartialEq, Eq)]
pub struct IntervalDay {
    pub day: i64,
}

/// A day interval's wire text: a signed day count, one space, then a clock
/// part this type does not inspect.
pub open spec fn is_day_text(s: Seq<char>) -> bool {
    let sp = char_pos(s, ' ', 0);
    let day_start: int = if s.len() > 0 && s[0] == '-' { 1 } else { 0 };
    &&& sp < s.len()
    &&& day_start < sp
    &&& digits_in(s, day_start, sp)
    &&& digits_val(s, day_start, sp) <= i64::MAX
}

/// The signed day count of a day interval's wire text.
pub open spec fn day_of_text(s: Seq<char>) -> int {
    let sp = char_pos(s, ' ', 0);
    let day_start: int = if s.len() > 0 && s[0] == '-' { 1 } else { 0 };
    if day_start == 1 {
        -digits_val(s, day_start, sp)
    } else {
        digits_val(s, day_start, sp)
    }
}

impl IntervalDay {
    /// Parses the day count out of the wire text `[-]D <clock>`.
    pub fn from_str(s: &str) -> (r: Result<Self, Error>)
        ensures
            r is Ok <==> is_day_text(s@),
            r matches Ok(iv) ==> iv.day == day_of_text(s@),
            r matches Err(e) ==> e == Error::ParseIntervalDayFailed,
    {
        let n = s.unicode_len();
        let start: usize = if n > 0 && s.get_char(0) == '-' {
            1
        } else {
            0
        };
        let sp = char_find(s, ' ', 0);
        proof {
            lemma_char_pos(s@, ' ', 0);
        }
        if sp >= n || sp <= start {
            return Err(Error::ParseIntervalDayFailed);
        }
        let mag = match scan_u64(s, start, sp) {
            Some(v) => v,
            None => {
                return Err(Error::ParseIntervalDayFailed);
            },
        };
        if mag > i64::MAX as u64 {
            return Err(Error::ParseIntervalDayFailed);
        }
        let day: i64 = if start == 1 {
            -(mag as i64)
        } else {
            mag as i64
        };
        Ok(IntervalDay { day })
    }

    /// The signed day count.
    pub fn interval(&self) -> (r: i64)
        ensures
            r == self.day,
    {
        self.day
    }

    /// The zero interval, used as a row-decode placeholder.
    pub fn empty() -> (r: Self)
        ensures
            r.day == 0,
    {
        IntervalDay { day: 0 }
    }
}

} // verus!
