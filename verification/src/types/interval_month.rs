use vstd::prelude::*;
use super::super::types::{Error, is_year_month_text, ym_negative, ym_years, ym_months,
    parse_year_month};

verus! {

/// An interval of whole years and months, with an explicit positive flag.
#[derive(Debug, PartialEq, Eq)]
pub struct IntervalMonth {
    pub positive: bool,
    pub year: u32,
    pub month: u32,
}

impl IntervalMonth {
    /// Parses the wire text `[-]Y-M`.
    pub fn from_str(s: &str) -> (r: Result<Self, Error>)
        ensures
            r is Ok <==> is_year_month_text(s@),
            r matches Ok(iv) ==> iv.positive == !ym_negative(s@) && iv.year == ym_years(s@)
                && iv.month == ym_months(s@),
            r matches Err(e) ==> e == Error::ParseIntervalMonthFailed,
    {
        match parse_year_month(s) {
            Some((negative, year, month)) => Ok(IntervalMonth {
                positive: !negative,
                year,
                month,
            }),
            None => Err(Error::ParseIntervalMonthFailed),
        }
    }

    /// The interval as a signed month count.
    pub fn interval(&self) -> (r: i64)
        ensures
            r == (if self.positive {
                self.year as int * 12 + self.month as int
            } else {
                -(self.year as int * 12 + self.month as int)
            }),
    {
        let total = self.year as i64 * 12 + self.month as i64;
        if self.positive {
            total
        } else {
            -total
        }
    }

    /// The zero interval, used as a row-decode placeholder.
    pub fn empty() -> (r: Self)
        ensures
            r.positive && r.year == 0 && r.month == 0,
    {
        IntervalMonth { positive: true, year: 0, month: 0 }
    }
}

} // verus!
