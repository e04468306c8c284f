use vstd::prelude::*;
use super::super::types::{Error, is_year_month_text, ym_negative, ym_years, ym_months,
    parse_year_month};

verus! {

/// An interval of whole years and months, signed.
#[derive(Debug, PartialEq, Eq)]
pub struct IntervalYearToMonth {
    pub negative: bool,
    pub years: u32,
    pub months: u32,
}

/// The signed month count an interval denotes.
pub open spec fn spec_total_months(neg: bool, years: int, months: int) -> int {
    if neg {
        -(years * 12 + months)
    } else {
        years * 12 + months
    }
}

impl IntervalYearToMonth {
    /// Parses the wire text `[-]Y-M`.
    pub fn from_str(s: &str) -> (r: Result<Self, Error>)
        ensures
            r is Ok <==> is_year_month_text(s@),
            r matches Ok(iv) ==> iv.negative == ym_negative(s@) && iv.years == ym_years(s@)
                && iv.months == ym_months(s@),
            r matches Err(e) ==> e == Error::ParseIntervalMonthFailed,
    {
        match parse_year_month(s) {
            Some((negative, years, months)) => Ok(IntervalYearToMonth {
                negative,
                years,
                months,
            }),
            None => Err(Error::ParseIntervalMonthFailed),
        }
    }

    /// The interval as a signed month count.
    pub fn total_months(&self) -> (r: i64)
        ensures
            r == spec_total_months(self.negative, self.years as int, self.months as int),
    {
        let total = self.years as i64 * 12 + self.months as i64;
        if self.negative {
            -total
        } else {
            total
        }
    }

    /// The zero interval, used as a row-decode placeholder.
    pub fn empty() -> (r: Self)
        ensures
            !r.negative && r.years == 0 && r.months == 0,
    {
        IntervalYearToMonth { negative: false, years: 0, months: 0 }
    }
}

} // verus!
