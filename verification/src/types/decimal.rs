use vstd::prelude::*;
use super::super::types::{Error, is_decimal_text, check_decimal};

verus! {

/// A decimal column's value: its canonical base-10 text, kept as received;
/// precision and scale are the type parameters.
#[derive(Debug, PartialEq, Eq)]
pub struct Decimal<const P: usize, const S: usize> {
    pub inner: String,
}

impl<const P: usize, const S: usize> Decimal<P, S> {
    /// Parses a base-10 decimal literal, keeping its text.
    pub fn from_str(s: &str) -> (r: Result<Self, Error>)
        ensures
            r is Ok <==> is_decimal_text(s@),
            r matches Ok(d) ==> d.inner@ == s@,
    {
        if check_decimal(s) {
            Ok(Decimal { inner: s.to_owned() })
        } else {
            Err(Error::ParseDecimalFailed(s.to_owned()))
        }
    }

    /// The canonical text of the value.
    pub fn as_text(&self) -> (r: &String)
        ensures
            r@ == self.inner@,
    {
        &self.inner
    }

    /// The zero value, used as a row-decode placeholder.
    pub fn empty() -> (r: Self)
        ensures
            r.inner@ == "0"@,
    {
        let mut s = String::new();
        s.append("0");
        proof {
            assert(s@ =~= "0"@);
        }
        Decimal { inner: s }
    }
}

} // verus!
