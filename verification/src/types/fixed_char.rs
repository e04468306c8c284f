use vstd::prelude::*;

verus! {

/// A fixed-width character column's value; the width is the type parameter,
/// and the held text is stored as received.
#[derive(Debug, PartialEq, Eq)]
pub struct FixedChar<const P: usize> {
    pub inner: String,
}

impl<const P: usize> FixedChar<P> {
    /// Wraps a text value.
    pub fn new(inner: String) -> (r: Self)
        ensures
            r.inner@ == inner@,
    {
        FixedChar { inner }
    }

    /// The held text.
    pub fn into_string(self) -> (r: String)
        ensures
            r@ == self.inner@,
    {
        self.inner
    }

    /// The empty text, used as a row-decode placeholder.
    pub fn empty() -> (r: Self)
        ensures
            r.inner@ == Seq::<char>::empty(),
    {
        FixedChar { inner: String::new() }
    }
}

} // verus!
