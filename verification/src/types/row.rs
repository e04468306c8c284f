use vstd::prelude::*;
use super::super::types::{Value, ValueV, array_views, lemma_array_views};

verus! {

/// A schema-agnostic row: the raw wire tokens of one row, in wire order.
/// Declared as `Unknown`, it accepts any provided row shape and keeps the
/// tokens untouched.
#[derive(Debug)]
pub struct Row {
    pub data: Vec<Value>,
}

impl Row {
    /// Wraps raw row tokens.
    pub fn new(data: Vec<Value>) -> (r: Self)
        ensures
            r.data@ == data@,
    {
        Row { data }
    }

    /// The raw tokens of the row.
    pub fn into_json(self) -> (r: Vec<Value>)
        ensures
            r@ == self.data@,
    {
        self.data
    }

    /// The empty row, used as a decode placeholder.
    pub fn empty() -> (r: Self)
        ensures
            r.data@.len() == 0,
    {
        Row { data: Vec::new() }
    }
}

} // verus!
