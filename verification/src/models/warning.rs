use vstd::prelude::*;

verus! {

/// A warning a query page carries alongside its data.
#[derive(Debug)]
pub struct Warning {
    pub warning_code: Code,
    pub message: String,
}

/// A warning's numeric code and symbolic name.
#[derive(Debug)]
pub struct Code {
    pub code: i32,
    pub name: String,
}

} // verus!
