use vstd::prelude::*;
use super::super::types::{Value, ValueV, DecodeError};

verus! {

/// Reads an integer token as an `i8`, failing outside the width.
pub fn i8_from_value(v: &Value) -> (r: Result<i8, DecodeError>)
    ensures
        r is Ok <==> (v@ matches ValueV::Int(i) && -128 <= i <= 127),
        r matches Ok(x) ==> v@ == ValueV::Int(x as int),
{
    match v {
        Value::Int(i) => {
            if -128 <= *i && *i <= 127 {
                Ok(*i as i8)
            } else {
                Err(DecodeError::IntegerOutOfRange)
            }
        },
        Value::UInt(u) => {
            if *u <= 127 {
                Ok(*u as i8)
            } else {
                Err(DecodeError::IntegerOutOfRange)
            }
        },
        _ => Err(DecodeError::UnexpectedToken),
    }
}

/// Reads an integer token as an `i16`, failing outside the width.
pub fn i16_from_value(v: &Value) -> (r: Result<i16, DecodeError>)
    ensures
        r is Ok <==> (v@ matches ValueV::Int(i) && -32768 <= i <= 32767),
        r matches Ok(x) ==> v@ == ValueV::Int(x as int),
{
    match v {
        Value::Int(i) => {
            if -32768 <= *i && *i <= 32767 {
                Ok(*i as i16)
            } else {
                Err(DecodeError::IntegerOutOfRange)
            }
        },
        Value::UInt(u) => {
            if *u <= 32767 {
                Ok(*u as i16)
            } else {
                Err(DecodeError::IntegerOutOfRange)
            }
        },
        _ => Err(DecodeError::UnexpectedToken),
    }
}

/// Reads an integer token as an `i32`, failing outside the width.
pub fn i32_from_value(v: &Value) -> (r: Result<i32, DecodeError>)
    ensures
        r is Ok <==> (v@ matches ValueV::Int(i) && -2147483648 <= i <= 2147483647),
        r matches Ok(x) ==> v@ == ValueV::Int(x as int),
{
    match v {
        Value::Int(i) => {
            if -2147483648 <= *i && *i <= 2147483647 {
                Ok(*i as i32)
            } else {
                Err(DecodeError::IntegerOutOfRange)
            }
        },
        Value::UInt(u) => {
            if *u <= 2147483647 {
                Ok(*u as i32)
            } else {
                Err(DecodeError::IntegerOutOfRange)
            }
        },
        _ => Err(DecodeError::UnexpectedToken),
    }
}

/// Reads an integer token as an `i64`, failing outside the width.
pub fn i64_from_value(v: &Value) -> (r: Result<i64, DecodeError>)
    ensures
        r is Ok <==> (v@ matches ValueV::Int(i) && i64::MIN <= i <= i64::MAX),
        r matches Ok(x) ==> v@ == ValueV::Int(x as int),
{
    match v {
        Value::Int(i) => Ok(*i),
        Value::UInt(u) => {
            if *u <= i64::MAX as u64 {
                Ok(*u as i64)
            } else {
                Err(DecodeError::IntegerOutOfRange)
            }
        },
        _ => Err(DecodeError::UnexpectedToken),
    }
}

/// Reads an integer token as a `u8`, failing outside the width; a negative
/// token always fails.
pub fn u8_from_value(v: &Value) -> (r: Result<u8, DecodeError>)
    ensures
        r is Ok <==> (v@ matches ValueV::Int(i) && 0 <= i <= 255),
        r matches Ok(x) ==> v@ == ValueV::Int(x as int),
{
    match v {
        Value::Int(i) => {
            if 0 <= *i && *i <= 255 {
                Ok(*i as u8)
            } else {
                Err(DecodeError::IntegerOutOfRange)
            }
        },
        Value::UInt(u) => {
            if *u <= 255 {
                Ok(*u as u8)
            } else {
                Err(DecodeError::IntegerOutOfRange)
            }
        },
        _ => Err(DecodeError::UnexpectedToken),
    }
}

/// Reads an integer token as a `u16`, failing outside the width; a negative
/// token always fails.
pub fn u16_from_value(v: &Value) -> (r: Result<u16, DecodeError>)
    ensures
        r is Ok <==> (v@ matches ValueV::Int(i) && 0 <= i <= 65535),
        r matches Ok(x) ==> v@ == ValueV::Int(x as int),
{
    match v {
        Value::Int(i) => {
            if 0 <= *i && *i <= 65535 {
                Ok(*i as u16)
            } else {
                Err(DecodeError::IntegerOutOfRange)
            }
        },
        Value::UInt(u) => {
            if *u <= 65535 {
                Ok(*u as u16)
            } else {
                Err(DecodeError::IntegerOutOfRange)
            }
        },
        _ => Err(DecodeError::UnexpectedToken),
    }
}

/// Reads an integer token as a `u32`, failing outside the width; a negative
/// token always fails.
pub fn u32_from_value(v: &Value) -> (r: Result<u32, DecodeError>)
    ensures
        r is Ok <==> (v@ matches ValueV::Int(i) && 0 <= i <= 4294967295),
        r matches Ok(x) ==> v@ == ValueV::Int(x as int),
{
    match v {
        Value::Int(i) => {
            if 0 <= *i && *i <= 4294967295 {
                Ok(*i as u32)
            } else {
                Err(DecodeError::IntegerOutOfRange)
            }
        },
        Value::UInt(u) => {
            if *u <= 4294967295 {
                Ok(*u as u32)
            } else {
                Err(DecodeError::IntegerOutOfRange)
            }
        },
        _ => Err(DecodeError::UnexpectedToken),
    }
}

/// Reads an integer token as a `u64`, failing outside the width; a negative
/// token always fails.
pub fn u64_from_value(v: &Value) -> (r: Result<u64, DecodeError>)
    ensures
        r is Ok <==> (v@ matches ValueV::Int(i) && 0 <= i <= u64::MAX),
        r matches Ok(x) ==> v@ == ValueV::Int(x as int),
{
    match v {
        Value::Int(i) => {
            if 0 <= *i {
                Ok(*i as u64)
            } else {
                Err(DecodeError::IntegerOutOfRange)
            }
        },
        Value::UInt(u) => Ok(*u),
        _ => Err(DecodeError::UnexpectedToken),
    }
}

/// Reads a boolean token.
pub fn bool_from_value(v: &Value) -> (r: Result<bool, DecodeError>)
    ensures
        r is Ok <==> v@ is Bool,
        r matches Ok(x) ==> v@ == ValueV::Bool(x),
{
    match v {
        Value::Bool(b) => Ok(*b),
        _ => Err(DecodeError::UnexpectedToken),
    }
}

/// Reads a text token.
pub fn string_from_value(v: &Value) -> (r: Result<String, DecodeError>)
    ensures
        r is Ok <==> v@ is Text,
        r matches Ok(x) ==> v@ == ValueV::Text(x@),
{
    match v {
        Value::Text(s) => Ok(s.clone()),
        _ => Err(DecodeError::UnexpectedToken),
    }
}

} // verus!
