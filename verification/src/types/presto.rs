use vstd::prelude::*;
use super::super::types::{PrestoTy, TyV, Value, ValueV, DecodeError, Decimal, FixedChar,
    IntervalDayToSecond, IntervalYearToMonth, PrestoInt, append_pad2, append_pad3, append_u64,
    is_decimal_text, is_day_second_text, is_year_month_text, check_decimal, parse_day_second,
    parse_year_month, lemma_ds_render_parses, lemma_ym_render_parses, ds_clock, ds_days,
    ds_negative, ds_render, clock_hours, clock_millis, clock_minutes, clock_seconds,
    ym_negative, ym_years, ym_months, ym_render};

verus! {

/// The decode/encode contract a native scalar type implements: it names its
/// wire type, renders itself as a wire token, starts from a placeholder,
/// and reads itself back out of a normalized token.
///
/// `fits` says exactly which normalized tokens decode, `canon` what model
/// the decoded value then carries, and every implementation must prove the
/// round trip: a value's own token fits, and decodes back to the same
/// model.
pub trait Presto: Sized {
    /// The model of the wire type this native type declares.
    spec fn spec_ty() -> TyV;

    /// What makes a value of this type well formed; constructors establish
    /// it and decoding yields it.
    spec fn inv(&self) -> bool;

    /// The model of this value's encoded wire token.
    spec fn spec_value(&self) -> ValueV;

    /// Exactly the normalized tokens that decode into this type.
    spec fn fits(v: ValueV) -> bool;

    /// The model the value decoded from a fitting token carries.
    spec fn canon(v: ValueV) -> ValueV;

    /// The wire type this native type declares.
    fn ty() -> (t: PrestoTy)
        ensures
            t@ == Self::spec_ty(),
    ;

    /// This value's encoded wire token.
    fn value(&self) -> (v: Value)
        requires
            self.inv(),
        ensures
            v@ == self.spec_value(),
    ;

    /// A cheaply constructed placeholder, for rows filled out of order.
    fn empty() -> Self;

    /// Reads a value back out of a normalized token.
    fn from_value(v: &Value) -> (r: Result<Self, DecodeError>)
        ensures
            r is Ok <==> Self::fits(v@),
            r matches Ok(x) ==> x.spec_value() == Self::canon(v@) && x.inv(),
    ;

    /// Round trip: a well-formed value's own token fits and carries the
    /// same model back through decoding.
    proof fn lemma_encode_fits(&self)
        requires
            self.inv(),
        ensures
            Self::fits(self.spec_value()),
            Self::canon(self.spec_value()) == self.spec_value(),
    ;
}

impl Presto for bool {
    open spec fn spec_ty() -> TyV {
        TyV::Boolean
    }

    open spec fn inv(&self) -> bool {
        true
    }

    open spec fn spec_value(&self) -> ValueV {
        ValueV::Bool(*self)
    }

    open spec fn fits(v: ValueV) -> bool {
        v is Bool
    }

    open spec fn canon(v: ValueV) -> ValueV {
        v
    }

    fn ty() -> (t: PrestoTy) {
        PrestoTy::Boolean
    }

    fn value(&self) -> (v: Value) {
        Value::Bool(*self)
    }

    fn empty() -> Self {
        false
    }

    fn from_value(v: &Value) -> (r: Result<Self, DecodeError>) {
        match v {
            Value::Bool(b) => Ok(*b),
            _ => Err(DecodeError::UnexpectedToken),
        }
    }

    proof fn lemma_encode_fits(&self) {
    }
}

impl Presto for i8 {
    open spec fn spec_ty() -> TyV {
        TyV::PrestoInt(PrestoInt::I8)
    }

    open spec fn inv(&self) -> bool {
        true
    }

    open spec fn spec_value(&self) -> ValueV {
        ValueV::Int(*self as int)
    }

    open spec fn fits(v: ValueV) -> bool {
        v matches ValueV::Int(i) && -128 <= i <= 127
    }

    open spec fn canon(v: ValueV) -> ValueV {
        v
    }

    fn ty() -> (t: PrestoTy) {
        PrestoTy::PrestoInt(PrestoInt::I8)
    }

    fn value(&self) -> (v: Value) {
        Value::Int(*self as i64)
    }

    fn empty() -> Self {
        0
    }

    fn from_value(v: &Value) -> (r: Result<Self, DecodeError>) {
        match v {
            Value::Int(i) => {
                if -128 <= *i && *i <= 127 {
                    Ok(*i as i8)
                } else {
                    Err(DecodeError::IntegerOutOfRange)
                }
            },
            Value::UInt(u) => {
                if *u <= 127 {
                    Ok(*u as i8)
                } else {
                    Err(DecodeError::IntegerOutOfRange)
                }
            },
            _ => Err(DecodeError::UnexpectedToken),
        }
    }

    proof fn lemma_encode_fits(&self) {
    }
}

impl Presto for i16 {
    open spec fn spec_ty() -> TyV {
        TyV::PrestoInt(PrestoInt::I16)
    }

    open spec fn inv(&self) -> bool {
        true
    }

    open spec fn spec_value(&self) -> ValueV {
        ValueV::Int(*self as int)
    }

    open spec fn fits(v: ValueV) -> bool {
        v matches ValueV::Int(i) && -32768 <= i <= 32767
    }

    open spec fn canon(v: ValueV) -> ValueV {
        v
    }

    fn ty() -> (t: PrestoTy) {
        PrestoTy::PrestoInt(PrestoInt::I16)
    }

    fn value(&self) -> (v: Value) {
        Value::Int(*self as i64)
    }

    fn empty() -> Self {
        0
    }

    fn from_value(v: &Value) -> (r: Result<Self, DecodeError>) {
        match v {
            Value::Int(i) => {
                if -32768 <= *i && *i <= 32767 {
                    Ok(*i as i16)
                } else {
                    Err(DecodeError::IntegerOutOfRange)
                }
            },
            Value::UInt(u) => {
                if *u <= 32767 {
                    Ok(*u as i16)
                } else {
                    Err(DecodeError::IntegerOutOfRange)
                }
            },
            _ => Err(DecodeError::UnexpectedToken),
        }
    }

    proof fn lemma_encode_fits(&self) {
    }
}

impl Presto for i32 {
    open spec fn spec_ty() -> TyV {
        TyV::PrestoInt(PrestoInt::I32)
    }

    open spec fn inv(&self) -> bool {
        true
    }

    open spec fn spec_value(&self) -> ValueV {
        ValueV::Int(*self as int)
    }

    open spec fn fits(v: ValueV) -> bool {
        v matches ValueV::Int(i) && -2147483648 <= i <= 2147483647
    }

    open spec fn canon(v: ValueV) -> ValueV {
        v
    }

    fn ty() -> (t: PrestoTy) {
        PrestoTy::PrestoInt(PrestoInt::I32)
    }

    fn value(&self) -> (v: Value) {
        Value::Int(*self as i64)
    }

    fn empty() -> Self {
        0
    }

    fn from_value(v: &Value) -> (r: Result<Self, DecodeError>) {
        match v {
            Value::Int(i) => {
                if -2147483648 <= *i && *i <= 2147483647 {
                    Ok(*i as i32)
                } else {
                    Err(DecodeError::IntegerOutOfRange)
                }
            },
            Value::UInt(u) => {
                if *u <= 2147483647 {
                    Ok(*u as i32)
                } else {
                    Err(DecodeError::IntegerOutOfRange)
                }
            },
            _ => Err(DecodeError::UnexpectedToken),
        }
    }

    proof fn lemma_encode_fits(&self) {
    }
}

impl Presto for i64 {
    open spec fn spec_ty() -> TyV {
        TyV::PrestoInt(PrestoInt::I64)
    }

    open spec fn inv(&self) -> bool {
        true
    }

    open spec fn spec_value(&self) -> ValueV {
        ValueV::Int(*self as int)
    }

    open spec fn fits(v: ValueV) -> bool {
        v matches ValueV::Int(i) && i64::MIN <= i <= i64::MAX
    }

    open spec fn canon(v: ValueV) -> ValueV {
        v
    }

    fn ty() -> (t: PrestoTy) {
        PrestoTy::PrestoInt(PrestoInt::I64)
    }

    fn value(&self) -> (v: Value) {
        Value::Int(*self)
    }

    fn empty() -> Self {
        0
    }

    fn from_value(v: &Value) -> (r: Result<Self, DecodeError>) {
        match v {
            Value::Int(i) => Ok(*i),
            Value::UInt(u) => {
                if *u <= i64::MAX as u64 {
                    Ok(*u as i64)
                } else {
                    Err(DecodeError::IntegerOutOfRange)
                }
            },
            _ => Err(DecodeError::UnexpectedToken),
        }
    }

    proof fn lemma_encode_fits(&self) {
    }
}

impl Presto for u8 {
    open spec fn spec_ty() -> TyV {
        TyV::PrestoInt(PrestoInt::I16)
    }

    open spec fn inv(&self) -> bool {
        true
    }

    open spec fn spec_value(&self) -> ValueV {
        ValueV::Int(*self as int)
    }

    open spec fn fits(v: ValueV) -> bool {
        v matches ValueV::Int(i) && 0 <= i <= 255
    }

    open spec fn canon(v: ValueV) -> ValueV {
        v
    }

    fn ty() -> (t: PrestoTy) {
        PrestoTy::PrestoInt(PrestoInt::I16)
    }

    fn value(&self) -> (v: Value) {
        Value::Int(*self as i64)
    }

    fn empty() -> Self {
        0
    }

    fn from_value(v: &Value) -> (r: Result<Self, DecodeError>) {
        match v {
            Value::Int(i) => {
                if 0 <= *i && *i <= 255 {
                    Ok(*i as u8)
                } else {
                    Err(DecodeError::IntegerOutOfRange)
                }
            },
            Value::UInt(u) => {
                if *u <= 255 {
                    Ok(*u as u8)
                } else {
                    Err(DecodeError::IntegerOutOfRange)
                }
            },
            _ => Err(DecodeError::UnexpectedToken),
        }
    }

    proof fn lemma_encode_fits(&self) {
    }
}

impl Presto for u16 {
    open spec fn spec_ty() -> TyV {
        TyV::PrestoInt(PrestoInt::I32)
    }

    open spec fn inv(&self) -> bool {
        true
    }

    open spec fn spec_value(&self) -> ValueV {
        ValueV::Int(*self as int)
    }

    open spec fn fits(v: ValueV) -> bool {
        v matches ValueV::Int(i) && 0 <= i <= 65535
    }

    open spec fn canon(v: ValueV) -> ValueV {
        v
    }

    fn ty() -> (t: PrestoTy) {
        PrestoTy::PrestoInt(PrestoInt::I32)
    }

    fn value(&self) -> (v: Value) {
        Value::Int(*self as i64)
    }

    fn empty() -> Self {
        0
    }

    fn from_value(v: &Value) -> (r: Result<Self, DecodeError>) {
        match v {
            Value::Int(i) => {
                if 0 <= *i && *i <= 65535 {
                    Ok(*i as u16)
                } else {
                    Err(DecodeError::IntegerOutOfRange)
                }
            },
            Value::UInt(u) => {
                if *u <= 65535 {
                    Ok(*u as u16)
                } else {
                    Err(DecodeError::IntegerOutOfRange)
                }
            },
            _ => Err(DecodeError::UnexpectedToken),
        }
    }

    proof fn lemma_encode_fits(&self) {
    }
}

impl Presto for u32 {
    open spec fn spec_ty() -> TyV {
        TyV::PrestoInt(PrestoInt::I64)
    }

    open spec fn inv(&self) -> bool {
        true
    }

    open spec fn spec_value(&self) -> ValueV {
        ValueV::Int(*self as int)
    }

    open spec fn fits(v: ValueV) -> bool {
        v matches ValueV::Int(i) && 0 <= i <= 4294967295
    }

    open spec fn canon(v: ValueV) -> ValueV {
        v
    }

    fn ty() -> (t: PrestoTy) {
        PrestoTy::PrestoInt(PrestoInt::I64)
    }

    fn value(&self) -> (v: Value) {
        Value::Int(*self as i64)
    }

    fn empty() -> Self {
        0
    }

    fn from_value(v: &Value) -> (r: Result<Self, DecodeError>) {
        match v {
            Value::Int(i) => {
                if 0 <= *i && *i <= 4294967295 {
                    Ok(*i as u32)
                } else {
                    Err(DecodeError::IntegerOutOfRange)
                }
            },
            Value::UInt(u) => {
                if *u <= 4294967295 {
                    Ok(*u as u32)
                } else {
                    Err(DecodeError::IntegerOutOfRange)
                }
            },
            _ => Err(DecodeError::UnexpectedToken),
        }
    }

    proof fn lemma_encode_fits(&self) {
    }
}

impl Presto for String {
    open spec fn spec_ty() -> TyV {
        TyV::Varchar
    }

    open spec fn inv(&self) -> bool {
        true
    }

    open spec fn spec_value(&self) -> ValueV {
        ValueV::Text(self@)
    }

    open spec fn fits(v: ValueV) -> bool {
        v is Text
    }

    open spec fn canon(v: ValueV) -> ValueV {
        v
    }

    fn ty() -> (t: PrestoTy) {
        PrestoTy::Varchar
    }

    fn value(&self) -> (v: Value) {
        Value::Text(self.clone())
    }

    fn empty() -> Self {
        String::new()
    }

    fn from_value(v: &Value) -> (r: Result<Self, DecodeError>) {
        match v {
            Value::Text(s) => Ok(s.clone()),
            _ => Err(DecodeError::UnexpectedToken),
        }
    }

    proof fn lemma_encode_fits(&self) {
    }
}

impl<const P: usize> Presto for FixedChar<P> {
    open spec fn spec_ty() -> TyV {
        TyV::Char(P as nat)
    }

    open spec fn inv(&self) -> bool {
        true
    }

    open spec fn spec_value(&self) -> ValueV {
        ValueV::Text(self.inner@)
    }

    open spec fn fits(v: ValueV) -> bool {
        v is Text
    }

    open spec fn canon(v: ValueV) -> ValueV {
        v
    }

    fn ty() -> (t: PrestoTy) {
        PrestoTy::Char(P)
    }

    fn value(&self) -> (v: Value) {
        Value::Text(self.inner.clone())
    }

    fn empty() -> Self {
        FixedChar::empty()
    }

    fn from_value(v: &Value) -> (r: Result<Self, DecodeError>) {
        match v {
            Value::Text(s) => Ok(FixedChar::new(s.clone())),
            _ => Err(DecodeError::UnexpectedToken),
        }
    }

    proof fn lemma_encode_fits(&self) {
    }
}

impl<const P: usize, const S: usize> Presto for Decimal<P, S> {
    open spec fn spec_ty() -> TyV {
        TyV::Decimal(P as nat, S as nat)
    }

    open spec fn inv(&self) -> bool {
        is_decimal_text(self.inner@)
    }

    open spec fn spec_value(&self) -> ValueV {
        ValueV::Text(self.inner@)
    }

    open spec fn fits(v: ValueV) -> bool {
        v matches ValueV::Text(s) && is_decimal_text(s)
    }

    open spec fn canon(v: ValueV) -> ValueV {
        v
    }

    fn ty() -> (t: PrestoTy) {
        PrestoTy::Decimal(P, S)
    }

    fn value(&self) -> (v: Value) {
        Value::Text(self.inner.clone())
    }

    fn empty() -> Self {
        Decimal::empty()
    }

    fn from_value(v: &Value) -> (r: Result<Self, DecodeError>) {
        match v {
            Value::Text(s) => {
                if check_decimal(s.as_str()) {
                    Ok(Decimal { inner: s.clone() })
                } else {
                    Err(DecodeError::InvalidText)
                }
            },
            _ => Err(DecodeError::UnexpectedToken),
        }
    }

    proof fn lemma_encode_fits(&self) {
    }
}


impl Presto for IntervalYearToMonth {
    open spec fn spec_ty() -> TyV {
        TyV::IntervalYearToMonth
    }

    open spec fn inv(&self) -> bool {
        true
    }

    open spec fn spec_value(&self) -> ValueV {
        ValueV::Text(ym_render(self.negative, self.years as nat, self.months as nat))
    }

    open spec fn fits(v: ValueV) -> bool {
        v matches ValueV::Text(s) && is_year_month_text(s)
    }

    open spec fn canon(v: ValueV) -> ValueV {
        match v {
            ValueV::Text(s) => ValueV::Text(ym_render(ym_negative(s), ym_years(s) as nat,
                ym_months(s) as nat)),
            _ => v,
        }
    }

    fn ty() -> (t: PrestoTy) {
        PrestoTy::IntervalYearToMonth
    }

    fn value(&self) -> (v: Value) {
        let mut out = String::new();
        if self.negative {
            out.append("-");
        }
        append_u64(&mut out, self.years as u64);
        out.append("-");
        append_u64(&mut out, self.months as u64);
        proof {
            reveal_strlit("-");
            assert("-"@ =~= seq!['-']);
            assert(out@ =~= ym_render(self.negative, self.years as nat, self.months as nat));
        }
        Value::Text(out)
    }

    fn empty() -> Self {
        IntervalYearToMonth::empty()
    }

    fn from_value(v: &Value) -> (r: Result<Self, DecodeError>) {
        match v {
            Value::Text(s) => match parse_year_month(s.as_str()) {
                Some((negative, years, months)) => {
                    Ok(IntervalYearToMonth { negative, years, months })
                },
                None => Err(DecodeError::InvalidText),
            },
            _ => Err(DecodeError::UnexpectedToken),
        }
    }

    proof fn lemma_encode_fits(&self) {
        lemma_ym_render_parses(self.negative, self.years as nat, self.months as nat);
    }
}


impl Presto for IntervalDayToSecond {
    open spec fn spec_ty() -> TyV {
        TyV::IntervalDayToSecond
    }

    open spec fn inv(&self) -> bool {
        &&& self.days <= i64::MAX
        &&& self.hours <= 23
        &&& self.minutes <= 59
        &&& self.seconds <= 59
        &&& self.milliseconds <= 999
    }

    open spec fn spec_value(&self) -> ValueV {
        ValueV::Text(ds_render(self.negative, self.days as nat, self.hours as int,
            self.minutes as int, self.seconds as int, self.milliseconds as int))
    }

    open spec fn fits(v: ValueV) -> bool {
        v matches ValueV::Text(s) && is_day_second_text(s)
    }

    open spec fn canon(v: ValueV) -> ValueV {
        match v {
            ValueV::Text(s) => ValueV::Text(ds_render(ds_negative(s), ds_days(s) as nat,
                clock_hours(ds_clock(s)), clock_minutes(ds_clock(s)),
                clock_seconds(ds_clock(s)), clock_millis(ds_clock(s)))),
            _ => v,
        }
    }

    fn ty() -> (t: PrestoTy) {
        PrestoTy::IntervalDayToSecond
    }

    fn value(&self) -> (v: Value)
    {
        let mut out = String::new();
        if self.negative {
            out.append("-");
        }
        append_u64(&mut out, self.days);
        out.append(" ");
        append_pad2(&mut out, self.hours as u64);
        out.append(":");
        append_pad2(&mut out, self.minutes as u64);
        out.append(":");
        append_pad2(&mut out, self.seconds as u64);
        out.append(".");
        append_pad3(&mut out, self.milliseconds as u64);
        proof {
            reveal_strlit("-");
            reveal_strlit(" ");
            reveal_strlit(":");
            reveal_strlit(".");
            assert("-"@ =~= seq!['-'] && " "@ =~= seq![' '] && ":"@ =~= seq![':']
                && "."@ =~= seq!['.']);
            assert(out@ =~= ds_render(self.negative, self.days as nat, self.hours as int,
                self.minutes as int, self.seconds as int, self.milliseconds as int));
        }
        Value::Text(out)
    }

    fn empty() -> Self {
        IntervalDayToSecond::empty()
    }

    fn from_value(v: &Value) -> (r: Result<Self, DecodeError>) {
        match v {
            Value::Text(s) => match parse_day_second(s.as_str()) {
                Some((negative, days, hours, minutes, seconds, milliseconds)) => {
                    Ok(IntervalDayToSecond {
                        negative,
                        days,
                        hours,
                        minutes,
                        seconds,
                        milliseconds,
                    })
                },
                None => Err(DecodeError::InvalidText),
            },
            _ => Err(DecodeError::UnexpectedToken),
        }
    }

    proof fn lemma_encode_fits(&self) {
        lemma_ds_render_parses(self.negative, self.days as nat, self.hours as int,
            self.minutes as int, self.seconds as int, self.milliseconds as int);
    }
}

} // verus!
