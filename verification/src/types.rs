mod context;
mod data_set;
mod decimal;
mod fixed_char;
mod interval_day;
mod interval_day_to_second;
mod interval_month;
mod interval_year_to_month;
mod number;
mod presto;
mod row;
mod decode;
mod laws;
mod text;
mod util;
mod value;

pub use context::RowMaps;
pub use context::row_names_unique;
pub use decimal::Decimal;
pub use fixed_char::FixedChar;
pub use interval_day::IntervalDay;
pub use interval_day::is_day_text;
pub use interval_day::day_of_text;
pub use interval_day_to_second::IntervalDayToSecond;
pub use interval_day_to_second::spec_total_seconds;
pub use interval_month::IntervalMonth;
pub use interval_year_to_month::IntervalYearToMonth;
pub use interval_year_to_month::spec_total_months;
pub use text::lemma_char_pos;
pub use presto::Presto;
pub use row::Row;
pub use number::i8_from_value;
pub use number::i16_from_value;
pub use number::i32_from_value;
pub use number::i64_from_value;
pub use number::u8_from_value;
pub use number::u16_from_value;
pub use number::u32_from_value;
pub use number::u64_from_value;
pub use number::bool_from_value;
pub use number::string_from_value;
pub use data_set::PageError;
pub use data_set::RawDataSet;
pub use data_set::RawDataSetV;
pub use data_set::rows_views;
pub use data_set::lemma_rows_views;
pub use data_set::ty_eq;
pub use data_set::cols_equal;
pub use data_set::decode_page;
pub use laws::well_typed;
pub use laws::strip_options;
pub use laws::strip_seq;
pub use laws::strip_fields;
pub use laws::lemma_strip_seq;
pub use laws::lemma_strip_fields;
pub use laws::lemma_find_name_same;
pub use laws::wt_elems;
pub use laws::wt_tuple;
pub use laws::wt_row;
pub use laws::wt_entries;
pub use laws::lemma_round_trip;
pub use laws::lemma_option_transparent;
pub use laws::lemma_reorder;
pub use decode::DecodeError;
pub use decode::check_key;
pub use decode::decode_value;
pub use decode::in_range;
pub use decode::neg_mag;
pub use decode::key_ok;
pub use decode::spec_decode;
pub use decode::decode_tuple;
pub use decode::decode_row;
pub use decode::decode_elems;
pub use decode::decode_entries;
pub use decode::lemma_decode_tuple;
pub use decode::lemma_decode_row;
pub use decode::lemma_decode_elems;
pub use decode::lemma_decode_entries;
pub use context::Context;
pub use context::extract;
pub use context::child_ty_of;
pub use context::child_decl;
pub use context::lemma_maps_ok_child;
pub use context::compatible_tuple;
pub use context::compatible_row;
pub use context::lemma_compatible_tuple;
pub use context::lemma_compatible_row;
pub use context::maps_ok_tuple;
pub use context::maps_ok_row;
pub use context::lemma_maps_ok_tuple;
pub use context::lemma_maps_ok_row;
pub use context::RowMapsV;
pub use context::maps_views;
pub use context::lemma_maps_views;
pub use context::find_name;
pub use context::find_name_from;
pub use context::lemma_find_name_from;
pub use context::compatible;
pub use context::maps_ok;
pub use context::row_perm;
pub use context::perm_ok;
pub use text::is_digit;
pub use text::digit_val;
pub use text::digits_in;
pub use text::digits_val;
pub use text::char_pos;
pub use text::char_find;
pub use text::pair_val;
pub use text::is_clock_text;
pub use text::is_date_text;
pub use text::is_timestamp_text;
pub use text::is_uuid_text;
pub use text::is_hex_digit;
pub use text::is_ip_text;
pub use text::is_decimal_text;
pub use text::is_year_month_text;
pub use text::ym_negative;
pub use text::ym_years;
pub use text::ym_months;
pub use text::is_day_second_text;
pub use text::ds_negative;
pub use text::ds_days;
pub use text::ds_clock;
pub use text::clock_hours;
pub use text::clock_minutes;
pub use text::clock_seconds;
pub use text::clock_millis;
pub use text::scan_u64;
pub use text::digits_range;
pub use text::check_clock;
pub use text::check_clock_at;
pub use text::check_date;
pub use text::check_date_at;
pub use text::check_timestamp;
pub use text::check_uuid;
pub use text::check_ip;
pub use text::check_decimal;
pub use text::parse_year_month;
pub use text::lemma_digits_val_congruent;
pub use text::lemma_dec_digits;
pub use text::ym_render;
pub use text::lemma_ym_render_parses;
pub use text::clock_render;
pub use text::ds_render;
pub use text::lemma_ds_render_parses;
pub use util::pad2;
pub use util::pad3;
pub use util::append_pad2;
pub use util::append_pad3;
pub use text::lemma_digits_val_shift;
pub use text::lemma_char_pos_unique;
pub use text::parse_day_second;
pub use util::str_eq;
pub use util::digit_char;
pub use util::dec_digits;
pub use util::append_u64;
pub use util::format_u64;
pub use value::Value;
pub use value::ValueV;
pub use value::array_views;
pub use value::object_views;
pub use value::lemma_array_views;
pub use value::lemma_object_views;

use vstd::prelude::*;
use crate::models::RawPrestoTy;
use crate::models::raw_name;
use crate::models::TypeSignature;
use crate::models::TypeSignatureV;
use crate::models::NamedTypeSignature;
use crate::models::NamedTypeSignatureV;
use crate::models::ParamV;
use crate::models::ClientTypeSignatureParameter;
use crate::models::RowFieldName;
use crate::models::Column;
use crate::models::param_views;
use crate::models::lemma_param_views;

verus! {

/// Why a wire type, a column, or a type signature was rejected.
#[derive(Debug, PartialEq)]
pub enum Error {
    InvalidPrestoType,
    InvalidColumn,
    InvalidTypeSignature,
    ParseDecimalFailed(String),
    ParseIntervalMonthFailed,
    ParseIntervalDayFailed,
    EmptyInPrestoRow,
    NonePrestoRow,
}

/// Width of a wire integer column.
#[derive(Clone, Copy, Debug, Eq, PartialEq, Structural)]
pub enum PrestoInt {
    I8,
    I16,
    I32,
    I64,
}

/// Width of a wire floating-point column.
#[derive(Clone, Copy, Debug, Eq, PartialEq, Structural)]
pub enum PrestoFloat {
    F32,
    F64,
}

/// The wire type algebra: a finite tree describing one column's type.
#[derive(Debug)]
pub enum PrestoTy {
    Date,
    Time,
    Timestamp,
    Uuid,
    IntervalYearToMonth,
    IntervalDayToSecond,
    Optional(Box<PrestoTy>),
    Boolean,
    PrestoInt(PrestoInt),
    PrestoFloat(PrestoFloat),
    Varchar,
    Char(usize),
    Tuple(Vec<PrestoTy>),
    Row(Vec<(String, PrestoTy)>),
    Array(Box<PrestoTy>),
    Mapping(Box<PrestoTy>, Box<PrestoTy>),
    Decimal(usize, usize),
    IpAddress,
    Json,
    Unknown,
}

/// The mathematical model of a [`PrestoTy`].
#[verifier::ext_equal]
pub enum TyV {
    Date,
    Time,
    Timestamp,
    Uuid,
    IntervalYearToMonth,
    IntervalDayToSecond,
    Optional(Box<TyV>),
    Boolean,
    PrestoInt(PrestoInt),
    PrestoFloat(PrestoFloat),
    Varchar,
    Char(nat),
    Tuple(Seq<TyV>),
    Row(Seq<(Seq<char>, TyV)>),
    Array(Box<TyV>),
    Mapping(Box<TyV>, Box<TyV>),
    Decimal(nat, nat),
    IpAddress,
    Json,
    Unknown,
}

/// Models of the first `n` member types of a tuple type.
pub open spec fn tuple_views(ts: Vec<PrestoTy>, n: int) -> Seq<TyV>
    decreases ts, n,
{
    if n <= 0 || n > ts@.len() {
        Seq::empty()
    } else {
        proof {
            vstd::std_specs::vec::axiom_vec_index_decreases(ts, n - 1);
        }
        tuple_views(ts, n - 1).push(ts@[n - 1]@)
    }
}

/// Models of the first `n` fields of a row type.
pub open spec fn row_views(fields: Vec<(String, PrestoTy)>, n: int) -> Seq<(Seq<char>, TyV)>
    decreases fields, n,
{
    if n <= 0 || n > fields@.len() {
        Seq::empty()
    } else {
        proof {
            vstd::std_specs::vec::axiom_vec_index_decreases(fields, n - 1);
        }
        row_views(fields, n - 1).push((fields@[n - 1].0@, fields@[n - 1].1@))
    }
}

impl View for PrestoTy {
    type V = TyV;

    open spec fn view(&self) -> TyV
        decreases self, 0int,
    {
        match self {
            PrestoTy::Date => TyV::Date,
            PrestoTy::Time => TyV::Time,
            PrestoTy::Timestamp => TyV::Timestamp,
            PrestoTy::Uuid => TyV::Uuid,
            PrestoTy::IntervalYearToMonth => TyV::IntervalYearToMonth,
            PrestoTy::IntervalDayToSecond => TyV::IntervalDayToSecond,
            PrestoTy::Optional(t) => TyV::Optional(Box::new((**t)@)),
            PrestoTy::Boolean => TyV::Boolean,
            PrestoTy::PrestoInt(w) => TyV::PrestoInt(*w),
            PrestoTy::PrestoFloat(w) => TyV::PrestoFloat(*w),
            PrestoTy::Varchar => TyV::Varchar,
            PrestoTy::Char(a) => TyV::Char(*a as nat),
            PrestoTy::Tuple(ts) => TyV::Tuple(tuple_views(*ts, ts@.len() as int)),
            PrestoTy::Row(fields) => TyV::Row(row_views(*fields, fields@.len() as int)),
            PrestoTy::Array(t) => TyV::Array(Box::new((**t)@)),
            PrestoTy::Mapping(k, v) => TyV::Mapping(Box::new((**k)@), Box::new((**v)@)),
            PrestoTy::Decimal(p, s) => TyV::Decimal(*p as nat, *s as nat),
            PrestoTy::IpAddress => TyV::IpAddress,
            PrestoTy::Json => TyV::Json,
            PrestoTy::Unknown => TyV::Unknown,
        }
    }
}

/// The model of a tuple type indexes member models in order.
pub proof fn lemma_tuple_views(ts: Vec<PrestoTy>, n: int)
    requires
        0 <= n <= ts@.len(),
    ensures
        tuple_views(ts, n).len() == n,
        forall|i: int| 0 <= i < n ==> tuple_views(ts, n)[i] == ts@[i]@,
    decreases n,
{
    if n > 0 {
        lemma_tuple_views(ts, n - 1);
        assert(tuple_views(ts, n) == tuple_views(ts, n - 1).push(ts@[n - 1]@));
        assert forall|i: int| 0 <= i < n implies tuple_views(ts, n)[i] == ts@[i]@ by {
            if i < n - 1 {
                assert(tuple_views(ts, n)[i] == tuple_views(ts, n - 1)[i]);
            }
        }
    } else {
        assert(tuple_views(ts, n).len() == 0);
    }
}

/// The model of a row type indexes field models in order.
pub proof fn lemma_row_views(fields: Vec<(String, PrestoTy)>, n: int)
    requires
        0 <= n <= fields@.len(),
    ensures
        row_views(fields, n).len() == n,
        forall|i: int| 0 <= i < n ==> row_views(fields, n)[i]
            == (fields@[i].0@, fields@[i].1@),
    decreases n,
{
    if n > 0 {
        lemma_row_views(fields, n - 1);
        assert(row_views(fields, n)
            == row_views(fields, n - 1).push((fields@[n - 1].0@, fields@[n - 1].1@)));
        assert forall|i: int| 0 <= i < n implies row_views(fields, n)[i]
            == (fields@[i].0@, fields@[i].1@) by {
            if i < n - 1 {
                assert(row_views(fields, n)[i] == row_views(fields, n - 1)[i]);
            }
        }
    } else {
        assert(row_views(fields, n).len() == 0);
    }
}

/// The raw type that heads the rendering of `t`; declared optionality is
/// transparent.
pub open spec fn raw_of(t: TyV) -> RawPrestoTy
    decreases t,
{
    match t {
        TyV::Date => RawPrestoTy::Date,
        TyV::Time => RawPrestoTy::Time,
        TyV::Timestamp => RawPrestoTy::Timestamp,
        TyV::Uuid => RawPrestoTy::Uuid,
        TyV::IntervalYearToMonth => RawPrestoTy::IntervalYearToMonth,
        TyV::IntervalDayToSecond => RawPrestoTy::IntervalDayToSecond,
        TyV::Optional(inner) => raw_of(*inner),
        TyV::Boolean => RawPrestoTy::Boolean,
        TyV::PrestoInt(w) => int_raw(w),
        TyV::PrestoFloat(w) => float_raw(w),
        TyV::Varchar => RawPrestoTy::VarChar,
        TyV::Char(_) => RawPrestoTy::Char,
        TyV::Tuple(_) => RawPrestoTy::Row,
        TyV::Row(_) => RawPrestoTy::Row,
        TyV::Array(_) => RawPrestoTy::Array,
        TyV::Mapping(_, _) => RawPrestoTy::Mapping,
        TyV::Decimal(_, _) => RawPrestoTy::Decimal,
        TyV::IpAddress => RawPrestoTy::IpAddress,
        TyV::Json => RawPrestoTy::Json,
        TyV::Unknown => RawPrestoTy::Unknown,
    }
}

/// The raw name of each integer width.
pub open spec fn int_raw(w: PrestoInt) -> RawPrestoTy {
    match w {
        PrestoInt::I8 => RawPrestoTy::TinyInt,
        PrestoInt::I16 => RawPrestoTy::SmallInt,
        PrestoInt::I32 => RawPrestoTy::Integer,
        PrestoInt::I64 => RawPrestoTy::BigInt,
    }
}

/// The raw name of each floating-point width.
pub open spec fn float_raw(w: PrestoFloat) -> RawPrestoTy {
    match w {
        PrestoFloat::F32 => RawPrestoTy::Real,
        PrestoFloat::F64 => RawPrestoTy::Double,
    }
}

impl PrestoInt {
    /// The raw type naming this integer width.
    pub fn raw_type(&self) -> (r: RawPrestoTy)
        ensures
            r == int_raw(*self),
    {
        match *self {
            PrestoInt::I8 => RawPrestoTy::TinyInt,
            PrestoInt::I16 => RawPrestoTy::SmallInt,
            PrestoInt::I32 => RawPrestoTy::Integer,
            PrestoInt::I64 => RawPrestoTy::BigInt,
        }
    }
}

impl PrestoFloat {
    /// The raw type naming this floating-point width.
    pub fn raw_type(&self) -> (r: RawPrestoTy)
        ensures
            r == float_raw(*self),
    {
        match *self {
            PrestoFloat::F32 => RawPrestoTy::Real,
            PrestoFloat::F64 => RawPrestoTy::Double,
        }
    }
}

impl PrestoTy {
    /// The raw type that heads this type's rendering.
    pub fn raw_type(&self) -> (r: RawPrestoTy)
        ensures
            r == raw_of(self@),
        decreases self,
    {
        match self {
            PrestoTy::Date => RawPrestoTy::Date,
            PrestoTy::Time => RawPrestoTy::Time,
            PrestoTy::Timestamp => RawPrestoTy::Timestamp,
            PrestoTy::Uuid => RawPrestoTy::Uuid,
            PrestoTy::IntervalYearToMonth => RawPrestoTy::IntervalYearToMonth,
            PrestoTy::IntervalDayToSecond => RawPrestoTy::IntervalDayToSecond,
            PrestoTy::Optional(t) => t.raw_type(),
            PrestoTy::Boolean => RawPrestoTy::Boolean,
            PrestoTy::PrestoInt(w) => w.raw_type(),
            PrestoTy::PrestoFloat(w) => w.raw_type(),
            PrestoTy::Varchar => RawPrestoTy::VarChar,
            PrestoTy::Char(_) => RawPrestoTy::Char,
            PrestoTy::Tuple(_) => RawPrestoTy::Row,
            PrestoTy::Row(_) => RawPrestoTy::Row,
            PrestoTy::Array(_) => RawPrestoTy::Array,
            PrestoTy::Mapping(_, _) => RawPrestoTy::Mapping,
            PrestoTy::Decimal(_, _) => RawPrestoTy::Decimal,
            PrestoTy::IpAddress => RawPrestoTy::IpAddress,
            PrestoTy::Json => RawPrestoTy::Json,
            PrestoTy::Unknown => RawPrestoTy::Unknown,
        }
    }
}


/// The full textual rendering of the member list of a tuple type, first `n`
/// members, comma separated.
pub open spec fn tuple_text(ts: Seq<TyV>, n: int) -> Seq<char>
    decreases ts, n,
{
    if n <= 0 || n > ts.len() {
        Seq::empty()
    } else {
        proof {
            vstd::seq::axiom_seq_index_decreases(ts, n - 1);
        }
        if n == 1 {
            full_name(ts[0])
        } else {
            tuple_text(ts, n - 1) + ","@ + full_name(ts[n - 1])
        }
    }
}

/// The full textual rendering of the field list of a row type, first `n`
/// fields, comma separated, each as `name type`.
pub open spec fn row_text(fields: Seq<(Seq<char>, TyV)>, n: int) -> Seq<char>
    decreases fields, n,
{
    if n <= 0 || n > fields.len() {
        Seq::empty()
    } else {
        proof {
            vstd::seq::axiom_seq_index_decreases(fields, n - 1);
        }
        if n == 1 {
            fields[0].0 + " "@ + full_name(fields[0].1)
        } else {
            row_text(fields, n - 1) + ","@ + fields[n - 1].0 + " "@ + full_name(fields[n - 1].1)
        }
    }
}

/// The full textual rendering of a wire type, as the service spells it in a
/// column's `type` text.
pub open spec fn full_name(t: TyV) -> Seq<char>
    decreases t, 0int,
{
    match t {
        TyV::Date => raw_name(RawPrestoTy::Date),
        TyV::Time => raw_name(RawPrestoTy::Time),
        TyV::Timestamp => raw_name(RawPrestoTy::Timestamp),
        TyV::Uuid => raw_name(RawPrestoTy::Uuid),
        TyV::IntervalYearToMonth => raw_name(RawPrestoTy::IntervalYearToMonth),
        TyV::IntervalDayToSecond => raw_name(RawPrestoTy::IntervalDayToSecond),
        TyV::Optional(inner) => full_name(*inner),
        TyV::Boolean => raw_name(RawPrestoTy::Boolean),
        TyV::PrestoInt(w) => raw_name(int_raw(w)),
        TyV::PrestoFloat(w) => raw_name(float_raw(w)),
        TyV::Varchar => raw_name(RawPrestoTy::VarChar),
        TyV::Char(a) => raw_name(RawPrestoTy::Char) + "("@ + dec_digits(a) + ")"@,
        TyV::Tuple(ts) => raw_name(RawPrestoTy::Row) + "("@
            + tuple_text(ts, ts.len() as int) + ")"@,
        TyV::Row(fields) => raw_name(RawPrestoTy::Row) + "("@
            + row_text(fields, fields.len() as int) + ")"@,
        TyV::Array(inner) => raw_name(RawPrestoTy::Array) + "("@ + full_name(*inner) + ")"@,
        TyV::Mapping(k, v) => raw_name(RawPrestoTy::Mapping) + "("@ + full_name(*k) + ","@
            + full_name(*v) + ")"@,
        TyV::Decimal(p, sc) => raw_name(RawPrestoTy::Decimal) + "("@ + dec_digits(p) + ","@
            + dec_digits(sc) + ")"@,
        TyV::IpAddress => raw_name(RawPrestoTy::IpAddress),
        TyV::Json => raw_name(RawPrestoTy::Json),
        TyV::Unknown => raw_name(RawPrestoTy::Unknown),
    }
}

impl PrestoTy {
    /// Appends this type's full textual rendering to `out`.
    #[verifier::loop_isolation(false)]
    #[verifier::rlimit(50)]
    #[verifier::spinoff_prover]
    fn append_full(&self, out: &mut String)
        ensures
            final(out)@ == old(out)@ + full_name(self@),
        decreases self,
    {
        match self {
            PrestoTy::Date => {
                out.append(RawPrestoTy::Date.to_str());
            },
            PrestoTy::Time => {
                out.append(RawPrestoTy::Time.to_str());
            },
            PrestoTy::Timestamp => {
                out.append(RawPrestoTy::Timestamp.to_str());
            },
            PrestoTy::Uuid => {
                out.append(RawPrestoTy::Uuid.to_str());
            },
            PrestoTy::IntervalYearToMonth => {
                out.append(RawPrestoTy::IntervalYearToMonth.to_str());
            },
            PrestoTy::IntervalDayToSecond => {
                out.append(RawPrestoTy::IntervalDayToSecond.to_str());
            },
            PrestoTy::Optional(t) => {
                t.append_full(out);
            },
            PrestoTy::Boolean => {
                out.append(RawPrestoTy::Boolean.to_str());
            },
            PrestoTy::PrestoInt(w) => {
                out.append(w.raw_type().to_str());
            },
            PrestoTy::PrestoFloat(w) => {
                out.append(w.raw_type().to_str());
            },
            PrestoTy::Varchar => {
                out.append(RawPrestoTy::VarChar.to_str());
            },
            PrestoTy::Char(a) => {
                out.append(RawPrestoTy::Char.to_str());
                out.append("(");
                append_u64(out, *a as u64);
                out.append(")");
                proof {
                    assert(out@ =~= old(out)@ + full_name(self@));
                }
            },
            PrestoTy::Tuple(ts) => {
                out.append(RawPrestoTy::Row.to_str());
                out.append("(");
                let ghost views = tuple_views(*ts, ts@.len() as int);
                proof {
                    lemma_tuple_views(*ts, ts@.len() as int);
                }
                let mut i: usize = 0;
                while i < ts.len()
                    invariant
                        i <= ts.len(),
                        out@ == old(out)@ + raw_name(RawPrestoTy::Row) + "("@
                            + tuple_text(views, i as int),
                    decreases ts.len() - i,
                {
                    proof {
                        vstd::std_specs::vec::axiom_vec_index_decreases(*ts, i as int);
                    }
                    if i > 0 {
                        out.append(",");
                    }
                    ts[i].append_full(out);
                    proof {
                        assert(out@ =~= old(out)@ + raw_name(RawPrestoTy::Row) + "("@
                            + tuple_text(views, i + 1));
                    }
                    i = i + 1;
                }
                out.append(")");
                proof {
                    assert(out@ =~= old(out)@ + full_name(self@));
                }
            },
            PrestoTy::Row(fields) => {
                out.append(RawPrestoTy::Row.to_str());
                out.append("(");
                let ghost views = row_views(*fields, fields@.len() as int);
                proof {
                    lemma_row_views(*fields, fields@.len() as int);
                }
                let mut i: usize = 0;
                while i < fields.len()
                    invariant
                        i <= fields.len(),
                        out@ == old(out)@ + raw_name(RawPrestoTy::Row) + "("@
                            + row_text(views, i as int),
                    decreases fields.len() - i,
                {
                    proof {
                        vstd::std_specs::vec::axiom_vec_index_decreases(*fields, i as int);
                    }
                    if i > 0 {
                        out.append(",");
                    }
                    out.append(fields[i].0.as_str());
                    out.append(" ");
                    fields[i].1.append_full(out);
                    proof {
                        assert(out@ =~= old(out)@ + raw_name(RawPrestoTy::Row) + "("@
                            + row_text(views, i + 1));
                    }
                    i = i + 1;
                }
                out.append(")");
                proof {
                    assert(out@ =~= old(out)@ + full_name(self@));
                }
            },
            PrestoTy::Array(t) => {
                out.append(RawPrestoTy::Array.to_str());
                out.append("(");
                t.append_full(out);
                out.append(")");
                proof {
                    assert(out@ =~= old(out)@ + full_name(self@));
                }
            },
            PrestoTy::Mapping(k, v) => {
                out.append(RawPrestoTy::Mapping.to_str());
                out.append("(");
                k.append_full(out);
                out.append(",");
                v.append_full(out);
                out.append(")");
                proof {
                    assert(out@ =~= old(out)@ + full_name(self@));
                }
            },
            PrestoTy::Decimal(p, sc) => {
                out.append(RawPrestoTy::Decimal.to_str());
                out.append("(");
                append_u64(out, *p as u64);
                out.append(",");
                append_u64(out, *sc as u64);
                out.append(")");
                proof {
                    assert(out@ =~= old(out)@ + full_name(self@));
                }
            },
            PrestoTy::IpAddress => {
                out.append(RawPrestoTy::IpAddress.to_str());
            },
            PrestoTy::Json => {
                out.append(RawPrestoTy::Json.to_str());
            },
            PrestoTy::Unknown => {
                out.append(RawPrestoTy::Unknown.to_str());
            },
        }
    }

    /// The full textual rendering of this type.
    pub fn full_type(&self) -> (r: String)
        ensures
            r@ == full_name(self@),
    {
        let mut out = String::new();
        self.append_full(&mut out);
        proof {
            assert(out@ =~= full_name(self@));
        }
        out
    }
}


/// The text of an optional row-field name; empty when absent.
pub open spec fn opt_name(o: Option<Seq<char>>) -> Seq<char> {
    match o {
        Some(s) => s,
        None => Seq::empty(),
    }
}

/// Collects, for the first `n` signature arguments of a row, the optional
/// field name and the parsed member type; `None` as soon as one argument is
/// not a named signature or fails to parse.
pub open spec fn row_of_args(args: Seq<ParamV>, n: int) -> Option<Seq<(Option<Seq<char>>, TyV)>>
    decreases args, n,
{
    if n <= 0 || n > args.len() {
        Some(Seq::empty())
    } else {
        proof {
            vstd::seq::axiom_seq_index_decreases(args, n - 1);
        }
        match row_of_args(args, n - 1) {
            None => None,
            Some(pre) => match args[n - 1] {
                ParamV::NamedTypeSignature(nv) => match ty_of_sig(nv.type_signature) {
                    Some(t) => Some(pre.push((nv.field_name, t))),
                    None => None,
                },
                _ => None,
            },
        }
    }
}

/// The wire type a structured type signature denotes, if it is well formed.
pub open spec fn ty_of_sig(sig: TypeSignatureV) -> Option<TyV>
    decreases sig, 0int,
{
    match sig.raw_type {
        RawPrestoTy::Date => Some(TyV::Date),
        RawPrestoTy::Time => Some(TyV::Time),
        RawPrestoTy::Timestamp => Some(TyV::Timestamp),
        RawPrestoTy::IntervalYearToMonth => Some(TyV::IntervalYearToMonth),
        RawPrestoTy::IntervalDayToSecond => Some(TyV::IntervalDayToSecond),
        RawPrestoTy::Unknown => Some(TyV::Unknown),
        RawPrestoTy::Boolean => Some(TyV::Boolean),
        RawPrestoTy::TinyInt => Some(TyV::PrestoInt(PrestoInt::I8)),
        RawPrestoTy::SmallInt => Some(TyV::PrestoInt(PrestoInt::I16)),
        RawPrestoTy::Integer => Some(TyV::PrestoInt(PrestoInt::I32)),
        RawPrestoTy::BigInt => Some(TyV::PrestoInt(PrestoInt::I64)),
        RawPrestoTy::Real => Some(TyV::PrestoFloat(PrestoFloat::F32)),
        RawPrestoTy::Double => Some(TyV::PrestoFloat(PrestoFloat::F64)),
        RawPrestoTy::VarChar => Some(TyV::Varchar),
        RawPrestoTy::IpAddress => Some(TyV::IpAddress),
        RawPrestoTy::Uuid => Some(TyV::Uuid),
        RawPrestoTy::Json => Some(TyV::Json),
        RawPrestoTy::Decimal => if sig.arguments.len() == 2 {
            match (sig.arguments[0], sig.arguments[1]) {
                (ParamV::LongLiteral(p), ParamV::LongLiteral(sc)) =>
                    if p <= usize::MAX && sc <= usize::MAX {
                        Some(TyV::Decimal(p as nat, sc as nat))
                    } else {
                        None
                    },
                _ => None,
            }
        } else {
            None
        },
        RawPrestoTy::Char => if sig.arguments.len() == 1 {
            match sig.arguments[0] {
                ParamV::LongLiteral(p) => if p <= usize::MAX {
                    Some(TyV::Char(p as nat))
                } else {
                    None
                },
                _ => None,
            }
        } else {
            None
        },
        RawPrestoTy::Array => if sig.arguments.len() == 1 {
            proof {
                vstd::seq::axiom_seq_index_decreases(sig.arguments, 0);
            }
            match sig.arguments[0] {
                ParamV::TypeSignature(inner) => match ty_of_sig(inner) {
                    Some(t) => Some(TyV::Array(Box::new(t))),
                    None => None,
                },
                _ => None,
            }
        } else {
            None
        },
        RawPrestoTy::Mapping => if sig.arguments.len() == 2 {
            proof {
                vstd::seq::axiom_seq_index_decreases(sig.arguments, 0);
                vstd::seq::axiom_seq_index_decreases(sig.arguments, 1);
            }
            match (sig.arguments[0], sig.arguments[1]) {
                (ParamV::TypeSignature(ks), ParamV::TypeSignature(vs)) =>
                    match (ty_of_sig(ks), ty_of_sig(vs)) {
                        (Some(k), Some(v)) => Some(TyV::Mapping(Box::new(k), Box::new(v))),
                        _ => None,
                    },
                _ => None,
            }
        } else {
            None
        },
        RawPrestoTy::Row => if sig.arguments.len() == 0 {
            None
        } else {
            match row_of_args(sig.arguments, sig.arguments.len() as int) {
                None => None,
                Some(pairs) => if pairs[0].0 is Some {
                    if forall|i: int| 0 <= i < pairs.len() ==> pairs[i].0 is Some {
                        Some(TyV::Row(Seq::new(pairs.len(), |i: int| (opt_name(pairs[i].0), pairs[i].1))))
                    } else {
                        None
                    }
                } else {
                    if forall|i: int| 0 <= i < pairs.len() ==> pairs[i].0 is None {
                        Some(TyV::Tuple(Seq::new(pairs.len(), |i: int| pairs[i].1)))
                    } else {
                        None
                    }
                },
            }
        },
        _ => None,
    }
}

/// A successful row argument list has one entry per argument.
pub proof fn lemma_row_of_args_len(args: Seq<ParamV>, n: int)
    requires
        0 <= n <= args.len(),
    ensures
        row_of_args(args, n) matches Some(pairs) ==> pairs.len() == n,
    decreases n,
{
    if n > 0 {
        lemma_row_of_args_len(args, n - 1);
    }
}

/// A failed prefix of a row argument list fails as a whole, and the entries
/// of a successful list restrict to its prefixes.
pub proof fn lemma_row_of_args_prefix(args: Seq<ParamV>, m: int, n: int)
    requires
        0 <= m <= n <= args.len(),
    ensures
        row_of_args(args, m) is None ==> row_of_args(args, n) is None,
        row_of_args(args, n) matches Some(pairs) ==> (row_of_args(args, m) matches Some(pre)
            && pairs.len() == n && pre == pairs.subrange(0, m)),
    decreases n,
{
    lemma_row_of_args_len(args, n);
    lemma_row_of_args_len(args, m);
    if n > m {
        lemma_row_of_args_prefix(args, m, n - 1);
        match row_of_args(args, n) {
            Some(pairs) => {
                assert(row_of_args(args, n - 1) matches Some(p1) && pairs == p1.push(pairs[n - 1]));
                match row_of_args(args, n - 1) {
                    Some(p1) => {
                        assert(p1 == pairs.subrange(0, n - 1));
                        match row_of_args(args, m) {
                            Some(pre) => {
                                assert(pre == p1.subrange(0, m));
                                assert(p1.subrange(0, m) =~= pairs.subrange(0, m));
                            },
                            None => {},
                        }
                    },
                    None => {},
                }
            },
            None => {},
        }
    } else {
        match row_of_args(args, n) {
            Some(pairs) => {
                assert(pairs.subrange(0, m) =~= pairs);
            },
            None => {},
        }
    }
}

/// Signature arguments rendering the members of a tuple type, first `n`.
pub open spec fn tuple_args(ts: Seq<TyV>, n: int) -> Seq<ParamV>
    decreases ts, n,
{
    if n <= 0 || n > ts.len() {
        Seq::empty()
    } else {
        proof {
            vstd::seq::axiom_seq_index_decreases(ts, n - 1);
        }
        tuple_args(ts, n - 1).push(ParamV::NamedTypeSignature(NamedTypeSignatureV {
            field_name: None,
            type_signature: sig_of_ty(ts[n - 1]),
        }))
    }
}

/// Signature arguments rendering the fields of a row type, first `n`.
pub open spec fn row_args(fields: Seq<(Seq<char>, TyV)>, n: int) -> Seq<ParamV>
    decreases fields, n,
{
    if n <= 0 || n > fields.len() {
        Seq::empty()
    } else {
        proof {
            vstd::seq::axiom_seq_index_decreases(fields, n - 1);
        }
        row_args(fields, n - 1).push(ParamV::NamedTypeSignature(NamedTypeSignatureV {
            field_name: Some(fields[n - 1].0),
            type_signature: sig_of_ty(fields[n - 1].1),
        }))
    }
}

/// The canonical structured signature of a wire type; declared optionality is
/// transparent, and a tuple renders as a row without field names.
pub open spec fn sig_of_ty(t: TyV) -> TypeSignatureV
    decreases t, 0int,
{
    match t {
        TyV::Date => TypeSignatureV { raw_type: RawPrestoTy::Date, arguments: Seq::empty() },
        TyV::Time => TypeSignatureV { raw_type: RawPrestoTy::Time, arguments: Seq::empty() },
        TyV::Timestamp => TypeSignatureV {
            raw_type: RawPrestoTy::Timestamp,
            arguments: Seq::empty(),
        },
        TyV::Uuid => TypeSignatureV { raw_type: RawPrestoTy::Uuid, arguments: Seq::empty() },
        TyV::IntervalYearToMonth => TypeSignatureV {
            raw_type: RawPrestoTy::IntervalYearToMonth,
            arguments: Seq::empty(),
        },
        TyV::IntervalDayToSecond => TypeSignatureV {
            raw_type: RawPrestoTy::IntervalDayToSecond,
            arguments: Seq::empty(),
        },
        TyV::Optional(inner) => sig_of_ty(*inner),
        TyV::Boolean => TypeSignatureV { raw_type: RawPrestoTy::Boolean, arguments: Seq::empty() },
        TyV::PrestoInt(w) => TypeSignatureV { raw_type: int_raw(w), arguments: Seq::empty() },
        TyV::PrestoFloat(w) => TypeSignatureV { raw_type: float_raw(w), arguments: Seq::empty() },
        TyV::Varchar => TypeSignatureV {
            raw_type: RawPrestoTy::VarChar,
            arguments: seq![ParamV::LongLiteral(2147483647u64)],
        },
        TyV::Char(a) => TypeSignatureV {
            raw_type: RawPrestoTy::Char,
            arguments: seq![ParamV::LongLiteral(a as u64)],
        },
        TyV::Tuple(ts) => TypeSignatureV {
            raw_type: RawPrestoTy::Row,
            arguments: tuple_args(ts, ts.len() as int),
        },
        TyV::Row(fields) => TypeSignatureV {
            raw_type: RawPrestoTy::Row,
            arguments: row_args(fields, fields.len() as int),
        },
        TyV::Array(inner) => TypeSignatureV {
            raw_type: RawPrestoTy::Array,
            arguments: seq![ParamV::TypeSignature(sig_of_ty(*inner))],
        },
        TyV::Mapping(k, v) => TypeSignatureV {
            raw_type: RawPrestoTy::Mapping,
            arguments: seq![
                ParamV::TypeSignature(sig_of_ty(*k)),
                ParamV::TypeSignature(sig_of_ty(*v)),
            ],
        },
        TyV::Decimal(p, sc) => TypeSignatureV {
            raw_type: RawPrestoTy::Decimal,
            arguments: seq![ParamV::LongLiteral(p as u64), ParamV::LongLiteral(sc as u64)],
        },
        TyV::IpAddress => TypeSignatureV {
            raw_type: RawPrestoTy::IpAddress,
            arguments: Seq::empty(),
        },
        TyV::Json => TypeSignatureV { raw_type: RawPrestoTy::Json, arguments: Seq::empty() },
        TyV::Unknown => TypeSignatureV { raw_type: RawPrestoTy::Unknown, arguments: Seq::empty() },
    }
}

/// The rendered argument list of a tuple type indexes member renderings.
pub proof fn lemma_tuple_args(ts: Seq<TyV>, n: int)
    requires
        0 <= n <= ts.len(),
    ensures
        tuple_args(ts, n).len() == n,
        forall|i: int| 0 <= i < n ==> tuple_args(ts, n)[i] == ParamV::NamedTypeSignature(
            NamedTypeSignatureV { field_name: None, type_signature: sig_of_ty(ts[i]) },
        ),
    decreases n,
{
    if n > 0 {
        lemma_tuple_args(ts, n - 1);
        assert forall|i: int| 0 <= i < n implies tuple_args(ts, n)[i]
            == ParamV::NamedTypeSignature(NamedTypeSignatureV {
                field_name: None,
                type_signature: sig_of_ty(ts[i]),
            }) by {
            if i < n - 1 {
                assert(tuple_args(ts, n)[i] == tuple_args(ts, n - 1)[i]);
            }
        }
    }
}

/// The rendered argument list of a row type indexes field renderings.
pub proof fn lemma_row_args(fields: Seq<(Seq<char>, TyV)>, n: int)
    requires
        0 <= n <= fields.len(),
    ensures
        row_args(fields, n).len() == n,
        forall|i: int| 0 <= i < n ==> row_args(fields, n)[i] == ParamV::NamedTypeSignature(
            NamedTypeSignatureV {
                field_name: Some(fields[i].0),
                type_signature: sig_of_ty(fields[i].1),
            },
        ),
    decreases n,
{
    if n > 0 {
        lemma_row_args(fields, n - 1);
        assert forall|i: int| 0 <= i < n implies row_args(fields, n)[i]
            == ParamV::NamedTypeSignature(NamedTypeSignatureV {
                field_name: Some(fields[i].0),
                type_signature: sig_of_ty(fields[i].1),
            }) by {
            if i < n - 1 {
                assert(row_args(fields, n)[i] == row_args(fields, n - 1)[i]);
            }
        }
    }
}


impl PrestoTy {
    /// Parses a structured type signature into a wire type.
    #[verifier::loop_isolation(false)]
    fn from_sig(sig: &TypeSignature) -> (r: Result<PrestoTy, Error>)
        ensures
            ty_of_sig(sig@) is Some <==> r is Ok,
            r matches Ok(t) ==> Some(t@) == ty_of_sig(sig@),
            r matches Err(e) ==> e == Error::InvalidTypeSignature,
        decreases sig,
    {
        proof {
            lemma_param_views(sig.arguments, sig.arguments@.len() as int);
        }
        let n = sig.arguments.len();
        let ghost argsv = sig@.arguments;
        match sig.raw_type {
            RawPrestoTy::Date => Ok(PrestoTy::Date),
            RawPrestoTy::Time => Ok(PrestoTy::Time),
            RawPrestoTy::Timestamp => Ok(PrestoTy::Timestamp),
            RawPrestoTy::IntervalYearToMonth => Ok(PrestoTy::IntervalYearToMonth),
            RawPrestoTy::IntervalDayToSecond => Ok(PrestoTy::IntervalDayToSecond),
            RawPrestoTy::Unknown => Ok(PrestoTy::Unknown),
            RawPrestoTy::Boolean => Ok(PrestoTy::Boolean),
            RawPrestoTy::TinyInt => Ok(PrestoTy::PrestoInt(PrestoInt::I8)),
            RawPrestoTy::SmallInt => Ok(PrestoTy::PrestoInt(PrestoInt::I16)),
            RawPrestoTy::Integer => Ok(PrestoTy::PrestoInt(PrestoInt::I32)),
            RawPrestoTy::BigInt => Ok(PrestoTy::PrestoInt(PrestoInt::I64)),
            RawPrestoTy::Real => Ok(PrestoTy::PrestoFloat(PrestoFloat::F32)),
            RawPrestoTy::Double => Ok(PrestoTy::PrestoFloat(PrestoFloat::F64)),
            RawPrestoTy::VarChar => Ok(PrestoTy::Varchar),
            RawPrestoTy::IpAddress => Ok(PrestoTy::IpAddress),
            RawPrestoTy::Uuid => Ok(PrestoTy::Uuid),
            RawPrestoTy::Json => Ok(PrestoTy::Json),
            RawPrestoTy::Decimal => {
                if n == 2 {
                    match (&sig.arguments[0], &sig.arguments[1]) {
                        (
                            ClientTypeSignatureParameter::LongLiteral(p),
                            ClientTypeSignatureParameter::LongLiteral(sc),
                        ) => {
                            if *p <= usize::MAX as u64 && *sc <= usize::MAX as u64 {
                                Ok(PrestoTy::Decimal(*p as usize, *sc as usize))
                            } else {
                                Err(Error::InvalidTypeSignature)
                            }
                        },
                        _ => Err(Error::InvalidTypeSignature),
                    }
                } else {
                    Err(Error::InvalidTypeSignature)
                }
            },
            RawPrestoTy::Char => {
                if n == 1 {
                    match &sig.arguments[0] {
                        ClientTypeSignatureParameter::LongLiteral(p) => {
                            if *p <= usize::MAX as u64 {
                                Ok(PrestoTy::Char(*p as usize))
                            } else {
                                Err(Error::InvalidTypeSignature)
                            }
                        },
                        _ => Err(Error::InvalidTypeSignature),
                    }
                } else {
                    Err(Error::InvalidTypeSignature)
                }
            },
            RawPrestoTy::Array => {
                if n == 1 {
                    proof {
                        vstd::std_specs::vec::axiom_vec_index_decreases(sig.arguments, 0);
                    }
                    match &sig.arguments[0] {
                        ClientTypeSignatureParameter::TypeSignature(inner) => {
                            match Self::from_sig(inner) {
                                Ok(t) => Ok(PrestoTy::Array(Box::new(t))),
                                Err(_) => Err(Error::InvalidTypeSignature),
                            }
                        },
                        _ => Err(Error::InvalidTypeSignature),
                    }
                } else {
                    Err(Error::InvalidTypeSignature)
                }
            },
            RawPrestoTy::Mapping => {
                if n == 2 {
                    proof {
                        vstd::std_specs::vec::axiom_vec_index_decreases(sig.arguments, 0);
                        vstd::std_specs::vec::axiom_vec_index_decreases(sig.arguments, 1);
                    }
                    match (&sig.arguments[0], &sig.arguments[1]) {
                        (
                            ClientTypeSignatureParameter::TypeSignature(ks),
                            ClientTypeSignatureParameter::TypeSignature(vs),
                        ) => {
                            match Self::from_sig(ks) {
                                Ok(k) => match Self::from_sig(vs) {
                                    Ok(v) => Ok(PrestoTy::Mapping(Box::new(k), Box::new(v))),
                                    Err(_) => Err(Error::InvalidTypeSignature),
                                },
                                Err(_) => Err(Error::InvalidTypeSignature),
                            }
                        },
                        _ => Err(Error::InvalidTypeSignature),
                    }
                } else {
                    Err(Error::InvalidTypeSignature)
                }
            },
            RawPrestoTy::Row => {
                if n == 0 {
                    return Err(Error::InvalidTypeSignature);
                }
                let is_named = match &sig.arguments[0] {
                    ClientTypeSignatureParameter::NamedTypeSignature(nv0) => {
                        nv0.field_name.is_some()
                    },
                    _ => {
                        proof {
                            lemma_row_of_args_prefix(argsv, 1, n as int);
                        }
                        return Err(Error::InvalidTypeSignature);
                    },
                };
                let mut fields: Vec<(String, PrestoTy)> = Vec::new();
                let mut members: Vec<PrestoTy> = Vec::new();
                let mut i: usize = 0;
                while i < n
                    invariant
                        i <= n,
                        (row_of_args(argsv, i as int) matches Some(pre) && pre.len() == i
                            && (is_named ==> fields@.len() == i
                                && (forall|j: int| 0 <= j < i ==> pre[j].0
                                    == Some(fields@[j].0@) && pre[j].1 == fields@[j].1@))
                            && (!is_named ==> members@.len() == i
                                && (forall|j: int| 0 <= j < i ==> pre[j].0 is None
                                    && pre[j].1 == members@[j]@))),
                    decreases n - i,
                {
                    proof {
                        vstd::std_specs::vec::axiom_vec_index_decreases(sig.arguments, i as int);
                    }
                    match &sig.arguments[i] {
                        ClientTypeSignatureParameter::NamedTypeSignature(nv) => {
                            let t = match Self::from_sig(&nv.type_signature) {
                                Ok(t) => t,
                                Err(_) => {
                                    proof {
                                        lemma_row_of_args_prefix(argsv, i + 1, n as int);
                                    }
                                    return Err(Error::InvalidTypeSignature);
                                },
                            };
                            if is_named {
                                match &nv.field_name {
                                    Some(f) => {
                                        fields.push((f.name.clone(), t));
                                    },
                                    None => {
                                        proof {
                                            assert(argsv[i as int]
                                                == ParamV::NamedTypeSignature(nv@));
                                            match row_of_args(argsv, i as int) {
                                                Some(pre) => {
                                                    assert(row_of_args(argsv, i + 1)
                                                        == Some(pre.push((nv@.field_name, t@))));
                                                    lemma_row_of_args_prefix(argsv, i + 1, n as int);
                                                    match row_of_args(argsv, n as int) {
                                                        Some(pairs) => {
                                                            let x = (nv@.field_name, t@);
                                                            assert(pre.push(x)
                                                                == pairs.subrange(0, i + 1));
                                                            assert(pairs.subrange(0, i + 1)[i as int]
                                                                == pairs[i as int]);
                                                            assert(pre.push(x)[i as int] == x);
                                                            if i > 0 {
                                                                assert(pairs.subrange(0, i + 1)[0]
                                                                    == pairs[0]);
                                                                assert(pre.push(x)[0] == pre[0]);
                                                            }
                                                        },
                                                        None => {},
                                                    }
                                                },
                                                None => {},
                                            }
                                        }
                                        return Err(Error::InvalidTypeSignature);
                                    },
                                }
                            } else {
                                match &nv.field_name {
                                    None => {
                                        members.push(t);
                                    },
                                    Some(_) => {
                                        proof {
                                            assert(argsv[i as int]
                                                == ParamV::NamedTypeSignature(nv@));
                                            match row_of_args(argsv, i as int) {
                                                Some(pre) => {
                                                    assert(row_of_args(argsv, i + 1)
                                                        == Some(pre.push((nv@.field_name, t@))));
                                                    lemma_row_of_args_prefix(argsv, i + 1, n as int);
                                                    match row_of_args(argsv, n as int) {
                                                        Some(pairs) => {
                                                            let x = (nv@.field_name, t@);
                                                            assert(pre.push(x)
                                                                == pairs.subrange(0, i + 1));
                                                            assert(pairs.subrange(0, i + 1)[i as int]
                                                                == pairs[i as int]);
                                                            assert(pre.push(x)[i as int] == x);
                                                            if i > 0 {
                                                                assert(pairs.subrange(0, i + 1)[0]
                                                                    == pairs[0]);
                                                                assert(pre.push(x)[0] == pre[0]);
                                                            }
                                                        },
                                                        None => {},
                                                    }
                                                },
                                                None => {},
                                            }
                                        }
                                        return Err(Error::InvalidTypeSignature);
                                    },
                                }
                            }
                        },
                        _ => {
                            proof {
                                lemma_row_of_args_prefix(argsv, i + 1, n as int);
                            }
                            return Err(Error::InvalidTypeSignature);
                        },
                    }
                    i = i + 1;
                }
                if is_named {
                    let result = PrestoTy::Row(fields);
                    proof {
                        lemma_row_views(result->Row_0, result->Row_0@.len() as int);
                        let pairs = row_of_args(argsv, n as int)->Some_0;
                        assert(row_views(result->Row_0, n as int)
                            =~= Seq::new(pairs.len(), |k: int| (opt_name(pairs[k].0), pairs[k].1)));
                    }
                    Ok(result)
                } else {
                    let result = PrestoTy::Tuple(members);
                    proof {
                        lemma_tuple_views(result->Tuple_0, result->Tuple_0@.len() as int);
                        let pairs = row_of_args(argsv, n as int)->Some_0;
                        assert(tuple_views(result->Tuple_0, n as int)
                            =~= Seq::new(pairs.len(), |k: int| pairs[k].1));
                    }
                    Ok(result)
                }
            },
            _ => Err(Error::InvalidTypeSignature),
        }
    }

    /// Parses a structured type signature into a wire type.
    pub fn from_type_signature(sig: TypeSignature) -> (r: Result<Self, Error>)
        ensures
            ty_of_sig(sig@) is Some <==> r is Ok,
            r matches Ok(t) ==> Some(t@) == ty_of_sig(sig@),
            r matches Err(e) ==> e == Error::InvalidTypeSignature,
    {
        Self::from_sig(&sig)
    }
}


/// Collects name and parsed type for the first `n` columns; `None` as soon
/// as one column lacks a signature or its signature fails to parse.
pub open spec fn cols_row(cols: Seq<Column>, n: int) -> Option<Seq<(Seq<char>, TyV)>>
    decreases n,
{
    if n <= 0 || n > cols.len() {
        Some(Seq::empty())
    } else {
        match cols_row(cols, n - 1) {
            None => None,
            Some(pre) => match cols[n - 1]@.type_signature {
                None => None,
                Some(sv) => match ty_of_sig(sv) {
                    None => None,
                    Some(t) => Some(pre.push((cols[n - 1]@.name, t))),
                },
            },
        }
    }
}

/// The error that the first ill-formed column among the first `n` yields.
pub open spec fn first_col_err(cols: Seq<Column>, n: int) -> Option<Error>
    decreases n,
{
    if n <= 0 || n > cols.len() {
        None
    } else {
        match first_col_err(cols, n - 1) {
            Some(e) => Some(e),
            None => match cols[n - 1]@.type_signature {
                None => Some(Error::InvalidColumn),
                Some(sv) => if ty_of_sig(sv) is None {
                    Some(Error::InvalidTypeSignature)
                } else {
                    None
                },
            },
        }
    }
}

/// The error one ill-formed column yields, if any.
pub open spec fn err_of_col(c: Column) -> Option<Error> {
    match c@.type_signature {
        None => Some(Error::InvalidColumn),
        Some(sv) => if ty_of_sig(sv) is None {
            Some(Error::InvalidTypeSignature)
        } else {
            None
        },
    }
}

/// When the first `i` columns are well formed and column `i` is not, the
/// whole list fails with column `i`'s error.
pub proof fn lemma_first_col_err(cols: Seq<Column>, i: int, n: int)
    requires
        0 <= i < n <= cols.len(),
        cols_row(cols, i) is Some,
        err_of_col(cols[i]) is Some,
    ensures
        cols_row(cols, n) is None,
        first_col_err(cols, n) == err_of_col(cols[i]),
    decreases n,
{
    lemma_cols_row_prefix(cols, i, i);
    if n - 1 > i {
        lemma_first_col_err(cols, i, n - 1);
    } else {
        lemma_cols_row_prefix(cols, i, i);
        assert(first_col_err(cols, i) is None);
        assert(first_col_err(cols, n) == err_of_col(cols[i]));
    }
}

/// A failed column prefix fails as a whole, a successful list restricts to
/// prefixes, and success means no column yields an error.
pub proof fn lemma_cols_row_prefix(cols: Seq<Column>, m: int, n: int)
    requires
        0 <= m <= n <= cols.len(),
    ensures
        cols_row(cols, m) is None ==> cols_row(cols, n) is None,
        cols_row(cols, n) matches Some(pairs) ==> (cols_row(cols, m) matches Some(pre)
            && pairs.len() == n && pre == pairs.subrange(0, m)),
        cols_row(cols, n) is Some <==> first_col_err(cols, n) is None,
    decreases n,
{
    if n > 0 {
        lemma_cols_row_prefix(cols, if m == n { m - 1 } else { m }, n - 1);
        match row_of_args(Seq::<ParamV>::empty(), 0) {
            _ => {},
        }
        match cols_row(cols, n) {
            Some(pairs) => {
                match cols_row(cols, n - 1) {
                    Some(p1) => {
                        assert(p1 == pairs.subrange(0, n - 1));
                        if m < n {
                            match cols_row(cols, m) {
                                Some(pre) => {
                                    assert(pre == p1.subrange(0, m));
                                    assert(p1.subrange(0, m) =~= pairs.subrange(0, m));
                                },
                                None => {},
                            }
                        } else {
                            assert(pairs.subrange(0, m) =~= pairs);
                        }
                    },
                    None => {},
                }
            },
            None => {},
        }
    }
}

impl PrestoTy {
    /// Parses one column into its name and wire type.
    pub fn from_column(column: Column) -> (r: Result<(String, PrestoTy), Error>)
        ensures
            column@.type_signature is None ==> r
                == Err::<(String, PrestoTy), Error>(Error::InvalidColumn),
            column@.type_signature matches Some(sv) ==> ((ty_of_sig(sv) matches Some(t)
                ==> (r matches Ok(p) && p.0@ == column@.name && p.1@ == t))
                && (ty_of_sig(sv) is None ==> r
                    == Err::<(String, PrestoTy), Error>(Error::InvalidTypeSignature))),
    {
        match column.type_signature {
            Some(sig) => {
                match Self::from_sig(&sig) {
                    Ok(t) => Ok((column.name, t)),
                    Err(_) => Err(Error::InvalidTypeSignature),
                }
            },
            None => Err(Error::InvalidColumn),
        }
    }

    /// Parses a page's column list into the row type the page provides.
    #[verifier::loop_isolation(false)]
    pub fn from_columns(columns: Vec<Column>) -> (r: Result<Self, Error>)
        ensures
            match cols_row(columns@, columns@.len() as int) {
                Some(fields) => r matches Ok(t) && t@ == TyV::Row(fields),
                None => r matches Err(e)
                    && Some(e) == first_col_err(columns@, columns@.len() as int),
            },
    {
        let n = columns.len();
        let mut fields: Vec<(String, PrestoTy)> = Vec::new();
        let mut i: usize = 0;
        while i < n
            invariant
                i <= n,
                (cols_row(columns@, i as int) matches Some(pre) && pre.len() == i
                    && fields@.len() == i
                    && (forall|j: int| 0 <= j < i ==> pre[j].0 == fields@[j].0@
                        && pre[j].1 == fields@[j].1@)),
            decreases n - i,
        {
            match &columns[i].type_signature {
                Some(sig) => {
                    match Self::from_sig(sig) {
                        Ok(t) => {
                            fields.push((columns[i].name.clone(), t));
                        },
                        Err(_) => {
                            proof {
                                lemma_first_col_err(columns@, i as int, n as int);
                            }
                            return Err(Error::InvalidTypeSignature);
                        },
                    }
                },
                None => {
                    proof {
                        lemma_first_col_err(columns@, i as int, n as int);
                    }
                    return Err(Error::InvalidColumn);
                },
            }
            i = i + 1;
        }
        let result = PrestoTy::Row(fields);
        proof {
            lemma_row_views(result->Row_0, result->Row_0@.len() as int);
            match cols_row(columns@, n as int) {
                Some(pairs) => {
                    assert(row_views(result->Row_0, n as int) =~= pairs);
                },
                None => {},
            }
        }
        Ok(result)
    }
}


impl PrestoTy {
    /// Renders this type as its canonical structured signature.
    #[verifier::loop_isolation(false)]
    #[verifier::rlimit(50)]
    #[verifier::spinoff_prover]
    fn to_sig(&self) -> (r: TypeSignature)
        ensures
            r@ == sig_of_ty(self@),
        decreases self,
    {
        match self {
            PrestoTy::Date => TypeSignature { raw_type: RawPrestoTy::Date, arguments: Vec::new() },
            PrestoTy::Time => TypeSignature { raw_type: RawPrestoTy::Time, arguments: Vec::new() },
            PrestoTy::Timestamp => TypeSignature {
                raw_type: RawPrestoTy::Timestamp,
                arguments: Vec::new(),
            },
            PrestoTy::Uuid => TypeSignature { raw_type: RawPrestoTy::Uuid, arguments: Vec::new() },
            PrestoTy::IntervalYearToMonth => TypeSignature {
                raw_type: RawPrestoTy::IntervalYearToMonth,
                arguments: Vec::new(),
            },
            PrestoTy::IntervalDayToSecond => TypeSignature {
                raw_type: RawPrestoTy::IntervalDayToSecond,
                arguments: Vec::new(),
            },
            PrestoTy::Optional(t) => t.to_sig(),
            PrestoTy::Boolean => TypeSignature {
                raw_type: RawPrestoTy::Boolean,
                arguments: Vec::new(),
            },
            PrestoTy::PrestoInt(w) => TypeSignature {
                raw_type: w.raw_type(),
                arguments: Vec::new(),
            },
            PrestoTy::PrestoFloat(w) => TypeSignature {
                raw_type: w.raw_type(),
                arguments: Vec::new(),
            },
            PrestoTy::Varchar => {
                let result = TypeSignature {
                    raw_type: RawPrestoTy::VarChar,
                    arguments: vec![ClientTypeSignatureParameter::LongLiteral(2147483647)],
                };
                proof {
                    lemma_param_views(result.arguments, 1);
                    assert(result@.arguments =~= sig_of_ty(self@).arguments);
                }
                result
            },
            PrestoTy::Char(a) => {
                let result = TypeSignature {
                    raw_type: RawPrestoTy::Char,
                    arguments: vec![ClientTypeSignatureParameter::LongLiteral(*a as u64)],
                };
                proof {
                    lemma_param_views(result.arguments, 1);
                    assert(result@.arguments =~= sig_of_ty(self@).arguments);
                }
                result
            },
            PrestoTy::Decimal(p, sc) => {
                let result = TypeSignature {
                    raw_type: RawPrestoTy::Decimal,
                    arguments: vec![
                        ClientTypeSignatureParameter::LongLiteral(*p as u64),
                        ClientTypeSignatureParameter::LongLiteral(*sc as u64),
                    ],
                };
                proof {
                    lemma_param_views(result.arguments, 2);
                    assert(result@.arguments =~= sig_of_ty(self@).arguments);
                }
                result
            },
            PrestoTy::Array(t) => {
                let inner = t.to_sig();
                let result = TypeSignature {
                    raw_type: RawPrestoTy::Array,
                    arguments: vec![ClientTypeSignatureParameter::TypeSignature(inner)],
                };
                proof {
                    lemma_param_views(result.arguments, 1);
                    assert(result@.arguments =~= sig_of_ty(self@).arguments);
                }
                result
            },
            PrestoTy::Mapping(k, v) => {
                let ks = k.to_sig();
                let vs = v.to_sig();
                let result = TypeSignature {
                    raw_type: RawPrestoTy::Mapping,
                    arguments: vec![
                        ClientTypeSignatureParameter::TypeSignature(ks),
                        ClientTypeSignatureParameter::TypeSignature(vs),
                    ],
                };
                proof {
                    lemma_param_views(result.arguments, 2);
                    assert(result@.arguments =~= sig_of_ty(self@).arguments);
                }
                result
            },
            PrestoTy::Tuple(ts) => {
                let ghost tsv = tuple_views(*ts, ts@.len() as int);
                proof {
                    lemma_tuple_views(*ts, ts@.len() as int);
                }
                let n = ts.len();
                let mut args: Vec<ClientTypeSignatureParameter> = Vec::new();
                let mut i: usize = 0;
                while i < n
                    invariant
                        i <= n,
                        args@.len() == i,
                        forall|j: int| 0 <= j < i ==> args@[j]@ == ParamV::NamedTypeSignature(
                            NamedTypeSignatureV {
                                field_name: None,
                                type_signature: sig_of_ty(tsv[j]),
                            },
                        ),
                    decreases n - i,
                {
                    proof {
                        vstd::std_specs::vec::axiom_vec_index_decreases(*ts, i as int);
                    }
                    let m = ts[i].to_sig();
                    args.push(ClientTypeSignatureParameter::NamedTypeSignature(
                        NamedTypeSignature { field_name: None, type_signature: m },
                    ));
                    i = i + 1;
                }
                let result = TypeSignature { raw_type: RawPrestoTy::Row, arguments: args };
                proof {
                    lemma_param_views(result.arguments, result.arguments@.len() as int);
                    lemma_tuple_args(tsv, tsv.len() as int);
                    assert(result@.arguments =~= tuple_args(tsv, tsv.len() as int));
                }
                result
            },
            PrestoTy::Row(fields) => {
                let ghost fsv = row_views(*fields, fields@.len() as int);
                proof {
                    lemma_row_views(*fields, fields@.len() as int);
                }
                let n = fields.len();
                let mut args: Vec<ClientTypeSignatureParameter> = Vec::new();
                let mut i: usize = 0;
                while i < n
                    invariant
                        i <= n,
                        args@.len() == i,
                        forall|j: int| 0 <= j < i ==> args@[j]@ == ParamV::NamedTypeSignature(
                            NamedTypeSignatureV {
                                field_name: Some(fsv[j].0),
                                type_signature: sig_of_ty(fsv[j].1),
                            },
                        ),
                    decreases n - i,
                {
                    proof {
                        vstd::std_specs::vec::axiom_vec_index_decreases(*fields, i as int);
                    }
                    let m = fields[i].1.to_sig();
                    args.push(ClientTypeSignatureParameter::NamedTypeSignature(
                        NamedTypeSignature {
                            field_name: Some(RowFieldName { name: fields[i].0.clone() }),
                            type_signature: m,
                        },
                    ));
                    i = i + 1;
                }
                let result = TypeSignature { raw_type: RawPrestoTy::Row, arguments: args };
                proof {
                    lemma_param_views(result.arguments, result.arguments@.len() as int);
                    lemma_row_args(fsv, fsv.len() as int);
                    assert(result@.arguments =~= row_args(fsv, fsv.len() as int));
                }
                result
            },
            PrestoTy::IpAddress => TypeSignature {
                raw_type: RawPrestoTy::IpAddress,
                arguments: Vec::new(),
            },
            PrestoTy::Json => TypeSignature { raw_type: RawPrestoTy::Json, arguments: Vec::new() },
            PrestoTy::Unknown => TypeSignature {
                raw_type: RawPrestoTy::Unknown,
                arguments: Vec::new(),
            },
        }
    }

    /// Renders this type as its canonical structured signature.
    pub fn into_type_signature(self) -> (r: TypeSignature)
        ensures
            r@ == sig_of_ty(self@),
    {
        self.to_sig()
    }
}

} // verus!
