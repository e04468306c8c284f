use vstd::prelude::*;
use crate::types::str_eq;

verus! {

/// The raw (unparameterised) name of a wire column type, as the service
/// spells it in type signatures.
#[derive(Clone, Copy, Debug, Eq, PartialEq, Structural)]
pub enum RawPrestoTy {
    BigInt,
    Integer,
    SmallInt,
    TinyInt,
    Boolean,
    Date,
    Decimal,
    Real,
    Double,
    HyperLogLog,
    QDigest,
    P4HyperLogLog,
    IntervalDayToSecond,
    IntervalYearToMonth,
    Timestamp,
    TimestampWithTimeZone,
    Time,
    TimeWithTimeZone,
    VarBinary,
    VarChar,
    Char,
    Row,
    Array,
    Mapping,
    Json,
    IpAddress,
    Uuid,
    Unknown,
}

/// The textual name of each raw type on the wire.
pub open spec fn raw_name(t: RawPrestoTy) -> Seq<char> {
    match t {
        RawPrestoTy::BigInt => "bigint"@,
        RawPrestoTy::Integer => "integer"@,
        RawPrestoTy::SmallInt => "smallint"@,
        RawPrestoTy::TinyInt => "tinyint"@,
        RawPrestoTy::Boolean => "boolean"@,
        RawPrestoTy::Date => "date"@,
        RawPrestoTy::Decimal => "decimal"@,
        RawPrestoTy::Real => "real"@,
        RawPrestoTy::Double => "double"@,
        RawPrestoTy::HyperLogLog => "HyperLogLog"@,
        RawPrestoTy::QDigest => "qdigest"@,
        RawPrestoTy::P4HyperLogLog => "P4HyperLogLog"@,
        RawPrestoTy::IntervalDayToSecond => "interval day to second"@,
        RawPrestoTy::IntervalYearToMonth => "interval year to month"@,
        RawPrestoTy::Timestamp => "timestamp"@,
        RawPrestoTy::TimestampWithTimeZone => "timestamp with time zone"@,
        RawPrestoTy::Time => "time"@,
        RawPrestoTy::TimeWithTimeZone => "time with time zone"@,
        RawPrestoTy::VarBinary => "varbinary"@,
        RawPrestoTy::VarChar => "varchar"@,
        RawPrestoTy::Char => "char"@,
        RawPrestoTy::Row => "row"@,
        RawPrestoTy::Array => "array"@,
        RawPrestoTy::Mapping => "map"@,
        RawPrestoTy::Json => "json"@,
        RawPrestoTy::IpAddress => "ipaddress"@,
        RawPrestoTy::Uuid => "uuid"@,
        RawPrestoTy::Unknown => "unknown"@,
    }
}

/// Which raw type, if any, the text `s` names.
pub open spec fn spec_parse_raw(s: Seq<char>) -> Option<RawPrestoTy> {
    if s == raw_name(RawPrestoTy::BigInt) { Some(RawPrestoTy::BigInt) }
    else if s == raw_name(RawPrestoTy::Integer) { Some(RawPrestoTy::Integer) }
    else if s == raw_name(RawPrestoTy::SmallInt) { Some(RawPrestoTy::SmallInt) }
    else if s == raw_name(RawPrestoTy::TinyInt) { Some(RawPrestoTy::TinyInt) }
    else if s == raw_name(RawPrestoTy::Boolean) { Some(RawPrestoTy::Boolean) }
    else if s == raw_name(RawPrestoTy::Date) { Some(RawPrestoTy::Date) }
    else if s == raw_name(RawPrestoTy::Decimal) { Some(RawPrestoTy::Decimal) }
    else if s == raw_name(RawPrestoTy::Real) { Some(RawPrestoTy::Real) }
    else if s == raw_name(RawPrestoTy::Double) { Some(RawPrestoTy::Double) }
    else if s == raw_name(RawPrestoTy::HyperLogLog) { Some(RawPrestoTy::HyperLogLog) }
    else if s == raw_name(RawPrestoTy::QDigest) { Some(RawPrestoTy::QDigest) }
    else if s == raw_name(RawPrestoTy::P4HyperLogLog) { Some(RawPrestoTy::P4HyperLogLog) }
    else if s == raw_name(RawPrestoTy::IntervalDayToSecond) { Some(RawPrestoTy::IntervalDayToSecond) }
    else if s == raw_name(RawPrestoTy::IntervalYearToMonth) { Some(RawPrestoTy::IntervalYearToMonth) }
    else if s == raw_name(RawPrestoTy::Timestamp) { Some(RawPrestoTy::Timestamp) }
    else if s == raw_name(RawPrestoTy::TimestampWithTimeZone) { Some(RawPrestoTy::TimestampWithTimeZone) }
    else if s == raw_name(RawPrestoTy::Time) { Some(RawPrestoTy::Time) }
    else if s == raw_name(RawPrestoTy::TimeWithTimeZone) { Some(RawPrestoTy::TimeWithTimeZone) }
    else if s == raw_name(RawPrestoTy::VarBinary) { Some(RawPrestoTy::VarBinary) }
    else if s == raw_name(RawPrestoTy::VarChar) { Some(RawPrestoTy::VarChar) }
    else if s == raw_name(RawPrestoTy::Char) { Some(RawPrestoTy::Char) }
    else if s == raw_name(RawPrestoTy::Row) { Some(RawPrestoTy::Row) }
    else if s == raw_name(RawPrestoTy::Array) { Some(RawPrestoTy::Array) }
    else if s == raw_name(RawPrestoTy::Mapping) { Some(RawPrestoTy::Mapping) }
    else if s == raw_name(RawPrestoTy::Json) { Some(RawPrestoTy::Json) }
    else if s == raw_name(RawPrestoTy::IpAddress) { Some(RawPrestoTy::IpAddress) }
    else if s == raw_name(RawPrestoTy::Uuid) { Some(RawPrestoTy::Uuid) }
    else if s == raw_name(RawPrestoTy::Unknown) { Some(RawPrestoTy::Unknown) }
    else { None }
}

impl RawPrestoTy {
    /// The wire spelling of this raw type.
    pub fn to_str(&self) -> (r: &'static str)
        ensures
            r@ == raw_name(*self),
    {
        match *self {
            RawPrestoTy::BigInt => "bigint",
            RawPrestoTy::Integer => "integer",
            RawPrestoTy::SmallInt => "smallint",
            RawPrestoTy::TinyInt => "tinyint",
            RawPrestoTy::Boolean => "boolean",
            RawPrestoTy::Date => "date",
            RawPrestoTy::Decimal => "decimal",
            RawPrestoTy::Real => "real",
            RawPrestoTy::Double => "double",
            RawPrestoTy::HyperLogLog => "HyperLogLog",
            RawPrestoTy::QDigest => "qdigest",
            RawPrestoTy::P4HyperLogLog => "P4HyperLogLog",
            RawPrestoTy::IntervalDayToSecond => "interval day to second",
            RawPrestoTy::IntervalYearToMonth => "interval year to month",
            RawPrestoTy::Timestamp => "timestamp",
            RawPrestoTy::TimestampWithTimeZone => "timestamp with time zone",
            RawPrestoTy::Time => "time",
            RawPrestoTy::TimeWithTimeZone => "time with time zone",
            RawPrestoTy::VarBinary => "varbinary",
            RawPrestoTy::VarChar => "varchar",
            RawPrestoTy::Char => "char",
            RawPrestoTy::Row => "row",
            RawPrestoTy::Array => "array",
            RawPrestoTy::Mapping => "map",
            RawPrestoTy::Json => "json",
            RawPrestoTy::IpAddress => "ipaddress",
            RawPrestoTy::Uuid => "uuid",
            RawPrestoTy::Unknown => "unknown",
        }
    }

    /// Parses the wire spelling of a raw type; `None` for any other text.
    pub fn parse(s: &str) -> (r: Option<Self>)
        ensures
            r == spec_parse_raw(s@),
    {
        if str_eq(s, "bigint") { Some(RawPrestoTy::BigInt) }
        else if str_eq(s, "integer") { Some(RawPrestoTy::Integer) }
        else if str_eq(s, "smallint") { Some(RawPrestoTy::SmallInt) }
        else if str_eq(s, "tinyint") { Some(RawPrestoTy::TinyInt) }
        else if str_eq(s, "boolean") { Some(RawPrestoTy::Boolean) }
        else if str_eq(s, "date") { Some(RawPrestoTy::Date) }
        else if str_eq(s, "decimal") { Some(RawPrestoTy::Decimal) }
        else if str_eq(s, "real") { Some(RawPrestoTy::Real) }
        else if str_eq(s, "double") { Some(RawPrestoTy::Double) }
        else if str_eq(s, "HyperLogLog") { Some(RawPrestoTy::HyperLogLog) }
        else if str_eq(s, "qdigest") { Some(RawPrestoTy::QDigest) }
        else if str_eq(s, "P4HyperLogLog") { Some(RawPrestoTy::P4HyperLogLog) }
        else if str_eq(s, "interval day to second") { Some(RawPrestoTy::IntervalDayToSecond) }
        else if str_eq(s, "interval year to month") { Some(RawPrestoTy::IntervalYearToMonth) }
        else if str_eq(s, "timestamp") { Some(RawPrestoTy::Timestamp) }
        else if str_eq(s, "timestamp with time zone") { Some(RawPrestoTy::TimestampWithTimeZone) }
        else if str_eq(s, "time") { Some(RawPrestoTy::Time) }
        else if str_eq(s, "time with time zone") { Some(RawPrestoTy::TimeWithTimeZone) }
        else if str_eq(s, "varbinary") { Some(RawPrestoTy::VarBinary) }
        else if str_eq(s, "varchar") { Some(RawPrestoTy::VarChar) }
        else if str_eq(s, "char") { Some(RawPrestoTy::Char) }
        else if str_eq(s, "row") { Some(RawPrestoTy::Row) }
        else if str_eq(s, "array") { Some(RawPrestoTy::Array) }
        else if str_eq(s, "map") { Some(RawPrestoTy::Mapping) }
        else if str_eq(s, "json") { Some(RawPrestoTy::Json) }
        else if str_eq(s, "ipaddress") { Some(RawPrestoTy::IpAddress) }
        else if str_eq(s, "uuid") { Some(RawPrestoTy::Uuid) }
        else if str_eq(s, "unknown") { Some(RawPrestoTy::Unknown) }
        else { None }
    }
}

} // verus!
