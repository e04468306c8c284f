use prusto::types::{decode_value, extract, ty_eq, Context, DecodeError};
use prusto::Presto;
use prusto::{PrestoInt, PrestoTy, Value};
use prusto::types::{
    bool_from_value, i32_from_value, i64_from_value, string_from_value, u8_from_value,
};
use prusto::{IntervalDayToSecond, IntervalYearToMonth};
use prusto::types::{Decimal, FixedChar, IntervalDay, IntervalMonth};

fn value_eq(a: &Value, b: &Value) -> bool {
    match (a, b) {
        (Value::Null, Value::Null) => true,
        (Value::Bool(x), Value::Bool(y)) => x == y,
        (Value::Int(x), Value::Int(y)) => x == y,
        (Value::UInt(x), Value::UInt(y)) => x == y,
        (Value::Real(x), Value::Real(y)) => x == y,
        (Value::Text(x), Value::Text(y)) => x == y,
        (Value::Array(xs), Value::Array(ys)) => {
            xs.len() == ys.len() && xs.iter().zip(ys.iter()).all(|(x, y)| value_eq(x, y))
        }
        (Value::Object(xs), Value::Object(ys)) => {
            xs.len() == ys.len()
                && xs
                    .iter()
                    .zip(ys.iter())
                    .all(|(x, y)| x.0 == y.0 && value_eq(&x.1, &y.1))
        }
        _ => false,
    }
}

fn varchar() -> PrestoTy {
    PrestoTy::Varchar
}

fn int32() -> PrestoTy {
    PrestoTy::PrestoInt(PrestoInt::I32)
}

fn row(fields: Vec<(&str, PrestoTy)>) -> PrestoTy {
    PrestoTy::Row(
        fields
            .into_iter()
            .map(|(n, t)| (n.to_string(), t))
            .collect(),
    )
}

fn text(s: &str) -> Value {
    Value::Text(s.to_string())
}

fn decode_once(target: &PrestoTy, provided: &PrestoTy, v: &Value) -> Result<Value, DecodeError> {
    let maps = extract(target, provided).expect("schemas must reconcile");
    let ctx = Context::new(target, provided, &maps);
    decode_value(target, &ctx, v)
}

#[test]
fn test_reorder_places_fields() {
    // declared { a varchar, b integer, c boolean } against the wire order
    // { b, c, a }: the wire's values must land at their declared slots
    let target = row(vec![("a", varchar()), ("b", int32()), ("c", PrestoTy::Boolean)]);
    let provided = row(vec![("b", int32()), ("c", PrestoTy::Boolean), ("a", varchar())]);
    let wire_row = Value::Array(vec![Value::Int(10), Value::Bool(true), text("abc")]);

    let out = decode_once(&target, &provided, &wire_row).unwrap();
    let expected = Value::Array(vec![text("abc"), Value::Int(10), Value::Bool(true)]);
    assert!(value_eq(&out, &expected));
}

#[test]
fn test_nested_reorder_is_independent() {
    // an outer pair and an inner pair both reorder; each permutation is
    // looked up against its own row node
    let inner_decl = row(vec![("x", int32()), ("y", int32())]);
    let inner_prov = row(vec![("y", int32()), ("x", int32())]);
    let target = row(vec![("a", inner_decl), ("b", int32())]);
    let provided = row(vec![("b", int32()), ("a", inner_prov)]);

    let wire_row = Value::Array(vec![
        Value::Int(5),
        Value::Array(vec![Value::Int(2), Value::Int(1)]),
    ]);
    let out = decode_once(&target, &provided, &wire_row).unwrap();
    let expected = Value::Array(vec![
        Value::Array(vec![Value::Int(1), Value::Int(2)]),
        Value::Int(5),
    ]);
    assert!(value_eq(&out, &expected));
}

#[test]
fn test_round_trip_identity() {
    // a decoded value, fed back through its own schema, comes out unchanged
    let target = row(vec![("a", varchar()), ("b", int32())]);
    let decoded = Value::Array(vec![text("abc"), Value::Int(7)]);
    let again = decode_once(&target, &target, &decoded).unwrap();
    assert!(value_eq(&again, &decoded));
}

#[test]
fn test_option_transparency() {
    // declared Option<Varchar> against a bare provided varchar: an absent
    // token decodes to the absent value, any other token decodes inside
    let target = PrestoTy::Optional(Box::new(varchar()));
    let provided = varchar();

    let absent = decode_once(&target, &provided, &Value::Null).unwrap();
    assert!(value_eq(&absent, &Value::Null));

    let present = decode_once(&target, &provided, &text("b")).unwrap();
    assert!(value_eq(&present, &text("b")));
}

#[test]
fn test_integer_overflow_fails() {
    // 2147483648 does not fit a declared 32-bit integer
    let target = int32();
    let provided = int32();
    let r = decode_once(&target, &provided, &Value::Int(2147483648));
    assert!(matches!(r, Err(DecodeError::IntegerOutOfRange)));

    let ok = decode_once(&target, &provided, &Value::Int(2147483647)).unwrap();
    assert!(value_eq(&ok, &Value::Int(2147483647)));
}

#[test]
fn test_unsigned_rejects_negative() {
    // -5 does not fit an unsigned 8-bit target
    assert_eq!(u8_from_value(&Value::Int(-5)), Err(DecodeError::IntegerOutOfRange));
    assert_eq!(u8_from_value(&Value::Int(255)), Ok(255));
    assert_eq!(u8_from_value(&Value::Int(256)), Err(DecodeError::IntegerOutOfRange));
}

#[test]
fn test_scalar_converters() {
    assert_eq!(i32_from_value(&Value::Int(-2)), Ok(-2));
    assert_eq!(i64_from_value(&Value::UInt(17)), Ok(17));
    assert_eq!(bool_from_value(&Value::Bool(true)), Ok(true));
    assert_eq!(string_from_value(&text("abc")), Ok("abc".to_string()));
    assert_eq!(
        bool_from_value(&Value::Int(1)),
        Err(DecodeError::UnexpectedToken)
    );
}

#[test]
fn test_interval_year_to_month() {
    let a = IntervalYearToMonth::from_str("-9-4").unwrap();
    assert_eq!(a.total_months(), -112);
    let b = IntervalYearToMonth::from_str("0-6").unwrap();
    assert_eq!(b.total_months(), 6);
    let c = IntervalYearToMonth::from_str("6-0").unwrap();
    assert_eq!(c.total_months(), 72);
    assert!(IntervalYearToMonth::from_str("6").is_err());
    assert!(IntervalYearToMonth::from_str("6-1-2").is_err());
}

#[test]
fn test_interval_day_to_second() {
    let a = IntervalDayToSecond::from_str("123 00:00:00.000").unwrap();
    assert_eq!(a.total_seconds(), 123 * 24 * 3600);
    let b = IntervalDayToSecond::from_str("-1 00:00:00.000").unwrap();
    assert_eq!(b.total_seconds(), 24 * 3600 * -1);
    let c = IntervalDayToSecond::from_str("0 13:00:00.000").unwrap();
    assert_eq!(c.total_seconds(), 13 * 3600);
    let d = IntervalDayToSecond::from_str("0 00:11:00.000").unwrap();
    assert_eq!(d.total_seconds(), 11 * 60);
    let e = IntervalDayToSecond::from_str("0 00:10:11.000").unwrap();
    assert_eq!(e.total_seconds(), 611);
    assert!(IntervalDayToSecond::from_str("1 25:00:00.000").is_err());
}

#[test]
fn test_interval_day_and_month() {
    let d = IntervalDay::from_str("-3 00:00:00.000").unwrap();
    assert_eq!(d.interval(), -3);
    let m = IntervalMonth::from_str("-2-1").unwrap();
    assert_eq!(m.interval(), -25);
}

#[test]
fn test_char() {
    let target = PrestoTy::Char(3);
    let out = decode_once(&target, &target, &text("abc")).unwrap();
    assert!(value_eq(&out, &text("abc")));
    let held = FixedChar::<3>::new("abc".to_string());
    assert_eq!(held.into_string(), "abc");
}

#[test]
fn smoke() {
    let data = "1123412341234123412341234.2222222220";
    let d = Decimal::<40, 10>::from_str(data).unwrap();
    let s = d.as_text().clone();
    assert_eq!(s, data);
}

#[test]
fn test_decimal() {
    let data = "1123412341234123412341234.2222222220";
    let d = Decimal::<38, 10>::from_str(data).unwrap();
    assert_eq!(d.as_text(), data);
    assert!(Decimal::<38, 10>::from_str("12.3.4").is_err());
    assert!(Decimal::<38, 10>::from_str("abc").is_err());
}

#[test]
fn test_date_time() {
    let date = PrestoTy::Date;
    assert!(decode_once(&date, &date, &text("2001-08-22")).is_ok());
    assert!(matches!(
        decode_once(&date, &date, &text("2001-13-22")),
        Err(DecodeError::InvalidText)
    ));
    let time = PrestoTy::Time;
    assert!(decode_once(&time, &time, &text("01:02:03.456")).is_ok());
    let ts = PrestoTy::Timestamp;
    assert!(decode_once(&ts, &ts, &text("2001-08-22 03:04:05.321")).is_ok());
    assert!(matches!(
        decode_once(&ts, &ts, &text("2001-08-22T03:04:05")),
        Err(DecodeError::InvalidText)
    ));
}

#[test]
fn test_uuid() {
    let uuid = PrestoTy::Uuid;
    let ok = decode_once(&uuid, &uuid, &text("12151fd2-7586-11e9-8f9e-2a86e4085a59"));
    assert!(ok.is_ok());
    assert!(matches!(
        decode_once(&uuid, &uuid, &text("12151fd2")),
        Err(DecodeError::InvalidText)
    ));
}

#[test]
fn test_ip_address() {
    let ip = PrestoTy::IpAddress;
    assert!(decode_once(&ip, &ip, &text("10.0.0.1")).is_ok());
    assert!(decode_once(&ip, &ip, &text("::ffff:102:304")).is_ok());
    assert!(matches!(
        decode_once(&ip, &ip, &text("not an ip")),
        Err(DecodeError::InvalidText)
    ));
}

#[test]
fn test_map() {
    // a map token: keys stay text on the wire, values decode under the
    // declared value type; an integer-keyed map requires numeric key text
    let target = PrestoTy::Mapping(Box::new(int32()), Box::new(int32()));
    let wire = Value::Object(vec![
        ("1".to_string(), Value::Int(1)),
        ("2".to_string(), Value::Int(2)),
    ]);
    assert!(decode_once(&target, &target, &wire).is_ok());

    let bad = Value::Object(vec![("x".to_string(), Value::Int(1))]);
    assert!(matches!(
        decode_once(&target, &target, &bad),
        Err(DecodeError::InvalidKey)
    ));
}

#[test]
fn test_seq() {
    let target = PrestoTy::Array(Box::new(int32()));
    let wire = Value::Array(vec![Value::Int(1), Value::Int(2), Value::Int(3)]);
    let out = decode_once(&target, &target, &wire).unwrap();
    assert!(value_eq(&out, &wire));
}

#[test]
fn test_presto_contract_round_trip() {
    let x: i32 = -7;
    let v = Presto::value(&x);
    let y = <i32 as Presto>::from_value(&v).unwrap();
    assert_eq!(y, -7);

    let s: String = "abc".to_string();
    let v = Presto::value(&s);
    let back = <String as Presto>::from_value(&v).unwrap();
    assert_eq!(back, "abc");

    let iv = IntervalYearToMonth::from_str("-9-4").unwrap();
    let v = Presto::value(&iv);
    match &v {
        Value::Text(t) => assert_eq!(t, "-9-4"),
        _ => panic!("an interval encodes as text"),
    }
    let back = <IntervalYearToMonth as Presto>::from_value(&v).unwrap();
    assert_eq!(back.total_months(), -112);

    let d = IntervalDayToSecond::from_str("-1 02:03:04.500").unwrap();
    let v = Presto::value(&d);
    match &v {
        Value::Text(t) => assert_eq!(t, "-1 02:03:04.500"),
        _ => panic!("an interval encodes as text"),
    }
    let back = <IntervalDayToSecond as Presto>::from_value(&v).unwrap();
    assert_eq!(back.total_seconds(), -(26 * 3600 + 3 * 60 + 4));
}

#[test]
fn test_presto_declared_types() {
    assert!(ty_eq(&<bool as Presto>::ty(), &PrestoTy::Boolean));
    assert!(ty_eq(&<i32 as Presto>::ty(), &int32()));
    assert!(ty_eq(&<String as Presto>::ty(), &varchar()));
    assert!(ty_eq(&<FixedChar<3> as Presto>::ty(), &PrestoTy::Char(3)));
    assert!(ty_eq(
        &<Decimal<38, 10> as Presto>::ty(),
        &PrestoTy::Decimal(38, 10)
    ));
}
