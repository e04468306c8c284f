use prusto::types::{decode_page, ty_eq, PageError, RawDataSet};
use prusto::{PrestoInt, PrestoTy, RawPrestoTy, Value};

fn varchar() -> PrestoTy {
    PrestoTy::Varchar
}

fn int32() -> PrestoTy {
    PrestoTy::PrestoInt(PrestoInt::I32)
}

fn row(fields: Vec<(&str, PrestoTy)>) -> PrestoTy {
    PrestoTy::Row(
        fields
            .into_iter()
            .map(|(n, t)| (n.to_string(), t))
            .collect(),
    )
}

fn cols(fields: Vec<(&str, PrestoTy)>) -> Vec<(String, PrestoTy)> {
    fields
        .into_iter()
        .map(|(n, t)| (n.to_string(), t))
        .collect()
}

fn text(s: &str) -> Value {
    Value::Text(s.to_string())
}

#[test]
fn test_pagination_merge_same_columns() {
    // two pages with identical column metadata concatenate rows in arrival
    // order
    let mut first = RawDataSet::new(
        cols(vec![("a", varchar()), ("b", int32())]),
        vec![vec![text("x"), Value::Int(1)]],
    );
    let second = RawDataSet::new(
        cols(vec![("a", varchar()), ("b", int32())]),
        vec![vec![text("y"), Value::Int(2)]],
    );

    assert!(first.merge(second));
    assert_eq!(first.data.len(), 2);
    match &first.data[1][0] {
        Value::Text(s) => assert_eq!(s, "y"),
        _ => panic!("second page's row must come last"),
    }
}

#[test]
fn test_pagination_merge_differing_columns() {
    // differing column metadata refuses the merge and leaves the set
    // unchanged
    let mut first = RawDataSet::new(
        cols(vec![("a", varchar())]),
        vec![vec![text("x")]],
    );
    let second = RawDataSet::new(
        cols(vec![("b", varchar())]),
        vec![vec![text("y")]],
    );

    assert!(!first.merge(second));
    assert_eq!(first.data.len(), 1);
    match &first.data[0][0] {
        Value::Text(s) => assert_eq!(s, "x"),
        _ => panic!("the first row must survive a refused merge"),
    }
}

#[test]
fn test_decode_page_rejects_mismatch() {
    // a schema mismatch decodes nothing
    let target = row(vec![("a", varchar())]);
    let provided = row(vec![("b", varchar())]);
    let rows = vec![Value::Array(vec![text("x")])];
    assert!(matches!(
        decode_page(&target, &provided, &rows),
        Err(PageError::SchemaMismatch)
    ));
}

#[test]
fn test_decode_page_whole_pages() {
    // every row of a page decodes, or the whole page fails
    let target = row(vec![("a", varchar()), ("b", int32())]);
    let provided = row(vec![("b", int32()), ("a", varchar())]);
    let rows = vec![
        Value::Array(vec![Value::Int(1), text("x")]),
        Value::Array(vec![Value::Int(2), text("y")]),
    ];
    let out = decode_page(&target, &provided, &rows).unwrap();
    assert_eq!(out.len(), 2);

    let bad_rows = vec![
        Value::Array(vec![Value::Int(1), text("x")]),
        Value::Array(vec![text("oops"), text("y")]),
    ];
    assert!(decode_page(&target, &provided, &bad_rows).is_err());
}

#[test]
fn test_column_ty_lookup() {
    let set = RawDataSet::new(cols(vec![("a", varchar()), ("b", int32())]), vec![]);
    assert!(set.is_empty());
    assert!(ty_eq(set.column_ty("b").unwrap(), &int32()));
    assert!(set.column_ty("c").is_none());
}

#[test]
fn test_split_forms_row_type() {
    let set = RawDataSet::new(cols(vec![("a", varchar())]), vec![vec![text("x")]]);
    let (ty, data) = set.split();
    assert!(ty_eq(&ty, &row(vec![("a", varchar())])));
    assert_eq!(data.len(), 1);
}

#[test]
fn test_ser() {
    let ty = RawPrestoTy::Char;
    assert_eq!(ty.to_str(), "char");

    let ty = RawPrestoTy::Json;
    assert_eq!(ty.to_str(), "json");
}

#[test]
fn test_de() {
    let data = "char";
    assert_eq!(RawPrestoTy::parse(data), Some(RawPrestoTy::Char));

    let data = "json";
    assert_eq!(RawPrestoTy::parse(data), Some(RawPrestoTy::Json));

    let invalid = "xxx";
    assert_eq!(RawPrestoTy::parse(invalid), None);
}

#[test]
fn test_full_type_rendering() {
    let ty = row(vec![("a", varchar()), ("b", PrestoTy::Decimal(38, 10))]);
    assert_eq!(ty.full_type(), "row(a varchar,b decimal(38,10))");
    assert_eq!(
        PrestoTy::Mapping(Box::new(varchar()), Box::new(int32())).full_type(),
        "map(varchar,integer)"
    );
    assert_eq!(
        PrestoTy::Optional(Box::new(varchar())).full_type(),
        "varchar"
    );
}

#[test]
fn test_signature_round_trip() {
    // rendering a row type as a structured signature and parsing it back
    // reproduces the type
    let ty = row(vec![
        ("a", varchar()),
        ("b", PrestoTy::Array(Box::new(int32()))),
    ]);
    let expected = row(vec![
        ("a", varchar()),
        ("b", PrestoTy::Array(Box::new(int32()))),
    ]);
    let sig = ty.into_type_signature();
    let back = PrestoTy::from_type_signature(sig).unwrap();
    assert!(ty_eq(&back, &expected));
}

#[test]
fn test_from_declared() {
    let ty = row(vec![("a", varchar())]);
    let set = RawDataSet::from_declared(ty, vec![vec![text("x")]]).unwrap();
    assert_eq!(set.columns.len(), 1);

    assert!(matches!(
        RawDataSet::from_declared(PrestoTy::Row(vec![]), vec![]),
        Err(prusto::Error::EmptyInPrestoRow)
    ));
    assert!(matches!(
        RawDataSet::from_declared(varchar(), vec![]),
        Err(prusto::Error::NonePrestoRow)
    ));
    assert!(matches!(
        RawDataSet::new_row(cols(vec![]), vec![]),
        Err(prusto::Error::EmptyInPrestoRow)
    ));
}

#[test]
fn test_columns_meta_rendering() {
    let set = RawDataSet::new(cols(vec![("a", PrestoTy::Decimal(38, 10))]), vec![]);
    let meta = set.columns_meta();
    assert_eq!(meta.len(), 1);
    assert_eq!(meta[0].name, "a");
    assert_eq!(meta[0].ty, "decimal(38,10)");
    assert!(meta[0].type_signature.is_some());
}

#[test]
fn test_bad_signature_is_rejected() {
    // a char signature without its width argument does not parse
    let sig = prusto::TypeSignature::new(RawPrestoTy::Char, vec![]);
    assert!(matches!(
        PrestoTy::from_type_signature(sig),
        Err(prusto::Error::InvalidTypeSignature)
    ));

    let col = prusto::Column {
        name: "a".to_string(),
        ty: "varchar".to_string(),
        type_signature: None,
    };
    assert!(matches!(
        PrestoTy::from_column(col),
        Err(prusto::Error::InvalidColumn)
    ));
}

#[test]
fn test_row_arity_mismatch_in_decode() {
    // a row token with too few or too many items fails with an arity error
    let target = row(vec![("a", varchar()), ("b", int32())]);
    let short = vec![Value::Array(vec![text("x")])];
    assert!(matches!(
        decode_page(&target, &target, &short),
        Err(PageError::Decode(prusto::DecodeError::ArityMismatch))
    ));
    let long = vec![Value::Array(vec![text("x"), Value::Int(1), Value::Int(2)])];
    assert!(matches!(
        decode_page(&target, &target, &long),
        Err(PageError::Decode(prusto::DecodeError::ArityMismatch))
    ));
}
