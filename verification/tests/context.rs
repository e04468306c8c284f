use prusto::types::{extract, Context};
use prusto::{PrestoInt, PrestoTy};

fn varchar() -> PrestoTy {
    PrestoTy::Varchar
}

fn int32() -> PrestoTy {
    PrestoTy::PrestoInt(PrestoInt::I32)
}

fn row(fields: Vec<(&str, PrestoTy)>) -> PrestoTy {
    PrestoTy::Row(
        fields
            .into_iter()
            .map(|(n, t)| (n.to_string(), t))
            .collect(),
    )
}

// declared shape: { a varchar, b integer, c varchar }
fn ty_a() -> PrestoTy {
    row(vec![("a", varchar()), ("b", int32()), ("c", varchar())])
}

// the same fields, provided in the order { b, c, a }
fn ty_b() -> PrestoTy {
    row(vec![("b", int32()), ("c", varchar()), ("a", varchar())])
}

// declared shape: { a <ty_a>, b integer }
fn ty_c() -> PrestoTy {
    row(vec![("a", ty_a()), ("b", int32())])
}

// the same fields, provided as { b, a <ty_b> }: both pairs reorder
fn ty_d() -> PrestoTy {
    row(vec![("b", int32()), ("a", ty_b())])
}

#[test]
fn test_simple() {
    let target = ty_a();
    let provided = ty_b();
    let maps = extract(&target, &provided).unwrap();
    let ctx = Context::new(&target, &provided, &maps);
    let ret = ctx.row_map().unwrap();

    assert_eq!(ret.as_slice(), &[1, 2, 0]);
}

#[test]
fn test_nested() {
    let target = ty_c();
    let provided = ty_d();
    let maps = extract(&target, &provided).unwrap();
    let ctx = Context::new(&target, &provided, &maps);

    let ret = ctx.row_map().unwrap();
    assert_eq!(ret.as_slice(), &[1, 0]);

    let inner = ctx.with_ty(1).unwrap();
    let ret = inner.row_map().unwrap();
    assert_eq!(ret.as_slice(), &[1, 2, 0]);
}

#[test]
fn test_false() {
    let target = ty_b();
    let provided = ty_c();
    let res = extract(&target, &provided);

    assert!(res.is_err());
}

#[test]
fn test_name_mismatch_fails() {
    // declared { a, b } against provided { a, c }
    let target = row(vec![("a", varchar()), ("b", varchar())]);
    let provided = row(vec![("a", varchar()), ("c", varchar())]);
    assert!(extract(&target, &provided).is_err());
}

#[test]
fn test_arity_mismatch_fails() {
    // declared two fields against provided three
    let target = row(vec![("a", varchar()), ("b", varchar())]);
    let provided = row(vec![("a", varchar()), ("b", varchar()), ("c", varchar())]);
    assert!(extract(&target, &provided).is_err());
}

#[test]
fn test_unknown_accepts_anything() {
    let target = PrestoTy::Unknown;
    let provided = ty_c();
    assert!(extract(&target, &provided).is_ok());
}

#[test]
fn test_option_declared_matches_bare() {
    let target = PrestoTy::Optional(Box::new(varchar()));
    let provided = varchar();
    assert!(extract(&target, &provided).is_ok());
}
