use vstd::prelude::*;
use super::super::types::{PrestoTy, TyV, PrestoInt, Value, ValueV, Context,
    row_views, tuple_views, lemma_row_views, lemma_tuple_views,
    lemma_array_views, lemma_object_views, array_views, object_views,
    find_name, lemma_find_name_from, row_names_unique, row_perm, str_eq,
    is_date_text, is_clock_text, is_timestamp_text, is_year_month_text, is_day_second_text,
    is_decimal_text, is_ip_text, is_uuid_text, digits_in, digits_val,
    check_date, check_clock, check_timestamp, check_uuid, check_ip, check_decimal,
    parse_year_month, parse_day_second, scan_u64};

verus! {

/// Why one value failed to decode.
#[derive(Debug, PartialEq, Eq)]
pub enum DecodeError {
    /// The token's kind does not fit the declared type.
    UnexpectedToken,
    /// An integer token lies outside the declared width.
    IntegerOutOfRange,
    /// A text token does not parse in its declared format.
    InvalidText,
    /// A row token's arity differs from the provided schema's arity.
    ArityMismatch,
    /// A map key does not parse in the declared key type.
    InvalidKey,
}

/// Whether the integer `i` fits the wire integer width `w`.
pub open spec fn in_range(w: PrestoInt, i: int) -> bool {
    match w {
        PrestoInt::I8 => -128 <= i <= 127,
        PrestoInt::I16 => -32768 <= i <= 32767,
        PrestoInt::I32 => -2147483648 <= i <= 2147483647,
        PrestoInt::I64 => i64::MIN <= i <= i64::MAX,
    }
}

/// The largest magnitude a negative integer of width `w` may have.
pub open spec fn neg_mag(w: PrestoInt) -> int {
    match w {
        PrestoInt::I8 => 128,
        PrestoInt::I16 => 32768,
        PrestoInt::I32 => 2147483648,
        PrestoInt::I64 => 0x8000000000000000,
    }
}

/// Whether the text `key` may key a map of declared key type `dk`.
pub open spec fn key_ok(dk: TyV, key: Seq<char>) -> bool {
    match dk {
        TyV::Varchar => true,
        TyV::Char(_) => true,
        TyV::Boolean => key == "true"@ || key == "false"@,
        TyV::PrestoInt(w) => {
            let neg = key.len() > 0 && key[0] == '-';
            let st: int = if neg { 1 } else { 0 };
            &&& st < key.len()
            &&& digits_in(key, st, key.len() as int)
            &&& if neg {
                digits_val(key, st, key.len() as int) <= neg_mag(w)
            } else {
                in_range(w, digits_val(key, st, key.len() as int))
            }
        },
        _ => false,
    }
}

/// Decodes the first `n` members of a tuple token positionally.
pub open spec fn decode_tuple(dt: Seq<TyV>, pt: Seq<TyV>, items: Seq<ValueV>, n: int)
    -> Option<Seq<ValueV>>
    decreases dt, n,
{
    if n <= 0 || n > dt.len() || n > pt.len() || n > items.len() {
        Some(Seq::empty())
    } else {
        proof {
            vstd::seq::axiom_seq_index_decreases(dt, n - 1);
        }
        match decode_tuple(dt, pt, items, n - 1) {
            None => None,
            Some(pre) => match spec_decode(dt[n - 1], pt[n - 1], items[n - 1]) {
                Some(x) => Some(pre.push(x)),
                None => None,
            },
        }
    }
}

/// Decodes the first `n` declared fields of a row token: declared field `j`
/// takes the provided column named like it, wherever that column sits.
pub open spec fn decode_row(
    df: Seq<(Seq<char>, TyV)>,
    pf: Seq<(Seq<char>, TyV)>,
    items: Seq<ValueV>,
    n: int,
) -> Option<Seq<ValueV>>
    decreases df, n,
{
    if n <= 0 || n > df.len() {
        Some(Seq::empty())
    } else {
        match decode_row(df, pf, items, n - 1) {
            None => None,
            Some(pre) => {
                let i = find_name(pf, df[n - 1].0);
                if 0 <= i < pf.len() && i < items.len() {
                    proof {
                        vstd::seq::axiom_seq_index_decreases(df, n - 1);
                    }
                    match spec_decode(df[n - 1].1, pf[i].1, items[i]) {
                        Some(x) => Some(pre.push(x)),
                        None => None,
                    }
                } else {
                    None
                }
            },
        }
    }
}

/// Decodes the first `n` elements of an array token.
pub open spec fn decode_elems(d: TyV, p: TyV, items: Seq<ValueV>, n: int)
    -> Option<Seq<ValueV>>
    decreases d, n,
{
    if n <= 0 || n > items.len() {
        Some(Seq::empty())
    } else {
        match decode_elems(d, p, items, n - 1) {
            None => None,
            Some(pre) => match spec_decode(d, p, items[n - 1]) {
                Some(x) => Some(pre.push(x)),
                None => None,
            },
        }
    }
}

/// Decodes the first `n` entries of a map token: keys must fit the declared
/// key type, values decode under the declared value type.
pub open spec fn decode_entries(
    dk: TyV,
    dv: TyV,
    pv: TyV,
    entries: Seq<(Seq<char>, ValueV)>,
    n: int,
) -> Option<Seq<(Seq<char>, ValueV)>>
    decreases dv, n,
{
    if n <= 0 || n > entries.len() {
        Some(Seq::empty())
    } else {
        match decode_entries(dk, dv, pv, entries, n - 1) {
            None => None,
            Some(pre) => if key_ok(dk, entries[n - 1].0) {
                match spec_decode(dv, pv, entries[n - 1].1) {
                    Some(x) => Some(pre.push((entries[n - 1].0, x))),
                    None => None,
                }
            } else {
                None
            },
        }
    }
}

/// What decoding one token of declared type `d`, provided type `p`, yields:
/// the normalized value, with row fields moved to their declared positions,
/// or nothing when the token does not fit.
pub open spec fn spec_decode(d: TyV, p: TyV, v: ValueV) -> Option<ValueV>
    decreases d, 0int,
{
    match d {
        TyV::Unknown => Some(v),
        TyV::Json => Some(v),
        TyV::Optional(d2) => if v == ValueV::Null {
            Some(ValueV::Null)
        } else {
            spec_decode(*d2, p, v)
        },
        TyV::Boolean => match v {
            ValueV::Bool(_) => Some(v),
            _ => None,
        },
        TyV::PrestoInt(w) => match v {
            ValueV::Int(i) => if in_range(w, i) {
                Some(v)
            } else {
                None
            },
            _ => None,
        },
        TyV::PrestoFloat(_) => match v {
            ValueV::Real(_) => Some(v),
            ValueV::Int(_) => Some(v),
            _ => None,
        },
        TyV::Varchar => match v {
            ValueV::Text(_) => Some(v),
            _ => None,
        },
        TyV::Char(_) => match v {
            ValueV::Text(_) => Some(v),
            _ => None,
        },
        TyV::Date => match v {
            ValueV::Text(s) => if is_date_text(s) {
                Some(v)
            } else {
                None
            },
            _ => None,
        },
        TyV::Time => match v {
            ValueV::Text(s) => if is_clock_text(s) {
                Some(v)
            } else {
                None
            },
            _ => None,
        },
        TyV::Timestamp => match v {
            ValueV::Text(s) => if is_timestamp_text(s) {
                Some(v)
            } else {
                None
            },
            _ => None,
        },
        TyV::IntervalYearToMonth => match v {
            ValueV::Text(s) => if is_year_month_text(s) {
                Some(v)
            } else {
                None
            },
            _ => None,
        },
        TyV::IntervalDayToSecond => match v {
            ValueV::Text(s) => if is_day_second_text(s) {
                Some(v)
            } else {
                None
            },
            _ => None,
        },
        TyV::Decimal(_, _) => match v {
            ValueV::Text(s) => if is_decimal_text(s) {
                Some(v)
            } else {
                None
            },
            _ => None,
        },
        TyV::IpAddress => match v {
            ValueV::Text(s) => if is_ip_text(s) {
                Some(v)
            } else {
                None
            },
            _ => None,
        },
        TyV::Uuid => match v {
            ValueV::Text(s) => if is_uuid_text(s) {
                Some(v)
            } else {
                None
            },
            _ => None,
        },
        TyV::Array(d2) => match (p, v) {
            (TyV::Array(p2), ValueV::Array(items)) => {
                match decode_elems(*d2, *p2, items, items.len() as int) {
                    Some(out) => Some(ValueV::Array(out)),
                    None => None,
                }
            },
            _ => None,
        },
        TyV::Tuple(dt) => match (p, v) {
            (TyV::Tuple(pt), ValueV::Array(items)) => {
                if dt.len() == pt.len() && items.len() == dt.len() {
                    match decode_tuple(dt, pt, items, dt.len() as int) {
                        Some(out) => Some(ValueV::Array(out)),
                        None => None,
                    }
                } else {
                    None
                }
            },
            _ => None,
        },
        TyV::Row(df) => match (p, v) {
            (TyV::Row(pf), ValueV::Array(items)) => {
                if df.len() == pf.len() && items.len() == pf.len() {
                    match decode_row(df, pf, items, df.len() as int) {
                        Some(out) => Some(ValueV::Array(out)),
                        None => None,
                    }
                } else {
                    None
                }
            },
            _ => None,
        },
        TyV::Mapping(dk, dv) => match (p, v) {
            (TyV::Mapping(_, pv2), ValueV::Object(entries)) => {
                match decode_entries(*dk, *dv, *pv2, entries, entries.len() as int) {
                    Some(out) => Some(ValueV::Object(out)),
                    None => None,
                }
            },
            _ => None,
        },
    }
}

/// Entry-wise reading of `decode_tuple`.
pub proof fn lemma_decode_tuple(dt: Seq<TyV>, pt: Seq<TyV>, items: Seq<ValueV>, n: int)
    requires
        0 <= n <= dt.len(),
        n <= pt.len(),
        n <= items.len(),
    ensures
        decode_tuple(dt, pt, items, n) is Some <==> (forall|i: int| 0 <= i < n
            ==> spec_decode(#[trigger] dt[i], pt[i], items[i]) is Some),
        decode_tuple(dt, pt, items, n) matches Some(out) ==> out.len() == n
            && (forall|i: int| 0 <= i < n
                ==> Some(#[trigger] out[i]) == spec_decode(dt[i], pt[i], items[i])),
    decreases n,
{
    if n > 0 {
        lemma_decode_tuple(dt, pt, items, n - 1);
    }
}

/// Entry-wise reading of `decode_row`.
pub proof fn lemma_decode_row(
    df: Seq<(Seq<char>, TyV)>,
    pf: Seq<(Seq<char>, TyV)>,
    items: Seq<ValueV>,
    n: int,
)
    requires
        0 <= n <= df.len(),
    ensures
        decode_row(df, pf, items, n) is Some <==> (forall|j: int| 0 <= j < n
            ==> find_name(pf, #[trigger] df[j].0) < pf.len()
                && find_name(pf, df[j].0) < items.len()
                && spec_decode(df[j].1, pf[find_name(pf, df[j].0)].1,
                    items[find_name(pf, df[j].0)]) is Some),
        decode_row(df, pf, items, n) matches Some(out) ==> out.len() == n
            && (forall|j: int| 0 <= j < n
                ==> Some(#[trigger] out[j]) == spec_decode(df[j].1,
                    pf[find_name(pf, df[j].0)].1, items[find_name(pf, df[j].0)])),
    decreases n,
{
    if n > 0 {
        lemma_decode_row(df, pf, items, n - 1);
        lemma_find_name_from(pf, df[n - 1].0, 0);
    }
}

/// Entry-wise reading of `decode_elems`.
pub proof fn lemma_decode_elems(d: TyV, p: TyV, items: Seq<ValueV>, n: int)
    requires
        0 <= n <= items.len(),
    ensures
        decode_elems(d, p, items, n) is Some <==> (forall|i: int| 0 <= i < n
            ==> spec_decode(d, p, #[trigger] items[i]) is Some),
        decode_elems(d, p, items, n) matches Some(out) ==> out.len() == n
            && (forall|i: int| 0 <= i < n
                ==> Some(#[trigger] out[i]) == spec_decode(d, p, items[i])),
    decreases n,
{
    if n > 0 {
        lemma_decode_elems(d, p, items, n - 1);
    }
}

/// Entry-wise reading of `decode_entries`.
pub proof fn lemma_decode_entries(
    dk: TyV,
    dv: TyV,
    pv: TyV,
    entries: Seq<(Seq<char>, ValueV)>,
    n: int,
)
    requires
        0 <= n <= entries.len(),
    ensures
        decode_entries(dk, dv, pv, entries, n) is Some <==> (forall|i: int| 0 <= i < n
            ==> key_ok(dk, #[trigger] entries[i].0)
                && spec_decode(dv, pv, entries[i].1) is Some),
        decode_entries(dk, dv, pv, entries, n) matches Some(out) ==> out.len() == n
            && (forall|i: int| 0 <= i < n ==> (#[trigger] out[i]).0 == entries[i].0
                && Some(out[i].1) == spec_decode(dv, pv, entries[i].1)),
    decreases n,
{
    if n > 0 {
        lemma_decode_entries(dk, dv, pv, entries, n - 1);
    }
}


/// One bad entry fails the whole map token.
pub proof fn lemma_decode_entries_fail(
    dk: TyV,
    dv: TyV,
    pv: TyV,
    entries: Seq<(Seq<char>, ValueV)>,
    n: int,
    i: int,
)
    requires
        0 <= i < n <= entries.len(),
        !(key_ok(dk, entries[i].0) && spec_decode(dv, pv, entries[i].1) is Some),
    ensures
        decode_entries(dk, dv, pv, entries, n) is None,
    decreases n,
{
    if n - 1 > i {
        lemma_decode_entries_fail(dk, dv, pv, entries, n - 1, i);
    }
}

/// Whether `key` may key a map with declared key type `dk`, decided
/// executably.
pub fn check_key(dk: &PrestoTy, key: &str) -> (r: bool)
    ensures
        r == key_ok(dk@, key@),
{
    match dk {
        PrestoTy::Varchar => true,
        PrestoTy::Char(_) => true,
        PrestoTy::Boolean => str_eq(key, "true") || str_eq(key, "false"),
        PrestoTy::PrestoInt(w) => {
            let n = key.unicode_len();
            let start: usize = if n > 0 && key.get_char(0) == '-' {
                1
            } else {
                0
            };
            if start >= n {
                return false;
            }
            match scan_u64(key, start, n) {
                Some(val) => {
                    if start == 1 {
                        match w {
                            PrestoInt::I8 => val <= 128,
                            PrestoInt::I16 => val <= 32768,
                            PrestoInt::I32 => val <= 2147483648,
                            PrestoInt::I64 => val <= 0x8000000000000000,
                        }
                    } else {
                        match w {
                            PrestoInt::I8 => val <= 127,
                            PrestoInt::I16 => val <= 32767,
                            PrestoInt::I32 => val <= 2147483647,
                            PrestoInt::I64 => val <= i64::MAX as u64,
                        }
                    }
                },
                None => false,
            }
        },
        _ => false,
    }
}

/// Decodes the elements of an array token.
#[verifier::loop_isolation(false)]
#[verifier::rlimit(60)]
#[verifier::spinoff_prover]
fn decode_array_value(d2: &PrestoTy, cctx: &Context, items: &Vec<Value>)
    -> (r: Result<Value, DecodeError>)
    requires
        cctx.wf(),
        cctx.spec_decl() == d2@,
    ensures
        r is Ok <==> decode_elems(d2@, cctx.spec_ty(), array_views(*items, items@.len() as int),
            items@.len() as int) is Some,
        r matches Ok(out) ==> (out@ matches ValueV::Array(outv)
            && Some(outv) == decode_elems(d2@, cctx.spec_ty(),
                array_views(*items, items@.len() as int), items@.len() as int)),
    decreases d2, 1int,
{
    let ghost d2v = d2@;
    let ghost p2v = cctx.spec_ty();
    let ghost itemsv = array_views(*items, items@.len() as int);
    proof {
        lemma_array_views(*items, items@.len() as int);
        lemma_decode_elems(d2v, p2v, itemsv, itemsv.len() as int);
    }
    let n = items.len();
    let mut out: Vec<Value> = Vec::new();
    let mut i: usize = 0;
    while i < n
        invariant
            i <= n,
            out@.len() == i,
            forall|j: int| 0 <= j < i
                ==> Some((#[trigger] out@[j])@) == spec_decode(d2v, p2v, itemsv[j]),
        decreases n - i,
    {
        proof {
            vstd::std_specs::vec::axiom_vec_index_decreases(*items, i as int);
        }
        match decode_value(d2, cctx, &items[i]) {
            Ok(x) => {
                out.push(x);
            },
            Err(e) => {
                proof {
                    assert(spec_decode(d2v, p2v, itemsv[i as int]) is None);
                    assert(decode_elems(d2v, p2v, itemsv, itemsv.len() as int) is None);
                }
                return Err(e);
            },
        }
        i = i + 1;
    }
    let result = Value::Array(out);
    proof {
        assert forall|j: int| 0 <= j < n implies
            spec_decode(d2v, p2v, #[trigger] itemsv[j]) is Some by {
            assert(Some((out@[j])@) == spec_decode(d2v, p2v, itemsv[j]));
        }
        assert(decode_elems(d2v, p2v, itemsv, itemsv.len() as int) is Some);
        lemma_array_views(result->Array_0, result->Array_0@.len() as int);
        match decode_elems(d2v, p2v, itemsv, itemsv.len() as int) {
            Some(outv) => {
                assert forall|j: int| 0 <= j < n implies
                    array_views(result->Array_0, n as int)[j] == outv[j] by {
                    assert(Some(outv[j]) == spec_decode(d2v, p2v, itemsv[j]));
                    assert(Some((out@[j])@) == spec_decode(d2v, p2v, itemsv[j]));
                    assert(array_views(result->Array_0, n as int)[j] == (out@[j])@);
                }
                assert(array_views(result->Array_0, result->Array_0@.len() as int) =~= outv);
            },
            None => {},
        }
    }
    Ok(result)
}

/// Decodes the members of a tuple token, positionally.
#[verifier::loop_isolation(false)]
#[verifier::rlimit(60)]
#[verifier::spinoff_prover]
fn decode_tuple_value(dt: &Vec<PrestoTy>, ctx: &Context, items: &Vec<Value>)
    -> (r: Result<Value, DecodeError>)
    requires
        ctx.wf(),
        ctx.spec_decl() == TyV::Tuple(tuple_views(*dt, dt@.len() as int)),
        ctx.spec_ty() is Tuple,
        items@.len() == dt@.len(),
    ensures
        r is Ok <==> decode_tuple(tuple_views(*dt, dt@.len() as int), ctx.spec_ty()->Tuple_0,
            array_views(*items, items@.len() as int), dt@.len() as int) is Some,
        r matches Ok(out) ==> (out@ matches ValueV::Array(outv)
            && Some(outv) == decode_tuple(tuple_views(*dt, dt@.len() as int),
                ctx.spec_ty()->Tuple_0, array_views(*items, items@.len() as int),
                dt@.len() as int)),
    decreases dt, 1int,
{
    let ghost dtv = tuple_views(*dt, dt@.len() as int);
    let ghost ptv = ctx.spec_ty()->Tuple_0;
    let ghost itemsv = array_views(*items, items@.len() as int);
    proof {
        lemma_tuple_views(*dt, dt@.len() as int);
        lemma_array_views(*items, items@.len() as int);
        lemma_decode_tuple(dtv, ptv, itemsv, dtv.len() as int);
    }
    let n = dt.len();
    let mut out: Vec<Value> = Vec::new();
    let mut i: usize = 0;
    while i < n
        invariant
            i <= n,
            out@.len() == i,
            forall|j: int| 0 <= j < i ==> Some((#[trigger] out@[j])@)
                == spec_decode(dtv[j], ptv[j], itemsv[j]),
        decreases n - i,
    {
        proof {
            vstd::std_specs::vec::axiom_vec_index_decreases(*dt, i as int);
        }
        let cctx = match ctx.with_ty(i) {
            Some(c) => c,
            None => {
                proof {
                    assert(false);
                }
                return Err(DecodeError::UnexpectedToken);
            },
        };
        match decode_value(&dt[i], &cctx, &items[i]) {
            Ok(x) => {
                out.push(x);
            },
            Err(e) => {
                proof {
                    assert(spec_decode(dtv[i as int], ptv[i as int], itemsv[i as int]) is None);
                    assert(decode_tuple(dtv, ptv, itemsv, dtv.len() as int) is None);
                }
                return Err(e);
            },
        }
        i = i + 1;
    }
    let result = Value::Array(out);
    proof {
        assert forall|j: int| 0 <= j < n implies
            spec_decode(#[trigger] dtv[j], ptv[j], itemsv[j]) is Some by {
            assert(Some((out@[j])@) == spec_decode(dtv[j], ptv[j], itemsv[j]));
        }
        assert(decode_tuple(dtv, ptv, itemsv, dtv.len() as int) is Some);
        lemma_array_views(result->Array_0, result->Array_0@.len() as int);
        match decode_tuple(dtv, ptv, itemsv, dtv.len() as int) {
            Some(outv) => {
                assert forall|j: int| 0 <= j < n implies
                    array_views(result->Array_0, n as int)[j] == outv[j] by {
                    assert(Some(outv[j]) == spec_decode(dtv[j], ptv[j], itemsv[j]));
                    assert(Some((out@[j])@) == spec_decode(dtv[j], ptv[j], itemsv[j]));
                    assert(array_views(result->Array_0, n as int)[j] == (out@[j])@);
                }
                assert(array_views(result->Array_0, result->Array_0@.len() as int) =~= outv);
            },
            None => {},
        }
    }
    Ok(result)
}

/// Decodes the fields of a row token: each wire column lands in the declared
/// slot the permutation table names, starting from a placeholder row.
#[verifier::loop_isolation(false)]
#[verifier::rlimit(100)]
#[verifier::spinoff_prover]
fn decode_row_value(dfs: &Vec<(String, PrestoTy)>, ctx: &Context, items: &Vec<Value>,
    perm: &Vec<usize>) -> (r: Result<Value, DecodeError>)
    requires
        ctx.wf(),
        ctx.spec_decl() == TyV::Row(row_views(*dfs, dfs@.len() as int)),
        ctx.spec_ty() is Row,
        ctx.spec_maps().row_map == Some(perm@),
        items@.len() == dfs@.len(),
    ensures
        r is Ok <==> decode_row(row_views(*dfs, dfs@.len() as int), ctx.spec_ty()->Row_0,
            array_views(*items, items@.len() as int), dfs@.len() as int) is Some,
        r matches Ok(out) ==> (out@ matches ValueV::Array(outv)
            && Some(outv) == decode_row(row_views(*dfs, dfs@.len() as int),
                ctx.spec_ty()->Row_0, array_views(*items, items@.len() as int),
                dfs@.len() as int)),
    decreases dfs, 1int,
{
    let ghost dfv = row_views(*dfs, dfs@.len() as int);
    let ghost pfv = ctx.spec_ty()->Row_0;
    let ghost itemsv = array_views(*items, items@.len() as int);
    proof {
        lemma_row_views(*dfs, dfs@.len() as int);
        lemma_array_views(*items, items@.len() as int);
        lemma_decode_row(dfv, pfv, itemsv, dfv.len() as int);
        assert(perm@ =~= row_perm(dfv, pfv));
    }
    let n = dfs.len();
    // a placeholder row, filled out of declared order as the wire columns
    // arrive
    let mut out: Vec<Value> = Vec::new();
    let mut k: usize = 0;
    while k < n
        invariant
            k <= n,
            out@.len() == k,
            forall|j: int| 0 <= j < k ==> (#[trigger] out@[j])@ == ValueV::Null,
        decreases n - k,
    {
        out.push(Value::Null);
        k = k + 1;
    }
    let mut i: usize = 0;
    while i < n
        invariant
            i <= n,
            out@.len() == n,
            perm@.len() == n,
            forall|j: int| 0 <= j < n ==> ({
                let i2 = find_name(pfv, #[trigger] dfv[j].0);
                if 0 <= i2 < i {
                    Some((out@[j])@) == spec_decode(dfv[j].1, pfv[i2].1, itemsv[i2])
                } else {
                    (out@[j])@ == ValueV::Null
                }
            }),
        decreases n - i,
    {
        let j = perm[i];
        proof {
            assert(perm@[i as int] == find_name(dfv, pfv[i as int].0) as usize);
            lemma_find_name_from(dfv, pfv[i as int].0, 0);
            lemma_find_name_from(pfv, dfv[j as int].0, 0);
            assert(dfv[j as int].0 == pfv[i as int].0);
            assert forall|a: int| 0 <= a < i as int implies
                pfv[a].0 != pfv[i as int].0 by {
                assert(row_names_unique(pfv));
            }
            assert(find_name(pfv, dfv[j as int].0) == i as int);
            vstd::std_specs::vec::axiom_vec_index_decreases(*dfs, j as int);
        }
        let cctx = match ctx.with_ty(i) {
            Some(c) => c,
            None => {
                proof {
                    assert(false);
                }
                return Err(DecodeError::UnexpectedToken);
            },
        };
        match decode_value(&dfs[j].1, &cctx, &items[i]) {
            Ok(x) => {
                out.set(j, x);
                proof {
                    assert forall|j2: int| 0 <= j2 < n && j2 != j as int implies
                        find_name(pfv, #[trigger] dfv[j2].0) != i as int by {
                        if find_name(pfv, dfv[j2].0) == i as int {
                            lemma_find_name_from(pfv, dfv[j2].0, 0);
                            assert(dfv[j2].0 == pfv[i as int].0);
                            assert(row_names_unique(dfv));
                        }
                    }
                }
            },
            Err(e) => {
                proof {
                    assert(find_name(pfv, dfv[j as int].0) == i as int);
                    assert(spec_decode(dfv[j as int].1, pfv[i as int].1,
                        itemsv[i as int]) is None);
                    assert(decode_row(dfv, pfv, itemsv, dfv.len() as int) is None);
                }
                return Err(e);
            },
        }
        i = i + 1;
    }
    let result = Value::Array(out);
    proof {
        assert(pfv.len() == n && itemsv.len() == n && dfv.len() == n);
        assert forall|j2: int| 0 <= j2 < n implies
            find_name(pfv, #[trigger] dfv[j2].0) < pfv.len()
            && find_name(pfv, dfv[j2].0) < itemsv.len()
            && spec_decode(dfv[j2].1, pfv[find_name(pfv, dfv[j2].0)].1,
                itemsv[find_name(pfv, dfv[j2].0)]) is Some by {
            let i2 = find_name(pfv, dfv[j2].0);
            lemma_find_name_from(pfv, dfv[j2].0, 0);
            assert(0 <= i2 < n);
            assert(Some((out@[j2])@) == spec_decode(dfv[j2].1, pfv[i2].1, itemsv[i2]));
        }
        assert(decode_row(dfv, pfv, itemsv, dfv.len() as int) is Some);
        lemma_array_views(result->Array_0, result->Array_0@.len() as int);
        match decode_row(dfv, pfv, itemsv, dfv.len() as int) {
            Some(outv) => {
                assert forall|j2: int| 0 <= j2 < n implies
                    array_views(result->Array_0, n as int)[j2] == outv[j2] by {
                    let i2 = find_name(pfv, dfv[j2].0);
                    lemma_find_name_from(pfv, dfv[j2].0, 0);
                    assert(Some(outv[j2]) == spec_decode(dfv[j2].1, pfv[i2].1, itemsv[i2]));
                    assert(Some((out@[j2])@) == spec_decode(dfv[j2].1, pfv[i2].1, itemsv[i2]));
                    assert(array_views(result->Array_0, n as int)[j2] == (out@[j2])@);
                }
                assert(array_views(result->Array_0, result->Array_0@.len() as int) =~= outv);
            },
            None => {},
        }
    }
    Ok(result)
}

/// Decodes the entries of a map token: keys must fit the declared key type,
/// values decode under the declared value type.
#[verifier::loop_isolation(false)]
#[verifier::rlimit(60)]
#[verifier::spinoff_prover]
fn decode_map_value(dk: &PrestoTy, dv: &PrestoTy, cctx: &Context,
    entries: &Vec<(String, Value)>) -> (r: Result<Value, DecodeError>)
    requires
        cctx.wf(),
        cctx.spec_decl() == dv@,
    ensures
        r is Ok <==> decode_entries(dk@, dv@, cctx.spec_ty(),
            object_views(*entries, entries@.len() as int), entries@.len() as int) is Some,
        r matches Ok(out) ==> (out@ matches ValueV::Object(outv)
            && Some(outv) == decode_entries(dk@, dv@, cctx.spec_ty(),
                object_views(*entries, entries@.len() as int), entries@.len() as int)),
    decreases dv, 1int,
{
    let ghost dkv = dk@;
    let ghost dvv = dv@;
    let ghost pvv = cctx.spec_ty();
    let ghost entriesv = object_views(*entries, entries@.len() as int);
    proof {
        lemma_object_views(*entries, entries@.len() as int);
        lemma_decode_entries(dkv, dvv, pvv, entriesv, entriesv.len() as int);
    }
    let n = entries.len();
    let mut out: Vec<(String, Value)> = Vec::new();
    let mut i: usize = 0;
    while i < n
        invariant
            i <= n,
            out@.len() == i,
            forall|j: int| 0 <= j < i ==> key_ok(dkv, (#[trigger] out@[j]).0@)
                && out@[j].0@ == entriesv[j].0
                && Some((out@[j].1)@) == spec_decode(dvv, pvv, entriesv[j].1),
        decreases n - i,
    {
        proof {
            vstd::std_specs::vec::axiom_vec_index_decreases(*entries, i as int);
        }
        if !check_key(dk, entries[i].0.as_str()) {
            proof {
                assert(entriesv[i as int].0 == entries@[i as int].0@);
                assert(!key_ok(dkv, entriesv[i as int].0));
                lemma_decode_entries_fail(dkv, dvv, pvv, entriesv, entriesv.len() as int,
                    i as int);
            }
            return Err(DecodeError::InvalidKey);
        }
        match decode_value(dv, cctx, &entries[i].1) {
            Ok(x) => {
                out.push((entries[i].0.clone(), x));
            },
            Err(e) => {
                proof {
                    assert(spec_decode(dvv, pvv, entriesv[i as int].1) is None);
                    lemma_decode_entries_fail(dkv, dvv, pvv, entriesv, entriesv.len() as int,
                        i as int);
                }
                return Err(e);
            },
        }
        i = i + 1;
    }
    let result = Value::Object(out);
    proof {
        assert forall|j: int| 0 <= j < n implies key_ok(dkv, #[trigger] entriesv[j].0)
            && spec_decode(dvv, pvv, entriesv[j].1) is Some by {
            assert(Some((out@[j].1)@) == spec_decode(dvv, pvv, entriesv[j].1));
            assert(out@[j].0@ == entriesv[j].0);
            assert(key_ok(dkv, (out@[j]).0@));
        }
        assert(decode_entries(dkv, dvv, pvv, entriesv, entriesv.len() as int) is Some);
        lemma_object_views(result->Object_0, result->Object_0@.len() as int);
        match decode_entries(dkv, dvv, pvv, entriesv, entriesv.len() as int) {
            Some(outv) => {
                assert forall|j: int| 0 <= j < n implies
                    object_views(result->Object_0, n as int)[j] == outv[j] by {
                    assert(outv[j].0 == entriesv[j].0
                        && Some(outv[j].1) == spec_decode(dvv, pvv, entriesv[j].1));
                    assert(Some((out@[j].1)@) == spec_decode(dvv, pvv, entriesv[j].1));
                    assert(object_views(result->Object_0, n as int)[j]
                        == (out@[j].0@, (out@[j].1)@));
                }
                assert(object_views(result->Object_0, result->Object_0@.len() as int) =~= outv);
            },
            None => {},
        }
    }
    Ok(result)
}

/// Decodes one wire token of declared type `decl` under a reconciled
/// context: checks the token against the declared type, applies the row
/// permutation tables, and yields the normalized value.
#[verifier::loop_isolation(false)]
#[verifier::rlimit(80)]
#[verifier::spinoff_prover]
pub fn decode_value(decl: &PrestoTy, ctx: &Context, v: &Value) -> (r: Result<Value, DecodeError>)
    requires
        ctx.wf(),
        ctx.spec_decl() == decl@,
    ensures
        r is Ok <==> spec_decode(decl@, ctx.spec_ty(), v@) is Some,
        r matches Ok(out) ==> Some(out@) == spec_decode(decl@, ctx.spec_ty(), v@),
    decreases decl, 0int,
{
    match decl {
        PrestoTy::Unknown => Ok(v.dup()),
        PrestoTy::Json => Ok(v.dup()),
        PrestoTy::Optional(d2) => {
            match v {
                Value::Null => Ok(Value::Null),
                _ => {
                    let ctx2 = Context { ty: ctx.ty, maps: ctx.maps, decl: Ghost((**d2)@) };
                    decode_value(d2, &ctx2, v)
                },
            }
        },
        PrestoTy::Boolean => match v {
            Value::Bool(b) => Ok(Value::Bool(*b)),
            _ => Err(DecodeError::UnexpectedToken),
        },
        PrestoTy::PrestoInt(w) => match v {
            Value::Int(i) => {
                let ok = match w {
                    PrestoInt::I8 => -128 <= *i && *i <= 127,
                    PrestoInt::I16 => -32768 <= *i && *i <= 32767,
                    PrestoInt::I32 => -2147483648 <= *i && *i <= 2147483647,
                    PrestoInt::I64 => true,
                };
                if ok {
                    Ok(Value::Int(*i))
                } else {
                    Err(DecodeError::IntegerOutOfRange)
                }
            },
            Value::UInt(u) => {
                let ok = match w {
                    PrestoInt::I8 => *u <= 127,
                    PrestoInt::I16 => *u <= 32767,
                    PrestoInt::I32 => *u <= 2147483647,
                    PrestoInt::I64 => *u <= i64::MAX as u64,
                };
                if ok {
                    Ok(Value::UInt(*u))
                } else {
                    Err(DecodeError::IntegerOutOfRange)
                }
            },
            _ => Err(DecodeError::UnexpectedToken),
        },
        PrestoTy::PrestoFloat(_) => match v {
            Value::Real(bits) => Ok(Value::Real(*bits)),
            Value::Int(i) => Ok(Value::Int(*i)),
            Value::UInt(u) => Ok(Value::UInt(*u)),
            _ => Err(DecodeError::UnexpectedToken),
        },
        PrestoTy::Varchar => match v {
            Value::Text(s) => Ok(Value::Text(s.clone())),
            _ => Err(DecodeError::UnexpectedToken),
        },
        PrestoTy::Char(_) => match v {
            Value::Text(s) => Ok(Value::Text(s.clone())),
            _ => Err(DecodeError::UnexpectedToken),
        },
        PrestoTy::Date => match v {
            Value::Text(s) => {
                if check_date(s.as_str()) {
                    Ok(Value::Text(s.clone()))
                } else {
                    Err(DecodeError::InvalidText)
                }
            },
            _ => Err(DecodeError::UnexpectedToken),
        },
        PrestoTy::Time => match v {
            Value::Text(s) => {
                if check_clock(s.as_str()) {
                    Ok(Value::Text(s.clone()))
                } else {
                    Err(DecodeError::InvalidText)
                }
            },
            _ => Err(DecodeError::UnexpectedToken),
        },
        PrestoTy::Timestamp => match v {
            Value::Text(s) => {
                if check_timestamp(s.as_str()) {
                    Ok(Value::Text(s.clone()))
                } else {
                    Err(DecodeError::InvalidText)
                }
            },
            _ => Err(DecodeError::UnexpectedToken),
        },
        PrestoTy::IntervalYearToMonth => match v {
            Value::Text(s) => {
                match parse_year_month(s.as_str()) {
                    Some(_) => Ok(Value::Text(s.clone())),
                    None => Err(DecodeError::InvalidText),
                }
            },
            _ => Err(DecodeError::UnexpectedToken),
        },
        PrestoTy::IntervalDayToSecond => match v {
            Value::Text(s) => {
                match parse_day_second(s.as_str()) {
                    Some(_) => Ok(Value::Text(s.clone())),
                    None => Err(DecodeError::InvalidText),
                }
            },
            _ => Err(DecodeError::UnexpectedToken),
        },
        PrestoTy::Decimal(_, _) => match v {
            Value::Text(s) => {
                if check_decimal(s.as_str()) {
                    Ok(Value::Text(s.clone()))
                } else {
                    Err(DecodeError::InvalidText)
                }
            },
            _ => Err(DecodeError::UnexpectedToken),
        },
        PrestoTy::IpAddress => match v {
            Value::Text(s) => {
                if check_ip(s.as_str()) {
                    Ok(Value::Text(s.clone()))
                } else {
                    Err(DecodeError::InvalidText)
                }
            },
            _ => Err(DecodeError::UnexpectedToken),
        },
        PrestoTy::Uuid => match v {
            Value::Text(s) => {
                if check_uuid(s.as_str()) {
                    Ok(Value::Text(s.clone()))
                } else {
                    Err(DecodeError::InvalidText)
                }
            },
            _ => Err(DecodeError::UnexpectedToken),
        },
        PrestoTy::Array(d2) => {
            match ctx.ty() {
                PrestoTy::Array(_) => {},
                _ => {
                    return Err(DecodeError::UnexpectedToken);
                },
            }
            let cctx = match ctx.with_ty(0) {
                Some(c) => c,
                None => {
                    proof {
                        assert(false);
                    }
                    return Err(DecodeError::UnexpectedToken);
                },
            };
            match v {
                Value::Array(items) => {
                    let r = decode_array_value(d2, &cctx, items);
                    proof {
                        lemma_array_views(*items, items@.len() as int);
                    }
                    r
                },
                _ => Err(DecodeError::UnexpectedToken),
            }
        },
        PrestoTy::Tuple(dt) => {
            match ctx.ty() {
                PrestoTy::Tuple(_) => {},
                _ => {
                    return Err(DecodeError::UnexpectedToken);
                },
            }
            proof {
                lemma_tuple_views(*dt, dt@.len() as int);
            }
            match v {
                Value::Array(items) => {
                    proof {
                        lemma_array_views(*items, items@.len() as int);
                    }
                    if items.len() != dt.len() {
                        return Err(DecodeError::ArityMismatch);
                    }
                    decode_tuple_value(dt, ctx, items)
                },
                _ => Err(DecodeError::UnexpectedToken),
            }
        },
        PrestoTy::Row(dfs) => {
            match ctx.ty() {
                PrestoTy::Row(_) => {},
                _ => {
                    return Err(DecodeError::UnexpectedToken);
                },
            }
            proof {
                lemma_row_views(*dfs, dfs@.len() as int);
            }
            match v {
                Value::Array(items) => {
                    proof {
                        lemma_array_views(*items, items@.len() as int);
                    }
                    if items.len() != dfs.len() {
                        return Err(DecodeError::ArityMismatch);
                    }
                    let perm = match ctx.row_map() {
                        Some(m) => m,
                        None => {
                            proof {
                                assert(false);
                            }
                            return Err(DecodeError::UnexpectedToken);
                        },
                    };
                    decode_row_value(dfs, ctx, items, perm)
                },
                _ => Err(DecodeError::UnexpectedToken),
            }
        },
        PrestoTy::Mapping(dk, dv) => {
            match ctx.ty() {
                PrestoTy::Mapping(_, _) => {},
                _ => {
                    return Err(DecodeError::UnexpectedToken);
                },
            }
            let cctx = match ctx.with_ty(1) {
                Some(c) => c,
                None => {
                    proof {
                        assert(false);
                    }
                    return Err(DecodeError::UnexpectedToken);
                },
            };
            match v {
                Value::Object(entries) => {
                    let r = decode_map_value(dk, dv, &cctx, entries);
                    proof {
                        lemma_object_views(*entries, entries@.len() as int);
                    }
                    r
                },
                _ => Err(DecodeError::UnexpectedToken),
            }
        },
    }
}

} // verus!
