use vstd::prelude::*;
use super::super::types::{TyV, ValueV, find_name, lemma_find_name_from, row_names_unique,
    in_range, key_ok, spec_decode, decode_tuple, decode_row, decode_elems, decode_entries,
    lemma_decode_row,
    is_date_text, is_clock_text, is_timestamp_text, is_year_month_text, is_day_second_text,
    is_decimal_text, is_ip_text, is_uuid_text};

verus! {

/// Whether the first `n` elements are well-typed values of element type `d`.
pub open spec fn wt_elems(d: TyV, items: Seq<ValueV>, n: int) -> bool
    decreases d, n,
{
    if n <= 0 || n > items.len() {
        true
    } else {
        wt_elems(d, items, n - 1) && well_typed(d, items[n - 1])
    }
}

/// Whether the first `n` members are well-typed values of the member types.
pub open spec fn wt_tuple(dt: Seq<TyV>, items: Seq<ValueV>, n: int) -> bool
    decreases dt, n,
{
    if n <= 0 || n > dt.len() || n > items.len() {
        true
    } else {
        proof {
            vstd::seq::axiom_seq_index_decreases(dt, n - 1);
        }
        wt_tuple(dt, items, n - 1) && well_typed(dt[n - 1], items[n - 1])
    }
}

/// Whether the first `n` fields are well-typed values of the declared field
/// types, in declared order.
pub open spec fn wt_row(df: Seq<(Seq<char>, TyV)>, items: Seq<ValueV>, n: int) -> bool
    decreases df, n,
{
    if n <= 0 || n > df.len() || n > items.len() {
        true
    } else {
        proof {
            vstd::seq::axiom_seq_index_decreases(df, n - 1);
        }
        wt_row(df, items, n - 1) && well_typed(df[n - 1].1, items[n - 1])
    }
}

/// Whether the first `n` entries have keys fitting the key type and
/// well-typed values of the value type.
pub open spec fn wt_entries(dk: TyV, dv: TyV, entries: Seq<(Seq<char>, ValueV)>, n: int) -> bool
    decreases dv, n,
{
    if n <= 0 || n > entries.len() {
        true
    } else {
        wt_entries(dk, dv, entries, n - 1) && key_ok(dk, entries[n - 1].0)
            && well_typed(dv, entries[n - 1].1)
    }
}

/// Whether `v` is a decoded value of type `d`: exactly the shapes the
/// decoding engine produces, with row fields in declared order.
pub open spec fn well_typed(d: TyV, v: ValueV) -> bool
    decreases d, 0int,
{
    match d {
        TyV::Unknown => true,
        TyV::Json => true,
        TyV::Optional(d2) => v == ValueV::Null || well_typed(*d2, v),
        TyV::Boolean => v is Bool,
        TyV::PrestoInt(w) => v matches ValueV::Int(i) && in_range(w, i),
        TyV::PrestoFloat(_) => v is Real || v is Int,
        TyV::Varchar => v is Text,
        TyV::Char(_) => v is Text,
        TyV::Date => v matches ValueV::Text(s) && is_date_text(s),
        TyV::Time => v matches ValueV::Text(s) && is_clock_text(s),
        TyV::Timestamp => v matches ValueV::Text(s) && is_timestamp_text(s),
        TyV::IntervalYearToMonth => v matches ValueV::Text(s) && is_year_month_text(s),
        TyV::IntervalDayToSecond => v matches ValueV::Text(s) && is_day_second_text(s),
        TyV::Decimal(_, _) => v matches ValueV::Text(s) && is_decimal_text(s),
        TyV::IpAddress => v matches ValueV::Text(s) && is_ip_text(s),
        TyV::Uuid => v matches ValueV::Text(s) && is_uuid_text(s),
        TyV::Array(d2) => v matches ValueV::Array(items) && wt_elems(*d2, items,
            items.len() as int),
        TyV::Tuple(dt) => v matches ValueV::Array(items) && items.len() == dt.len()
            && wt_tuple(dt, items, dt.len() as int),
        TyV::Row(df) => row_names_unique(df) && (v matches ValueV::Array(items)
            && items.len() == df.len() && wt_row(df, items, df.len() as int)),
        TyV::Mapping(dk, dv) => v matches ValueV::Object(entries)
            && wt_entries(*dk, *dv, entries, entries.len() as int),
    }
}

/// The first `n` member types with every optional wrapper removed.
pub open spec fn strip_seq(ts: Seq<TyV>, n: int) -> Seq<TyV>
    decreases ts, n,
{
    if n <= 0 || n > ts.len() {
        Seq::empty()
    } else {
        proof {
            vstd::seq::axiom_seq_index_decreases(ts, n - 1);
        }
        strip_seq(ts, n - 1).push(strip_options(ts[n - 1]))
    }
}

/// The first `n` fields with every optional wrapper removed from their
/// types; the names stay.
pub open spec fn strip_fields(fields: Seq<(Seq<char>, TyV)>, n: int) -> Seq<(Seq<char>, TyV)>
    decreases fields, n,
{
    if n <= 0 || n > fields.len() {
        Seq::empty()
    } else {
        proof {
            vstd::seq::axiom_seq_index_decreases(fields, n - 1);
        }
        strip_fields(fields, n - 1).push((fields[n - 1].0, strip_options(fields[n - 1].1)))
    }
}

/// The declared type with every optional wrapper removed: the shape its own
/// encoding provides, since the wire does not spell optionality.
pub open spec fn strip_options(t: TyV) -> TyV
    decreases t, 0int,
{
    match t {
        TyV::Optional(d2) => strip_options(*d2),
        TyV::Array(d2) => TyV::Array(Box::new(strip_options(*d2))),
        TyV::Mapping(dk, dv) => TyV::Mapping(Box::new(strip_options(*dk)),
            Box::new(strip_options(*dv))),
        TyV::Tuple(ts) => TyV::Tuple(strip_seq(ts, ts.len() as int)),
        TyV::Row(fields) => TyV::Row(strip_fields(fields, fields.len() as int)),
        _ => t,
    }
}

/// Member-wise reading of `strip_seq`.
pub proof fn lemma_strip_seq(ts: Seq<TyV>, n: int)
    requires
        0 <= n <= ts.len(),
    ensures
        strip_seq(ts, n).len() == n,
        forall|i: int| 0 <= i < n ==> strip_seq(ts, n)[i] == strip_options(ts[i]),
    decreases n,
{
    if n > 0 {
        lemma_strip_seq(ts, n - 1);
        assert forall|i: int| 0 <= i < n implies strip_seq(ts, n)[i]
            == strip_options(ts[i]) by {
            if i < n - 1 {
                assert(strip_seq(ts, n)[i] == strip_seq(ts, n - 1)[i]);
            }
        }
    }
}

/// Field-wise reading of `strip_fields`.
pub proof fn lemma_strip_fields(fields: Seq<(Seq<char>, TyV)>, n: int)
    requires
        0 <= n <= fields.len(),
    ensures
        strip_fields(fields, n).len() == n,
        forall|i: int| 0 <= i < n ==> strip_fields(fields, n)[i]
            == (fields[i].0, strip_options(fields[i].1)),
    decreases n,
{
    if n > 0 {
        lemma_strip_fields(fields, n - 1);
        assert forall|i: int| 0 <= i < n implies strip_fields(fields, n)[i]
            == (fields[i].0, strip_options(fields[i].1)) by {
            if i < n - 1 {
                assert(strip_fields(fields, n)[i] == strip_fields(fields, n - 1)[i]);
            }
        }
    }
}

/// Two rows with the same names at the same positions agree on where any
/// name first occurs.
pub proof fn lemma_find_name_same(a: Seq<(Seq<char>, TyV)>, b: Seq<(Seq<char>, TyV)>,
    nm: Seq<char>)
    requires
        a.len() == b.len(),
        forall|i: int| 0 <= i < a.len() ==> (#[trigger] a[i]).0 == b[i].0,
    ensures
        find_name(a, nm) == find_name(b, nm),
{
    lemma_find_name_from(a, nm, 0);
    lemma_find_name_from(b, nm, 0);
    let fa = find_name(a, nm);
    let fb = find_name(b, nm);
    if fa < fb {
        assert(a[fa].0 == nm);
        assert(b[fa].0 != nm);
    }
    if fb < fa {
        assert(b[fb].0 == nm);
        assert(a[fb].0 != nm);
    }
}

/// Round trip for array elements./// Round trip for array elements.
proof fn lemma_round_trip_elems(d: TyV, items: Seq<ValueV>, n: int)
    requires
        0 <= n <= items.len(),
        wt_elems(d, items, n),
    ensures
        decode_elems(d, strip_options(d), items, n) matches Some(out)
            && out =~= items.subrange(0, n),
    decreases d, items, n,
{
    if n > 0 {
        vstd::seq::axiom_seq_index_decreases(items, n - 1);
        lemma_round_trip_elems(d, items, n - 1);
        lemma_round_trip(d, items[n - 1]);
        match decode_elems(d, strip_options(d), items, n) {
            Some(out) => {
                assert(out =~= items.subrange(0, n));
            },
            None => {},
        }
    } else {
        assert(decode_elems(d, strip_options(d), items, n) == Some(Seq::<ValueV>::empty()));
        assert(Seq::<ValueV>::empty() =~= items.subrange(0, 0));
    }
}

/// Round trip for tuple members.
proof fn lemma_round_trip_tuple(dt: Seq<TyV>, items: Seq<ValueV>, n: int)
    requires
        0 <= n <= dt.len(),
        n <= items.len(),
        wt_tuple(dt, items, n),
    ensures
        decode_tuple(dt, strip_seq(dt, dt.len() as int), items, n) matches Some(out)
            && out =~= items.subrange(0, n),
    decreases dt, items, n,
{
    if n > 0 {
        vstd::seq::axiom_seq_index_decreases(dt, n - 1);
        lemma_round_trip_tuple(dt, items, n - 1);
        lemma_strip_seq(dt, dt.len() as int);
        lemma_round_trip(dt[n - 1], items[n - 1]);
        match decode_tuple(dt, strip_seq(dt, dt.len() as int), items, n) {
            Some(out) => {
                assert(out =~= items.subrange(0, n));
            },
            None => {},
        }
    } else {
        assert(Seq::<ValueV>::empty() =~= items.subrange(0, 0));
    }
}

/// Round trip for row fields: when a row is matched against itself every
/// field name finds its own position.
proof fn lemma_round_trip_row(df: Seq<(Seq<char>, TyV)>, items: Seq<ValueV>, n: int)
    requires
        0 <= n <= df.len(),
        df.len() <= items.len(),
        row_names_unique(df),
        wt_row(df, items, n),
    ensures
        decode_row(df, strip_fields(df, df.len() as int), items, n) matches Some(out)
            && out =~= items.subrange(0, n),
    decreases df, items, n,
{
    if n > 0 {
        vstd::seq::axiom_seq_index_decreases(df, n - 1);
        lemma_round_trip_row(df, items, n - 1);
        lemma_strip_fields(df, df.len() as int);
        let pf = strip_fields(df, df.len() as int);
        lemma_find_name_same(df, pf, df[n - 1].0);
        lemma_find_name_from(df, df[n - 1].0, 0);
        assert(find_name(df, df[n - 1].0) == n - 1);
        assert(find_name(pf, df[n - 1].0) == n - 1);
        lemma_round_trip(df[n - 1].1, items[n - 1]);
        match decode_row(df, pf, items, n) {
            Some(out) => {
                assert(out =~= items.subrange(0, n));
            },
            None => {},
        }
    } else {
        assert(Seq::<ValueV>::empty() =~= items.subrange(0, 0));
    }
}

/// Round trip for map entries.
proof fn lemma_round_trip_entries(dk: TyV, dv: TyV, entries: Seq<(Seq<char>, ValueV)>, n: int)
    requires
        0 <= n <= entries.len(),
        wt_entries(dk, dv, entries, n),
    ensures
        decode_entries(dk, dv, strip_options(dv), entries, n) matches Some(out)
            && out =~= entries.subrange(0, n),
    decreases dv, entries, n,
{
    if n > 0 {
        vstd::seq::axiom_seq_index_decreases(entries, n - 1);
        lemma_round_trip_entries(dk, dv, entries, n - 1);
        lemma_round_trip(dv, entries[n - 1].1);
        match decode_entries(dk, dv, strip_options(dv), entries, n) {
            Some(out) => {
                assert(out =~= entries.subrange(0, n));
            },
            None => {},
        }
    } else {
        assert(Seq::<(Seq<char>, ValueV)>::empty()
            =~= entries.subrange(0, 0));
    }
}

/// Round trip: a well-typed value of the declared type, decoded under the
/// schema that the type's own encoding provides — the declared type with
/// its optional wrappers stripped, since the wire does not spell
/// optionality — comes back unchanged.
pub proof fn lemma_round_trip(d: TyV, v: ValueV)
    requires
        well_typed(d, v),
    ensures
        spec_decode(d, strip_options(d), v) == Some(v),
    decreases d, v, 0int,
{
    match d {
        TyV::Optional(d2) => {
            if v != ValueV::Null {
                lemma_round_trip(*d2, v);
            }
        },
        TyV::Array(d2) => {
            match v {
                ValueV::Array(items) => {
                    lemma_round_trip_elems(*d2, items, items.len() as int);
                    match decode_elems(*d2, strip_options(*d2), items, items.len() as int) {
                        Some(out) => {
                            assert(out =~= items);
                        },
                        None => {},
                    }
                },
                _ => {},
            }
        },
        TyV::Tuple(dt) => {
            match v {
                ValueV::Array(items) => {
                    lemma_strip_seq(dt, dt.len() as int);
                    lemma_round_trip_tuple(dt, items, dt.len() as int);
                    match decode_tuple(dt, strip_seq(dt, dt.len() as int), items,
                        dt.len() as int) {
                        Some(out) => {
                            assert(out =~= items);
                        },
                        None => {},
                    }
                },
                _ => {},
            }
        },
        TyV::Row(df) => {
            match v {
                ValueV::Array(items) => {
                    lemma_strip_fields(df, df.len() as int);
                    lemma_round_trip_row(df, items, df.len() as int);
                    match decode_row(df, strip_fields(df, df.len() as int), items,
                        df.len() as int) {
                        Some(out) => {
                            assert(out =~= items);
                        },
                        None => {},
                    }
                },
                _ => {},
            }
        },
        TyV::Mapping(dk, dv) => {
            match v {
                ValueV::Object(entries) => {
                    lemma_round_trip_entries(*dk, *dv, entries, entries.len() as int);
                    match decode_entries(*dk, *dv, strip_options(*dv), entries,
                        entries.len() as int) {
                        Some(out) => {
                            assert(out =~= entries);
                        },
                        None => {},
                    }
                },
                _ => {},
            }
        },
        _ => {},
    }
}

/// Declared optionality is transparent: an absent token decodes to the
/// absent value, and any other token decodes exactly as the inner type
/// decodes it, under the unmodified provided type.
pub proof fn lemma_option_transparent(d: TyV, p: TyV, v: ValueV)
    ensures
        spec_decode(TyV::Optional(Box::new(d)), p, ValueV::Null) == Some(ValueV::Null),
        v != ValueV::Null ==> spec_decode(TyV::Optional(Box::new(d)), p, v)
            == spec_decode(d, p, v),
{
}

/// Reordering correctness: when a row token decodes, the value of the
/// provided column `i` lands at the declared position that the column's
/// name selects, decoded under that declared field's type.  Nested rows
/// recurse through `spec_decode` with their own tables, independently.
pub proof fn lemma_reorder(
    df: Seq<(Seq<char>, TyV)>,
    pf: Seq<(Seq<char>, TyV)>,
    items: Seq<ValueV>,
    out: Seq<ValueV>,
)
    requires
        df.len() == pf.len(),
        row_names_unique(pf),
        decode_row(df, pf, items, df.len() as int) == Some(out),
    ensures
        forall|i: int| 0 <= i < pf.len() && find_name(df, #[trigger] pf[i].0) < df.len()
            ==> Some(out[find_name(df, pf[i].0)])
                == spec_decode(df[find_name(df, pf[i].0)].1, pf[i].1, items[i]),
{
    lemma_decode_row(df, pf, items, df.len() as int);
    assert forall|i: int| 0 <= i < pf.len() && find_name(df, #[trigger] pf[i].0) < df.len()
        implies Some(out[find_name(df, pf[i].0)])
            == spec_decode(df[find_name(df, pf[i].0)].1, pf[i].1, items[i]) by {
        let j = find_name(df, pf[i].0);
        lemma_find_name_from(df, pf[i].0, 0);
        assert(df[j].0 == pf[i].0);
        lemma_find_name_from(pf, df[j].0, 0);
        assert forall|a: int| 0 <= a < i implies pf[a].0 != pf[i].0 by {
            assert(row_names_unique(pf));
        }
        assert(find_name(pf, df[j].0) == i);
        assert(Some(out[j]) == spec_decode(df[j].1, pf[find_name(pf, df[j].0)].1,
            items[find_name(pf, df[j].0)]));
    }
}

} // verus!
