use vstd::prelude::*;
use super::super::types::{PrestoTy, TyV, Error, row_views, tuple_views, lemma_row_views,
    lemma_tuple_views};
use super::util::str_eq;

verus! {

/// The permutation tables computed while reconciling a declared type against
/// a provided type: one node per provided type node, carrying at a row node
/// the table that maps each provided field position to its declared field
/// position.
#[derive(Debug)]
pub struct RowMaps {
    pub row_map: Option<Vec<usize>>,
    pub children: Vec<RowMaps>,
}

/// Model of a [`RowMaps`] node.
#[verifier::ext_equal]
pub struct RowMapsV {
    pub row_map: Option<Seq<usize>>,
    pub children: Seq<RowMapsV>,
}

/// Models of the first `n` children of a maps node.
pub open spec fn maps_views(children: Vec<RowMaps>, n: int) -> Seq<RowMapsV>
    decreases children, n,
{
    if n <= 0 || n > children@.len() {
        Seq::empty()
    } else {
        proof {
            vstd::std_specs::vec::axiom_vec_index_decreases(children, n - 1);
        }
        maps_views(children, n - 1).push(children@[n - 1]@)
    }
}

impl View for RowMaps {
    type V = RowMapsV;

    open spec fn view(&self) -> RowMapsV
        decreases self, 0int,
    {
        RowMapsV {
            row_map: match &self.row_map {
                Some(m) => Some(m@),
                None => None,
            },
            children: maps_views(self.children, self.children@.len() as int),
        }
    }
}

/// The model of a maps node indexes child models in order.
pub proof fn lemma_maps_views(children: Vec<RowMaps>, n: int)
    requires
        0 <= n <= children@.len(),
    ensures
        maps_views(children, n).len() == n,
        forall|i: int| 0 <= i < n ==> maps_views(children, n)[i] == children@[i]@,
    decreases n,
{
    if n > 0 {
        lemma_maps_views(children, n - 1);
        assert(maps_views(children, n) == maps_views(children, n - 1).push(children@[n - 1]@));
        assert forall|i: int| 0 <= i < n implies maps_views(children, n)[i]
            == children@[i]@ by {
            if i < n - 1 {
                assert(maps_views(children, n)[i] == maps_views(children, n - 1)[i]);
            }
        }
    } else {
        assert(maps_views(children, n).len() == 0);
    }
}

/// The first position at or after `k` whose field is called `name`, or the
/// field count when no such field exists.
pub open spec fn find_name_from(fields: Seq<(Seq<char>, TyV)>, name: Seq<char>, k: int) -> int
    decreases fields.len() - k,
{
    if k < 0 || k >= fields.len() {
        fields.len() as int
    } else if fields[k].0 == name {
        k
    } else {
        find_name_from(fields, name, k + 1)
    }
}

/// The first position whose field is called `name`, or the field count.
pub open spec fn find_name(fields: Seq<(Seq<char>, TyV)>, name: Seq<char>) -> int {
    find_name_from(fields, name, 0)
}

/// What `find_name_from` returns: the first matching position, if any.
pub proof fn lemma_find_name_from(fields: Seq<(Seq<char>, TyV)>, name: Seq<char>, k: int)
    requires
        0 <= k <= fields.len(),
    ensures
        k <= find_name_from(fields, name, k) <= fields.len(),
        find_name_from(fields, name, k) < fields.len() ==> fields[
            find_name_from(fields, name, k)].0 == name,
        forall|j: int| k <= j < find_name_from(fields, name, k) ==> fields[j].0 != name,
    decreases fields.len() - k,
{
    if k < fields.len() && fields[k].0 != name {
        lemma_find_name_from(fields, name, k + 1);
    }
}

/// Whether the first `n` members of a declared tuple accept the provided
/// members positionally.
pub open spec fn compatible_tuple(dt: Seq<TyV>, pt: Seq<TyV>, n: int) -> bool
    decreases dt, n,
{
    if n <= 0 || n > dt.len() || n > pt.len() {
        true
    } else {
        proof {
            vstd::seq::axiom_seq_index_decreases(dt, n - 1);
        }
        compatible_tuple(dt, pt, n - 1) && compatible(dt[n - 1], pt[n - 1])
    }
}

/// Whether a row's field names are pairwise distinct.
pub open spec fn row_names_unique(fields: Seq<(Seq<char>, TyV)>) -> bool {
    forall|i: int, j: int| 0 <= i < j < fields.len() ==> fields[i].0 != fields[j].0
}

/// Whether the first `n` provided row fields each name a declared field that
/// accepts them.
pub open spec fn compatible_row(
    df: Seq<(Seq<char>, TyV)>,
    pf: Seq<(Seq<char>, TyV)>,
    n: int,
) -> bool
    decreases df, n,
{
    if n <= 0 || n > pf.len() {
        true
    } else {
        compatible_row(df, pf, n - 1) && {
            let j = find_name(df, pf[n - 1].0);
            if 0 <= j < df.len() {
                proof {
                    vstd::seq::axiom_seq_index_decreases(df, j);
                }
                compatible(df[j].1, pf[n - 1].1)
            } else {
                false
            }
        }
    }
}

/// Whether a declared type accepts a provided type: equal leaf kinds with
/// equal parameters, component-wise matching composites, row fields matched
/// by name in any order, declared optionality transparent, and declared
/// `Unknown` accepting anything.  Provided row fields must be uniquely named.
pub open spec fn compatible(d: TyV, p: TyV) -> bool
    decreases d, 0int,
{
    match (d, p) {
        (TyV::Unknown, _) => true,
        (TyV::Optional(d2), _) => compatible(*d2, p),
        (TyV::Decimal(p1, s1), TyV::Decimal(p2, s2)) => p1 == p2 && s1 == s2,
        (TyV::Boolean, TyV::Boolean) => true,
        (TyV::Date, TyV::Date) => true,
        (TyV::Time, TyV::Time) => true,
        (TyV::Timestamp, TyV::Timestamp) => true,
        (TyV::IntervalYearToMonth, TyV::IntervalYearToMonth) => true,
        (TyV::IntervalDayToSecond, TyV::IntervalDayToSecond) => true,
        (TyV::PrestoInt(_), TyV::PrestoInt(_)) => true,
        (TyV::PrestoFloat(_), TyV::PrestoFloat(_)) => true,
        (TyV::Varchar, TyV::Varchar) => true,
        (TyV::Char(a), TyV::Char(b)) => a == b,
        (TyV::Tuple(dt), TyV::Tuple(pt)) => dt.len() == pt.len()
            && compatible_tuple(dt, pt, dt.len() as int),
        (TyV::Row(df), TyV::Row(pf)) => {
            &&& df.len() == pf.len()
            &&& row_names_unique(pf)
            &&& row_names_unique(df)
            &&& (forall|j: int| 0 <= j < df.len() ==> find_name(pf, #[trigger] df[j].0) < pf.len())
            &&& compatible_row(df, pf, pf.len() as int)
        },
        (TyV::Array(d2), TyV::Array(p2)) => compatible(*d2, *p2),
        (TyV::Mapping(dk, dv), TyV::Mapping(pk, pv)) => compatible(*dk, *pk)
            && compatible(*dv, *pv),
        (TyV::IpAddress, TyV::IpAddress) => true,
        (TyV::Uuid, TyV::Uuid) => true,
        (TyV::Json, TyV::Json) => true,
        _ => false,
    }
}

/// Member-wise reading of `compatible_tuple`.
pub proof fn lemma_compatible_tuple(dt: Seq<TyV>, pt: Seq<TyV>, n: int)
    requires
        0 <= n <= dt.len(),
        n <= pt.len(),
    ensures
        compatible_tuple(dt, pt, n) <==> (forall|i: int| 0 <= i < n
            ==> compatible(#[trigger] dt[i], pt[i])),
    decreases n,
{
    if n > 0 {
        lemma_compatible_tuple(dt, pt, n - 1);
    }
}

/// Field-wise reading of `compatible_row`.
pub proof fn lemma_compatible_row(df: Seq<(Seq<char>, TyV)>, pf: Seq<(Seq<char>, TyV)>, n: int)
    requires
        0 <= n <= pf.len(),
    ensures
        compatible_row(df, pf, n) <==> (forall|i: int| 0 <= i < n
            ==> find_name(df, #[trigger] pf[i].0) < df.len()
                && compatible(df[find_name(df, pf[i].0)].1, pf[i].1)),
    decreases n,
{
    if n > 0 {
        lemma_compatible_row(df, pf, n - 1);
        lemma_find_name_from(df, pf[n - 1].0, 0);
    }
}

/// Whether the first `n` children of a maps node carry the tables for the
/// corresponding tuple members.
pub open spec fn maps_ok_tuple(dt: Seq<TyV>, pt: Seq<TyV>, children: Seq<RowMapsV>, n: int) -> bool
    decreases dt, n,
{
    if n <= 0 || n > dt.len() || n > pt.len() || n > children.len() {
        true
    } else {
        proof {
            vstd::seq::axiom_seq_index_decreases(dt, n - 1);
        }
        maps_ok_tuple(dt, pt, children, n - 1)
            && maps_ok(dt[n - 1], pt[n - 1], children[n - 1])
    }
}

/// Whether the first `n` children of a maps node carry the tables for the
/// corresponding provided row fields, each against its declared field.
pub open spec fn maps_ok_row(
    df: Seq<(Seq<char>, TyV)>,
    pf: Seq<(Seq<char>, TyV)>,
    children: Seq<RowMapsV>,
    n: int,
) -> bool
    decreases df, n,
{
    if n <= 0 || n > pf.len() || n > children.len() {
        true
    } else {
        maps_ok_row(df, pf, children, n - 1) && {
            let j = find_name(df, pf[n - 1].0);
            if 0 <= j < df.len() {
                proof {
                    vstd::seq::axiom_seq_index_decreases(df, j);
                }
                maps_ok(df[j].1, pf[n - 1].1, children[n - 1])
            } else {
                false
            }
        }
    }
}

/// Whether a maps node carries exactly the permutation tables that
/// reconciling `d` against `p` produces, all the way down.
pub open spec fn maps_ok(d: TyV, p: TyV, m: RowMapsV) -> bool
    decreases d, 0int,
{
    match (d, p) {
        (TyV::Unknown, _) => true,
        (TyV::Optional(d2), _) => maps_ok(*d2, p, m),
        (TyV::Tuple(dt), TyV::Tuple(pt)) => {
            &&& dt.len() == pt.len()
            &&& m.children.len() == pt.len()
            &&& maps_ok_tuple(dt, pt, m.children, dt.len() as int)
        },
        (TyV::Row(df), TyV::Row(pf)) => {
            &&& df.len() == pf.len()
            &&& row_names_unique(pf)
            &&& row_names_unique(df)
            &&& (forall|j: int| 0 <= j < df.len() ==> find_name(pf, #[trigger] df[j].0) < pf.len())
            &&& m.row_map == Some(row_perm(df, pf))
            &&& perm_ok(df, pf, row_perm(df, pf))
            &&& m.children.len() == pf.len()
            &&& maps_ok_row(df, pf, m.children, pf.len() as int)
        },
        (TyV::Array(d2), TyV::Array(p2)) => m.children.len() == 1
            && maps_ok(*d2, *p2, m.children[0]),
        (TyV::Mapping(dk, dv), TyV::Mapping(pk, pv)) => m.children.len() == 2
            && maps_ok(*dk, *pk, m.children[0]) && maps_ok(*dv, *pv, m.children[1]),
        _ => true,
    }
}

/// Child-wise reading of `maps_ok_tuple`.
pub proof fn lemma_maps_ok_tuple(dt: Seq<TyV>, pt: Seq<TyV>, children: Seq<RowMapsV>, n: int)
    requires
        0 <= n <= dt.len(),
        n <= pt.len(),
        n <= children.len(),
    ensures
        maps_ok_tuple(dt, pt, children, n) <==> (forall|i: int| 0 <= i < n
            ==> maps_ok(#[trigger] dt[i], pt[i], children[i])),
    decreases n,
{
    if n > 0 {
        lemma_maps_ok_tuple(dt, pt, children, n - 1);
    }
}

/// Child-wise reading of `maps_ok_row`.
pub proof fn lemma_maps_ok_row(
    df: Seq<(Seq<char>, TyV)>,
    pf: Seq<(Seq<char>, TyV)>,
    children: Seq<RowMapsV>,
    n: int,
)
    requires
        0 <= n <= pf.len(),
        n <= children.len(),
    ensures
        maps_ok_row(df, pf, children, n) <==> (forall|i: int| 0 <= i < n
            ==> find_name(df, #[trigger] pf[i].0) < df.len()
                && maps_ok(df[find_name(df, pf[i].0)].1, pf[i].1, children[i])),
    decreases n,
{
    if n > 0 {
        lemma_maps_ok_row(df, pf, children, n - 1);
        lemma_find_name_from(df, pf[n - 1].0, 0);
    }
}

/// The permutation table for a provided row against a declared row: entry
/// `i` is the declared position of the provided field `i`'s name.
pub open spec fn row_perm(df: Seq<(Seq<char>, TyV)>, pf: Seq<(Seq<char>, TyV)>) -> Seq<usize> {
    Seq::new(pf.len(), |i: int| find_name(df, pf[i].0) as usize)
}

/// What makes `perm` the right table: one entry per provided field, each the
/// declared position of that field's name.
pub open spec fn perm_ok(
    df: Seq<(Seq<char>, TyV)>,
    pf: Seq<(Seq<char>, TyV)>,
    perm: Seq<usize>,
) -> bool {
    &&& perm.len() == pf.len()
    &&& (forall|i: int| 0 <= i < pf.len() ==> #[trigger] perm[i] < df.len()
        && df[perm[i] as int].0 == pf[i].0)
}


/// The position in a declared row of the field named like provided field
/// `name`, decided executably.
#[verifier::loop_isolation(false)]
fn find_field(fields: &Vec<(String, PrestoTy)>, name: &str) -> (r: usize)
    ensures
        r as int == find_name(row_views(*fields, fields@.len() as int), name@),
        r <= fields@.len(),
{
    let ghost fv = row_views(*fields, fields@.len() as int);
    proof {
        lemma_row_views(*fields, fields@.len() as int);
        lemma_find_name_from(fv, name@, 0);
    }
    let n = fields.len();
    let mut i: usize = 0;
    while i < n
        invariant
            i <= n,
            forall|j: int| 0 <= j < i ==> fv[j].0 != name@,
        decreases n - i,
    {
        if str_eq(fields[i].0.as_str(), name) {
            proof {
                assert(fv[i as int].0 == name@);
            }
            return i;
        }
        i = i + 1;
    }
    n
}

/// A maps node with nothing in it, for leaves and for anything a declared
/// `Unknown` accepts without inspection.
fn leaf_maps() -> (r: RowMaps)
    ensures
        r@.row_map is None,
        r@.children.len() == 0,
{
    RowMaps { row_map: None, children: Vec::new() }
}

/// Reconciles a declared type against a provided type: decides whether they
/// are compatible and, when they are, computes the permutation table of every
/// provided row node.
#[verifier::loop_isolation(false)]
#[verifier::rlimit(60)]
#[verifier::spinoff_prover]
pub fn extract(target: &PrestoTy, provided: &PrestoTy) -> (r: Result<RowMaps, Error>)
    ensures
        r is Ok <==> compatible(target@, provided@),
        r matches Ok(m) ==> maps_ok(target@, provided@, m@),
        r matches Err(e) ==> e == Error::InvalidPrestoType,
    decreases target,
{
    match (target, provided) {
        (PrestoTy::Unknown, _) => Ok(leaf_maps()),
        (PrestoTy::Optional(d2), _) => extract(d2, provided),
        (PrestoTy::Decimal(p1, s1), PrestoTy::Decimal(p2, s2)) => {
            if *p1 == *p2 && *s1 == *s2 {
                Ok(leaf_maps())
            } else {
                Err(Error::InvalidPrestoType)
            }
        },
        (PrestoTy::Boolean, PrestoTy::Boolean) => Ok(leaf_maps()),
        (PrestoTy::Date, PrestoTy::Date) => Ok(leaf_maps()),
        (PrestoTy::Time, PrestoTy::Time) => Ok(leaf_maps()),
        (PrestoTy::Timestamp, PrestoTy::Timestamp) => Ok(leaf_maps()),
        (PrestoTy::IntervalYearToMonth, PrestoTy::IntervalYearToMonth) => Ok(leaf_maps()),
        (PrestoTy::IntervalDayToSecond, PrestoTy::IntervalDayToSecond) => Ok(leaf_maps()),
        (PrestoTy::PrestoInt(_), PrestoTy::PrestoInt(_)) => Ok(leaf_maps()),
        (PrestoTy::PrestoFloat(_), PrestoTy::PrestoFloat(_)) => Ok(leaf_maps()),
        (PrestoTy::Varchar, PrestoTy::Varchar) => Ok(leaf_maps()),
        (PrestoTy::Char(a), PrestoTy::Char(b)) => {
            if *a == *b {
                Ok(leaf_maps())
            } else {
                Err(Error::InvalidPrestoType)
            }
        },
        (PrestoTy::Tuple(dt), PrestoTy::Tuple(pt)) => {
            let ghost dtv = tuple_views(*dt, dt@.len() as int);
            let ghost ptv = tuple_views(*pt, pt@.len() as int);
            proof {
                lemma_tuple_views(*dt, dt@.len() as int);
                lemma_tuple_views(*pt, pt@.len() as int);
            }
            if dt.len() != pt.len() {
                return Err(Error::InvalidPrestoType);
            }
            proof {
                lemma_compatible_tuple(dtv, ptv, dtv.len() as int);
            }
            let n = dt.len();
            let mut children: Vec<RowMaps> = Vec::new();
            let mut i: usize = 0;
            while i < n
                invariant
                    i <= n,
                    children@.len() == i,
                    forall|j: int| 0 <= j < i ==> compatible(dtv[j], ptv[j])
                        && maps_ok(dtv[j], ptv[j], children@[j]@),
                decreases n - i,
            {
                proof {
                    vstd::std_specs::vec::axiom_vec_index_decreases(*dt, i as int);
                }
                match extract(&dt[i], &pt[i]) {
                    Ok(c) => {
                        children.push(c);
                    },
                    Err(_) => {
                        proof {
                            assert(!compatible(dtv[i as int], ptv[i as int]));
                            assert(!compatible_tuple(dtv, ptv, dtv.len() as int));
                        }
                        return Err(Error::InvalidPrestoType);
                    },
                }
                i = i + 1;
            }
            let result = RowMaps { row_map: None, children };
            proof {
                lemma_maps_views(result.children, result.children@.len() as int);
                lemma_maps_ok_tuple(dtv, ptv, result@.children, dtv.len() as int);
                assert(maps_ok(target@, provided@, result@));
            }
            Ok(result)
        },
        (PrestoTy::Row(dfs), PrestoTy::Row(pfs)) => {
            let ghost dfv = row_views(*dfs, dfs@.len() as int);
            let ghost pfv = row_views(*pfs, pfs@.len() as int);
            proof {
                lemma_row_views(*dfs, dfs@.len() as int);
                lemma_row_views(*pfs, pfs@.len() as int);
            }
            if dfs.len() != pfs.len() {
                return Err(Error::InvalidPrestoType);
            }
            proof {
                lemma_compatible_row(dfv, pfv, pfv.len() as int);
            }
            let n = pfs.len();
            // provided field names must be unique for the match to be a
            // permutation
            let mut i: usize = 0;
            while i < n
                invariant
                    i <= n,
                    forall|a: int, b: int| 0 <= a < b < i ==> pfv[a].0 != pfv[b].0,
                decreases n - i,
            {
                let f = find_field(pfs, pfs[i].0.as_str());
                proof {
                    lemma_find_name_from(pfv, pfv[i as int].0, 0);
                }
                if f != i {
                    proof {
                        assert(find_name(pfv, pfv[i as int].0) < i);
                        let a = find_name(pfv, pfv[i as int].0);
                        assert(pfv[a].0 == pfv[i as int].0);
                    }
                    return Err(Error::InvalidPrestoType);
                }
                proof {
                    assert forall|a: int| 0 <= a < i implies pfv[a].0 != pfv[i as int].0 by {
                        if pfv[a].0 == pfv[i as int].0 {
                            assert(find_name(pfv, pfv[i as int].0) <= a);
                        }
                    }
                }
                i = i + 1;
            }
            // declared field names must be unique, and each must occur in
            // the provided row
            let mut i: usize = 0;
            while i < n
                invariant
                    i <= n,
                    forall|a: int, b: int| 0 <= a < b < i ==> dfv[a].0 != dfv[b].0,
                    forall|a: int| 0 <= a < i ==> find_name(pfv, #[trigger] dfv[a].0)
                        < pfv.len(),
                decreases n - i,
            {
                let f = find_field(dfs, dfs[i].0.as_str());
                proof {
                    lemma_find_name_from(dfv, dfv[i as int].0, 0);
                }
                if f != i {
                    proof {
                        assert(find_name(dfv, dfv[i as int].0) < i);
                        let a = find_name(dfv, dfv[i as int].0);
                        assert(dfv[a].0 == dfv[i as int].0);
                    }
                    return Err(Error::InvalidPrestoType);
                }
                proof {
                    assert forall|a: int| 0 <= a < i implies dfv[a].0 != dfv[i as int].0 by {
                        if dfv[a].0 == dfv[i as int].0 {
                            assert(find_name(dfv, dfv[i as int].0) <= a);
                        }
                    }
                }
                let g = find_field(pfs, dfs[i].0.as_str());
                if g == n {
                    return Err(Error::InvalidPrestoType);
                }
                i = i + 1;
            }
            let mut children: Vec<RowMaps> = Vec::new();
            let mut perm: Vec<usize> = Vec::new();
            let mut i: usize = 0;
            while i < n
                invariant
                    i <= n,
                    children@.len() == i,
                    perm@.len() == i,
                    forall|j: int| 0 <= j < i ==> {
                        let f = find_name(dfv, #[trigger] pfv[j].0);
                        &&& f < dfv.len()
                        &&& perm@[j] == f as usize
                        &&& compatible(dfv[f].1, pfv[j].1)
                        &&& maps_ok(dfv[f].1, pfv[j].1, children@[j]@)
                    },
                decreases n - i,
            {
                let f = find_field(dfs, pfs[i].0.as_str());
                proof {
                    lemma_find_name_from(dfv, pfv[i as int].0, 0);
                }
                if f == dfs.len() {
                    return Err(Error::InvalidPrestoType);
                }
                proof {
                    vstd::std_specs::vec::axiom_vec_index_decreases(*dfs, f as int);
                }
                match extract(&dfs[f].1, &pfs[i].1) {
                    Ok(c) => {
                        children.push(c);
                        perm.push(f);
                    },
                    Err(_) => {
                        return Err(Error::InvalidPrestoType);
                    },
                }
                i = i + 1;
            }
            let result = RowMaps { row_map: Some(perm), children };
            proof {
                lemma_maps_views(result.children, result.children@.len() as int);
                lemma_maps_ok_row(dfv, pfv, result@.children, pfv.len() as int);
                assert forall|j: int| 0 <= j < n implies find_name(dfv, #[trigger] pfv[j].0)
                    < dfv.len() && dfv[find_name(dfv, pfv[j].0)].0 == pfv[j].0 by {
                    lemma_find_name_from(dfv, pfv[j].0, 0);
                }
                assert(result@.row_map matches Some(pm) && pm =~= row_perm(dfv, pfv));
                assert(perm_ok(dfv, pfv, row_perm(dfv, pfv))) by {
                    assert forall|k: int| 0 <= k < pfv.len() implies
                        #[trigger] row_perm(dfv, pfv)[k] < dfv.len()
                        && dfv[row_perm(dfv, pfv)[k] as int].0 == pfv[k].0 by {
                        lemma_find_name_from(dfv, pfv[k].0, 0);
                        assert(row_perm(dfv, pfv)[k] == find_name(dfv, pfv[k].0) as usize);
                    }
                }
                assert(maps_ok_row(dfv, pfv, result@.children, pfv.len() as int));
                assert(maps_ok(target@, provided@, result@));
            }
            Ok(result)
        },
        (PrestoTy::Array(d2), PrestoTy::Array(p2)) => {
            match extract(d2, p2) {
                Ok(c) => {
                    let mut children: Vec<RowMaps> = Vec::new();
                    children.push(c);
                    let result = RowMaps { row_map: None, children };
                    proof {
                        lemma_maps_views(result.children, 1);
                        assert(maps_ok(target@, provided@, result@));
                    }
                    Ok(result)
                },
                Err(_) => Err(Error::InvalidPrestoType),
            }
        },
        (PrestoTy::Mapping(dk, dv), PrestoTy::Mapping(pk, pv)) => {
            match extract(dk, pk) {
                Ok(ck) => match extract(dv, pv) {
                    Ok(cv) => {
                        let mut children: Vec<RowMaps> = Vec::new();
                        children.push(ck);
                        children.push(cv);
                        let result = RowMaps { row_map: None, children };
                        proof {
                            lemma_maps_views(result.children, 2);
                            assert(maps_ok(target@, provided@, result@));
                        }
                        Ok(result)
                    },
                    Err(_) => Err(Error::InvalidPrestoType),
                },
                Err(_) => Err(Error::InvalidPrestoType),
            }
        },
        (PrestoTy::IpAddress, PrestoTy::IpAddress) => Ok(leaf_maps()),
        (PrestoTy::Uuid, PrestoTy::Uuid) => Ok(leaf_maps()),
        (PrestoTy::Json, PrestoTy::Json) => Ok(leaf_maps()),
        _ => Err(Error::InvalidPrestoType),
    }
}


/// The provided-side child type reached by narrowing to component `i`.
pub open spec fn child_ty_of(p: TyV, i: int) -> Option<TyV> {
    match p {
        TyV::Array(inner) => if i == 0 {
            Some(*inner)
        } else {
            None
        },
        TyV::Mapping(k, v) => if i == 0 {
            Some(*k)
        } else if i == 1 {
            Some(*v)
        } else {
            None
        },
        TyV::Row(pf) => if 0 <= i < pf.len() {
            Some(pf[i].1)
        } else {
            None
        },
        TyV::Tuple(pt) => if 0 <= i < pt.len() {
            Some(pt[i])
        } else {
            None
        },
        _ => None,
    }
}

/// The declared-side counterpart of provided component `i`: for a row, the
/// declared field that the provided field's name selects; `Unknown` whenever
/// the declared side makes no claim.
pub open spec fn child_decl(d: TyV, p: TyV, i: int) -> TyV
    decreases d,
{
    match (d, p) {
        (TyV::Optional(d2), _) => child_decl(*d2, p, i),
        (TyV::Array(d2), TyV::Array(_)) => *d2,
        (TyV::Mapping(dk, dv), TyV::Mapping(_, _)) => if i == 0 {
            *dk
        } else {
            *dv
        },
        (TyV::Tuple(dt), TyV::Tuple(_)) => if 0 <= i < dt.len() {
            dt[i]
        } else {
            TyV::Unknown
        },
        (TyV::Row(df), TyV::Row(pf)) => if 0 <= i < pf.len()
            && find_name(df, pf[i].0) < df.len() {
            df[find_name(df, pf[i].0)].1
        } else {
            TyV::Unknown
        },
        _ => TyV::Unknown,
    }
}

/// Narrowing a well-formed maps node to one component keeps it well formed.
pub proof fn lemma_maps_ok_child(d: TyV, p: TyV, m: RowMapsV, i: int, c: TyV)
    requires
        maps_ok(d, p, m),
        child_ty_of(p, i) == Some(c),
        0 <= i < m.children.len(),
    ensures
        maps_ok(child_decl(d, p, i), c, m.children[i]),
    decreases d,
{
    match d {
        TyV::Optional(d2) => {
            lemma_maps_ok_child(*d2, p, m, i, c);
        },
        TyV::Tuple(dt) => {
            match p {
                TyV::Tuple(pt) => {
                    lemma_maps_ok_tuple(dt, pt, m.children, dt.len() as int);
                    if !(0 <= i < dt.len()) {
                        assert(child_decl(d, p, i) == TyV::Unknown);
                    }
                },
                _ => {},
            }
        },
        TyV::Row(df) => {
            match p {
                TyV::Row(pf) => {
                    lemma_maps_ok_row(df, pf, m.children, pf.len() as int);
                    lemma_find_name_from(df, pf[i].0, 0);
                },
                _ => {},
            }
        },
        _ => {},
    }
}

/// The narrowable binding of the wire-type node currently being decoded to
/// the permutation tables computed during reconciliation.
pub struct Context<'a> {
    pub ty: &'a PrestoTy,
    pub maps: &'a RowMaps,
    pub decl: Ghost<TyV>,
}

impl<'a> Context<'a> {
    /// The declared type this context was reconciled against.
    pub open spec fn spec_decl(self) -> TyV {
        self.decl@
    }

    /// The provided type node this context points at.
    pub open spec fn spec_ty(self) -> TyV {
        self.ty@
    }

    /// The maps node this context points at.
    pub open spec fn spec_maps(self) -> RowMapsV {
        self.maps@
    }

    /// A context is well formed when its maps carry exactly the permutation
    /// tables of its declared type against its provided type.
    pub open spec fn wf(self) -> bool {
        maps_ok(self.decl@, self.ty@, self.maps@)
    }

    /// Binds a provided type to the tables that reconciling `target` against
    /// it produced.
    pub fn new(target: &PrestoTy, provided: &'a PrestoTy, maps: &'a RowMaps) -> (r: Self)
        ensures
            r.spec_ty() == provided@,
            r.spec_decl() == target@,
            r.spec_maps() == maps@,
    {
        Context { ty: provided, maps, decl: Ghost(target@) }
    }

    /// The provided type node this context points at.
    pub fn ty(&self) -> (r: &'a PrestoTy)
        ensures
            r@ == self.spec_ty(),
    {
        self.ty
    }

    /// The permutation table recorded for this node, when it is a row node
    /// that reconciliation reached.
    pub fn row_map(&self) -> (r: Option<&'a Vec<usize>>)
        ensures
            match r {
                Some(m) => self.spec_maps().row_map == Some(m@),
                None => self.spec_maps().row_map is None,
            },
    {
        match &self.maps.row_map {
            Some(m) => Some(m),
            None => None,
        }
    }

    /// Narrows this context to component `i` of its provided type, when both
    /// the type node and the maps node have such a component.
    pub fn with_ty(&self, i: usize) -> (r: Option<Context<'a>>)
        ensures
            r matches Some(c) ==> child_ty_of(self.spec_ty(), i as int) == Some(c.spec_ty())
                && c.spec_decl() == child_decl(self.spec_decl(), self.spec_ty(), i as int)
                && c.spec_maps() == self.spec_maps().children[i as int]
                && (self.wf() ==> c.wf()),
            (child_ty_of(self.spec_ty(), i as int) is Some
                && i < self.spec_maps().children.len()) ==> r is Some,
    {
        proof {
            lemma_maps_views(self.maps.children, self.maps.children@.len() as int);
        }
        let child_ty: &'a PrestoTy = match self.ty {
            PrestoTy::Array(inner) => {
                if i == 0 {
                    &**inner
                } else {
                    return None;
                }
            },
            PrestoTy::Mapping(k, v) => {
                if i == 0 {
                    &**k
                } else if i == 1 {
                    &**v
                } else {
                    return None;
                }
            },
            PrestoTy::Row(fields) => {
                proof {
                    lemma_row_views(*fields, fields@.len() as int);
                }
                if i < fields.len() {
                    &fields[i].1
                } else {
                    return None;
                }
            },
            PrestoTy::Tuple(ts) => {
                proof {
                    lemma_tuple_views(*ts, ts@.len() as int);
                }
                if i < ts.len() {
                    &ts[i]
                } else {
                    return None;
                }
            },
            _ => {
                return None;
            },
        };
        if i < self.maps.children.len() {
            let ghost cd = child_decl(self.decl@, self.ty@, i as int);
            let c = Context {
                ty: child_ty,
                maps: &self.maps.children[i],
                decl: Ghost(cd),
            };
            proof {
                if self.wf() {
                    lemma_maps_ok_child(self.decl@, self.ty@, self.maps@, i as int, child_ty@);
                }
            }
            Some(c)
        } else {
            None
        }
    }
}

} // verus!
