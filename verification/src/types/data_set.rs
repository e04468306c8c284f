use vstd::prelude::*;
use super::super::types::{PrestoTy, TyV, Error, Value, ValueV, Context, extract,
    row_views, tuple_views, lemma_row_views, lemma_tuple_views, array_views,
    compatible, find_name, lemma_find_name_from, str_eq, spec_decode, decode_value, DecodeError,
    full_name, sig_of_ty};
use super::super::models::Column;

verus! {

/// Why a whole page failed to decode: the provided schema does not fit the
/// declared type at all, or one token of one row does not fit.
#[derive(Debug, PartialEq, Eq)]
pub enum PageError {
    SchemaMismatch,
    Decode(DecodeError),
}

/// Model-level equality of two wire types, decided executably.
#[verifier::loop_isolation(false)]
#[verifier::rlimit(60)]
#[verifier::spinoff_prover]
pub fn ty_eq(a: &PrestoTy, b: &PrestoTy) -> (r: bool)
    ensures
        r <==> a@ == b@,
    decreases a,
{
    match (a, b) {
        (PrestoTy::Date, PrestoTy::Date) => true,
        (PrestoTy::Time, PrestoTy::Time) => true,
        (PrestoTy::Timestamp, PrestoTy::Timestamp) => true,
        (PrestoTy::Uuid, PrestoTy::Uuid) => true,
        (PrestoTy::IntervalYearToMonth, PrestoTy::IntervalYearToMonth) => true,
        (PrestoTy::IntervalDayToSecond, PrestoTy::IntervalDayToSecond) => true,
        (PrestoTy::Optional(x), PrestoTy::Optional(y)) => ty_eq(x, y),
        (PrestoTy::Boolean, PrestoTy::Boolean) => true,
        (PrestoTy::PrestoInt(x), PrestoTy::PrestoInt(y)) => x == y,
        (PrestoTy::PrestoFloat(x), PrestoTy::PrestoFloat(y)) => x == y,
        (PrestoTy::Varchar, PrestoTy::Varchar) => true,
        (PrestoTy::Char(x), PrestoTy::Char(y)) => x == y,
        (PrestoTy::Tuple(xs), PrestoTy::Tuple(ys)) => {
            let ghost xv = tuple_views(*xs, xs@.len() as int);
            let ghost yv = tuple_views(*ys, ys@.len() as int);
            proof {
                lemma_tuple_views(*xs, xs@.len() as int);
                lemma_tuple_views(*ys, ys@.len() as int);
            }
            if xs.len() != ys.len() {
                return false;
            }
            let mut i: usize = 0;
            while i < xs.len()
                invariant
                    i <= xs.len(),
                    xs@.len() == ys@.len(),
                    forall|j: int| 0 <= j < i ==> xv[j] == yv[j],
                decreases xs.len() - i,
            {
                proof {
                    vstd::std_specs::vec::axiom_vec_index_decreases(*xs, i as int);
                }
                if !ty_eq(&xs[i], &ys[i]) {
                    proof {
                        assert(xv[i as int] != yv[i as int]);
                        assert(xv != yv);
                    }
                    return false;
                }
                i = i + 1;
            }
            proof {
                assert(xv =~= yv);
            }
            true
        },
        (PrestoTy::Row(xs), PrestoTy::Row(ys)) => {
            let ghost xv = row_views(*xs, xs@.len() as int);
            let ghost yv = row_views(*ys, ys@.len() as int);
            proof {
                lemma_row_views(*xs, xs@.len() as int);
                lemma_row_views(*ys, ys@.len() as int);
            }
            if xs.len() != ys.len() {
                return false;
            }
            let mut i: usize = 0;
            while i < xs.len()
                invariant
                    i <= xs.len(),
                    xs@.len() == ys@.len(),
                    forall|j: int| 0 <= j < i ==> xv[j].0 == yv[j].0 && xv[j].1 == yv[j].1,
                decreases xs.len() - i,
            {
                proof {
                    vstd::std_specs::vec::axiom_vec_index_decreases(*xs, i as int);
                }
                if !str_eq(xs[i].0.as_str(), ys[i].0.as_str()) {
                    proof {
                        assert(xv[i as int].0 != yv[i as int].0);
                        assert(xv[i as int] != yv[i as int]);
                        assert(xv != yv);
                    }
                    return false;
                }
                if !ty_eq(&xs[i].1, &ys[i].1) {
                    proof {
                        assert(xv[i as int].1 != yv[i as int].1);
                        assert(xv[i as int] != yv[i as int]);
                        assert(xv != yv);
                    }
                    return false;
                }
                i = i + 1;
            }
            proof {
                assert(xv =~= yv);
            }
            true
        },
        (PrestoTy::Array(x), PrestoTy::Array(y)) => ty_eq(x, y),
        (PrestoTy::Mapping(xk, xv2), PrestoTy::Mapping(yk, yv2)) => {
            ty_eq(xk, yk) && ty_eq(xv2, yv2)
        },
        (PrestoTy::Decimal(xp, xs2), PrestoTy::Decimal(yp, ys2)) => xp == yp && xs2 == ys2,
        (PrestoTy::IpAddress, PrestoTy::IpAddress) => true,
        (PrestoTy::Json, PrestoTy::Json) => true,
        (PrestoTy::Unknown, PrestoTy::Unknown) => true,
        _ => false,
    }
}

/// Models of the first `n` rows of a page's data.
pub open spec fn rows_views(data: Vec<Vec<Value>>, n: int) -> Seq<Seq<ValueV>>
    decreases data, n,
{
    if n <= 0 || n > data@.len() {
        Seq::empty()
    } else {
        proof {
            vstd::std_specs::vec::axiom_vec_index_decreases(data, n - 1);
        }
        rows_views(data, n - 1).push(array_views(data@[n - 1], data@[n - 1]@.len() as int))
    }
}

/// The model of a page's data indexes row models in arrival order.
pub proof fn lemma_rows_views(data: Vec<Vec<Value>>, n: int)
    requires
        0 <= n <= data@.len(),
    ensures
        rows_views(data, n).len() == n,
        forall|i: int| 0 <= i < n ==> rows_views(data, n)[i]
            == array_views(data@[i], data@[i]@.len() as int),
    decreases n,
{
    if n > 0 {
        lemma_rows_views(data, n - 1);
        assert forall|i: int| 0 <= i < n implies rows_views(data, n)[i]
            == array_views(data@[i], data@[i]@.len() as int) by {
            if i < n - 1 {
                assert(rows_views(data, n)[i] == rows_views(data, n - 1)[i]);
            }
        }
    }
}

/// Whether two column lists carry the same names and types in the same
/// order.
pub open spec fn cols_equal(a: Seq<(Seq<char>, TyV)>, b: Seq<(Seq<char>, TyV)>) -> bool {
    a.len() == b.len() && (forall|i: int| 0 <= i < a.len()
        ==> (#[trigger] a[i]).0 == b[i].0 && a[i].1 == b[i].1)
}

/// Model of a [`RawDataSet`].
#[verifier::ext_equal]
pub struct RawDataSetV {
    pub columns: Seq<(Seq<char>, TyV)>,
    pub data: Seq<Seq<ValueV>>,
}

/// A schema-agnostic result set: ordered column metadata and the raw rows of
/// one or more pages.
#[derive(Debug)]
pub struct RawDataSet {
    pub columns: Vec<(String, PrestoTy)>,
    pub data: Vec<Vec<Value>>,
}

impl View for RawDataSet {
    type V = RawDataSetV;

    open spec fn view(&self) -> RawDataSetV {
        RawDataSetV {
            columns: row_views(self.columns, self.columns@.len() as int),
            data: rows_views(self.data, self.data@.len() as int),
        }
    }
}

impl RawDataSet {
    /// Pairs column metadata with raw rows.
    pub fn new(columns: Vec<(String, PrestoTy)>, data: Vec<Vec<Value>>) -> (r: Self)
        ensures
            r@.columns == row_views(columns, columns@.len() as int),
            r@.data == rows_views(data, data@.len() as int),
    {
        RawDataSet { columns, data }
    }

    /// The type of the column called `name`, when the set has one.
    #[verifier::loop_isolation(false)]
    pub fn column_ty(&self, name: &str) -> (r: Option<&PrestoTy>)
        ensures
            r matches Some(t) ==> find_name(self@.columns, name@) < self@.columns.len()
                && t@ == self@.columns[find_name(self@.columns, name@)].1,
            r is None ==> find_name(self@.columns, name@) == self@.columns.len(),
    {
        let ghost cv = self@.columns;
        proof {
            lemma_row_views(self.columns, self.columns@.len() as int);
            lemma_find_name_from(cv, name@, 0);
        }
        let n = self.columns.len();
        let mut i: usize = 0;
        while i < n
            invariant
                i <= n,
                forall|j: int| 0 <= j < i ==> cv[j].0 != name@,
            decreases n - i,
        {
            if str_eq(self.columns[i].0.as_str(), name) {
                proof {
                    assert(cv[i as int].0 == name@);
                }
                return Some(&self.columns[i].1);
            }
            i = i + 1;
        }
        None
    }

    /// The column metadata, in wire order.
    pub fn columns(&self) -> (r: &Vec<(String, PrestoTy)>)
        ensures
            row_views(*r, r@.len() as int) == self@.columns,
    {
        &self.columns
    }

    /// Splits the set into the row type its columns form and the raw rows.
    pub fn split(self) -> (r: (PrestoTy, Vec<Vec<Value>>))
        ensures
            r.0@ == TyV::Row(self@.columns),
            rows_views(r.1, r.1@.len() as int) == self@.data,
    {
        let RawDataSet { columns, data } = self;
        (PrestoTy::Row(columns), data)
    }

    /// Whether the set holds no rows.
    pub fn is_empty(&self) -> (r: bool)
        ensures
            r == (self@.data.len() == 0),
    {
        proof {
            lemma_rows_views(self.data, self.data@.len() as int);
        }
        self.data.len() == 0
    }

    /// Appends another page's rows when its column metadata is identical;
    /// with differing metadata the set is left unchanged.
    #[verifier::loop_isolation(false)]
    pub fn merge(&mut self, other: RawDataSet) -> (r: bool)
        ensures
            r <==> cols_equal(old(self)@.columns, other@.columns),
            r ==> final(self)@.columns == old(self)@.columns
                && final(self)@.data == old(self)@.data + other@.data,
            !r ==> final(self)@ == old(self)@,
    {
        let ghost ac = self@.columns;
        let ghost bc = other@.columns;
        proof {
            lemma_row_views(self.columns, self.columns@.len() as int);
            lemma_row_views(other.columns, other.columns@.len() as int);
        }
        if self.columns.len() != other.columns.len() {
            return false;
        }
        let n = self.columns.len();
        let mut i: usize = 0;
        while i < n
            invariant
                i <= n,
                forall|j: int| 0 <= j < i ==> (#[trigger] ac[j]).0 == bc[j].0
                    && ac[j].1 == bc[j].1,
            decreases n - i,
        {
            if !str_eq(self.columns[i].0.as_str(), other.columns[i].0.as_str()) {
                proof {
                    assert(ac[i as int].0 != bc[i as int].0);
                    assert(!cols_equal(ac, bc));
                }
                return false;
            }
            if !ty_eq(&self.columns[i].1, &other.columns[i].1) {
                proof {
                    assert(ac[i as int].1 != bc[i as int].1);
                    assert(!cols_equal(ac, bc));
                }
                return false;
            }
            i = i + 1;
        }
        proof {
            assert(cols_equal(ac, bc));
        }
        let RawDataSet { columns: _, data: mut other_data } = other;
        let ghost other0 = other_data;
        proof {
            lemma_rows_views(self.data, self.data@.len() as int);
            lemma_rows_views(other_data, other_data@.len() as int);
        }
        let m = other_data.len();
        let mut k: usize = 0;
        while k < m
            invariant
                k <= m,
                other_data@.len() == m - k,
                self.data@.len() == old(self).data@.len() + k,
                self.columns == old(self).columns,
                forall|j: int| 0 <= j < old(self).data@.len()
                    ==> #[trigger] self.data@[j] == old(self).data@[j],
                forall|j: int| 0 <= j < k ==> #[trigger] self.data@[old(self).data@.len() + j]
                    == other0@[j],
                forall|j: int| 0 <= j < m - k ==> #[trigger] other_data@[j] == other0@[j + k],
            decreases m - k,
        {
            let row = other_data.remove(0);
            proof {
                assert(row == other0@[k as int]);
            }
            self.data.push(row);
            k = k + 1;
        }
        proof {
            lemma_rows_views(self.data, self.data@.len() as int);
            lemma_rows_views(old(self).data, old(self).data@.len() as int);
            lemma_rows_views(other0, other0@.len() as int);
            let full = rows_views(self.data, self.data@.len() as int);
            let left = rows_views(old(self).data, old(self).data@.len() as int);
            let right = rows_views(other0, other0@.len() as int);
            assert forall|j: int| 0 <= j < self.data@.len() implies full[j]
                == (left + right)[j] by {
                if j < old(self).data@.len() {
                    assert(self.data@[j] == old(self).data@[j]);
                } else {
                    let j2 = j - old(self).data@.len();
                    assert(self.data@[old(self).data@.len() + j2] == other0@[j2]);
                }
            }
            assert(rows_views(self.data, self.data@.len() as int)
                =~= rows_views(old(self).data, old(self).data@.len() as int)
                + rows_views(other0, other0@.len() as int));
            lemma_row_views(self.columns, self.columns@.len() as int);
        }
        true
    }
}

/// Reconciles the declared row type against the provided row type and
/// decodes every row of a page under the resulting permutation tables; a
/// reconciliation failure decodes nothing.
#[verifier::loop_isolation(false)]
pub fn decode_page(declared: &PrestoTy, provided: &PrestoTy, rows: &Vec<Value>)
    -> (r: Result<Vec<Value>, PageError>)
    ensures
        compatible(declared@, provided@) ==> (r is Ok <==> (forall|i: int|
            0 <= i < rows@.len() ==> spec_decode(declared@, provided@,
                (#[trigger] rows@[i])@) is Some)),
        !compatible(declared@, provided@) ==> r == Err::<Vec<Value>, PageError>(
            PageError::SchemaMismatch),
        r matches Ok(out) ==> out@.len() == rows@.len() && (forall|i: int| 0 <= i < rows@.len()
            ==> Some((#[trigger] out@[i])@) == spec_decode(declared@, provided@, rows@[i]@)),
{
    let maps = match extract(declared, provided) {
        Ok(m) => m,
        Err(_) => {
            return Err(PageError::SchemaMismatch);
        },
    };
    let ctx = Context::new(declared, provided, &maps);
    let n = rows.len();
    let mut out: Vec<Value> = Vec::new();
    let mut i: usize = 0;
    while i < n
        invariant
            i <= n,
            out@.len() == i,
            forall|j: int| 0 <= j < i ==> Some((#[trigger] out@[j])@)
                == spec_decode(declared@, provided@, rows@[j]@),
        decreases n - i,
    {
        match decode_value(declared, &ctx, &rows[i]) {
            Ok(x) => {
                out.push(x);
            },
            Err(e) => {
                proof {
                    assert(spec_decode(declared@, provided@, rows@[i as int]@) is None);
                }
                return Err(PageError::Decode(e));
            },
        }
        i = i + 1;
    }
    proof {
        assert forall|j: int| 0 <= j < n implies spec_decode(declared@, provided@,
            (#[trigger] rows@[j])@) is Some by {
            assert(Some((out@[j])@) == spec_decode(declared@, provided@, rows@[j]@));
        }
    }
    Ok(out)
}


impl RawDataSet {
    /// Pairs row-shaped column metadata with raw rows; an empty column list
    /// is rejected, since an empty row cannot be encoded.
    pub fn new_row(columns: Vec<(String, PrestoTy)>, data: Vec<Vec<Value>>)
        -> (r: Result<RawDataSet, Error>)
        ensures
            r is Ok <==> columns@.len() > 0,
            r matches Ok(set) ==> set@.columns == row_views(columns, columns@.len() as int)
                && set@.data == rows_views(data, data@.len() as int),
            r matches Err(e) ==> e == Error::EmptyInPrestoRow,
    {
        if columns.len() == 0 {
            return Err(Error::EmptyInPrestoRow);
        }
        Ok(RawDataSet { columns, data })
    }

    /// Pairs a declared type's row fields with raw rows: the type must be
    /// a row with at least one field, as the wire cannot carry anything
    /// else.
    pub fn from_declared(ty: PrestoTy, data: Vec<Vec<Value>>)
        -> (r: Result<RawDataSet, Error>)
        ensures
            r is Ok <==> (ty@ matches TyV::Row(fields) && fields.len() > 0),
            r matches Ok(set) ==> (ty@ matches TyV::Row(fields)
                && set@.columns == fields
                && set@.data == rows_views(data, data@.len() as int)),
            r matches Err(e) ==> (ty@ is Row ==> e == Error::EmptyInPrestoRow)
                && (!(ty@ is Row) ==> e == Error::NonePrestoRow),
    {
        match ty {
            PrestoTy::Row(columns) => {
                proof {
                    lemma_row_views(columns, columns@.len() as int);
                }
                if columns.len() == 0 {
                    return Err(Error::EmptyInPrestoRow);
                }
                Ok(RawDataSet { columns, data })
            },
            _ => Err(Error::NonePrestoRow),
        }
    }

    /// The column metadata rendered for the wire: each column's name, its
    /// full textual type, and its structured signature.
    #[verifier::loop_isolation(false)]
    pub fn columns_meta(&self) -> (r: Vec<Column>)
        ensures
            r@.len() == self@.columns.len(),
            forall|i: int| 0 <= i < r@.len() ==> (#[trigger] r@[i])@.name
                == self@.columns[i].0 && r@[i]@.ty == full_name(self@.columns[i].1)
                && r@[i]@.type_signature == Some(sig_of_ty(self@.columns[i].1)),
    {
        let ghost cv = self@.columns;
        proof {
            lemma_row_views(self.columns, self.columns@.len() as int);
        }
        let n = self.columns.len();
        let mut out: Vec<Column> = Vec::new();
        let mut i: usize = 0;
        while i < n
            invariant
                i <= n,
                out@.len() == i,
                forall|j: int| 0 <= j < i ==> (#[trigger] out@[j])@.name == cv[j].0
                    && out@[j]@.ty == full_name(cv[j].1)
                    && out@[j]@.type_signature == Some(sig_of_ty(cv[j].1)),
            decreases n - i,
        {
            let col = Column {
                name: self.columns[i].0.clone(),
                ty: self.columns[i].1.full_type(),
                type_signature: Some(self.columns[i].1.to_sig()),
            };
            out.push(col);
            i = i + 1;
        }
        out
    }
}

} // verus!
