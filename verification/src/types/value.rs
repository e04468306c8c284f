use vstd::prelude::*;

verus! {

/// A wire token tree: the dynamically typed payload shape the query service
/// sends and receives.  Rows arrive as arrays, maps as objects; every number
/// is either an integer or an IEEE-754 double carried by its bit pattern, so
/// that the decoding engine never performs floating-point arithmetic.
#[derive(Debug)]
pub enum Value {
    Null,
    Bool(bool),
    /// An integer token that fits in `i64`.
    Int(i64),
    /// An integer token above `i64::MAX`.
    UInt(u64),
    /// A floating-point token, carried as the bit pattern of an `f64`.
    Real(u64),
    Text(String),
    Array(Vec<Value>),
    /// An object: ordered key/value entries, keys as they appeared on the wire.
    Object(Vec<(String, Value)>),
}

/// The mathematical model of a [`Value`]: integers are unbounded, text is a
/// sequence of characters, and both integer variants collapse into one.
#[verifier::ext_equal]
pub enum ValueV {
    Null,
    Bool(bool),
    Int(int),
    Real(u64),
    Text(Seq<char>),
    Array(Seq<ValueV>),
    Object(Seq<(Seq<char>, ValueV)>),
}

/// Models of the first `n` elements of an array's items.
pub open spec fn array_views(items: Vec<Value>, n: int) -> Seq<ValueV>
    decreases items, n,
{
    if n <= 0 || n > items@.len() {
        Seq::empty()
    } else {
        proof {
            vstd::std_specs::vec::axiom_vec_index_decreases(items, n - 1);
        }
        array_views(items, n - 1).push(items@[n - 1]@)
    }
}

/// Models of the first `n` entries of an object's key/value entries.
pub open spec fn object_views(entries: Vec<(String, Value)>, n: int) -> Seq<(Seq<char>, ValueV)>
    decreases entries, n,
{
    if n <= 0 || n > entries@.len() {
        Seq::empty()
    } else {
        proof {
            vstd::std_specs::vec::axiom_vec_index_decreases(entries, n - 1);
        }
        object_views(entries, n - 1).push((entries@[n - 1].0@, entries@[n - 1].1@))
    }
}

impl View for Value {
    type V = ValueV;

    open spec fn view(&self) -> ValueV
        decreases self, 0int,
    {
        match self {
            Value::Null => ValueV::Null,
            Value::Bool(b) => ValueV::Bool(*b),
            Value::Int(i) => ValueV::Int(*i as int),
            Value::UInt(u) => ValueV::Int(*u as int),
            Value::Real(bits) => ValueV::Real(*bits),
            Value::Text(s) => ValueV::Text(s@),
            Value::Array(items) => ValueV::Array(array_views(*items, items@.len() as int)),
            Value::Object(entries) => ValueV::Object(
                object_views(*entries, entries@.len() as int),
            ),
        }
    }
}

/// The model of an array value indexes element models in element order.
pub proof fn lemma_array_views(items: Vec<Value>, n: int)
    requires
        0 <= n <= items@.len(),
    ensures
        array_views(items, n).len() == n,
        forall|i: int| 0 <= i < n ==> array_views(items, n)[i] == items@[i]@,
    decreases n,
{
    if n > 0 {
        lemma_array_views(items, n - 1);
        assert(array_views(items, n) == array_views(items, n - 1).push(items@[n - 1]@));
        assert(array_views(items, n).len() == n);
        assert forall|i: int| 0 <= i < n implies array_views(items, n)[i] == items@[i]@ by {
            if i < n - 1 {
                assert(array_views(items, n)[i] == array_views(items, n - 1)[i]);
            }
        }
    } else {
        assert(array_views(items, n).len() == 0);
    }
}

/// The model of an object value indexes entry models in entry order.
pub proof fn lemma_object_views(entries: Vec<(String, Value)>, n: int)
    requires
        0 <= n <= entries@.len(),
    ensures
        object_views(entries, n).len() == n,
        forall|i: int| 0 <= i < n ==> object_views(entries, n)[i]
            == (entries@[i].0@, entries@[i].1@),
    decreases n,
{
    if n > 0 {
        lemma_object_views(entries, n - 1);
        assert(object_views(entries, n)
            == object_views(entries, n - 1).push((entries@[n - 1].0@, entries@[n - 1].1@)));
        assert(object_views(entries, n).len() == n);
        assert forall|i: int| 0 <= i < n implies object_views(entries, n)[i]
            == (entries@[i].0@, entries@[i].1@) by {
            if i < n - 1 {
                assert(object_views(entries, n)[i] == object_views(entries, n - 1)[i]);
            }
        }
    } else {
        assert(object_views(entries, n).len() == 0);
    }
}

impl Value {
    /// An exact copy: the result has the same model as the source value.
    #[verifier::loop_isolation(false)]
    pub fn dup(&self) -> (out: Self)
        ensures
            out@ == self@,
        decreases self,
    {
        match self {
            Value::Null => Value::Null,
            Value::Bool(b) => Value::Bool(*b),
            Value::Int(i) => Value::Int(*i),
            Value::UInt(u) => Value::UInt(*u),
            Value::Real(bits) => Value::Real(*bits),
            Value::Text(s) => Value::Text(s.clone()),
            Value::Array(items) => {
                let mut out: Vec<Value> = Vec::new();
                let mut i: usize = 0;
                while i < items.len()
                    invariant
                        i <= items.len(),
                        out@.len() == i as nat,
                        forall|j: int| 0 <= j < i ==> out@[j]@ == items@[j]@,
                    decreases items.len() - i,
                {
                    proof {
                        vstd::std_specs::vec::axiom_vec_index_decreases(*items, i as int);
                    }
                    out.push(items[i].dup());
                    i = i + 1;
                }
                let result = Value::Array(out);
                proof {
                    lemma_array_views(out, out@.len() as int);
                    lemma_array_views(*items, items@.len() as int);
                    assert(array_views(out, out@.len() as int)
                        =~= array_views(*items, items@.len() as int));
                }
                result
            },
            Value::Object(entries) => {
                let mut out: Vec<(String, Value)> = Vec::new();
                let mut i: usize = 0;
                while i < entries.len()
                    invariant
                        i <= entries.len(),
                        out@.len() == i as nat,
                        forall|j: int| 0 <= j < i ==> out@[j].0@ == entries@[j].0@
                            && out@[j].1@ == entries@[j].1@,
                    decreases entries.len() - i,
                {
                    proof {
                        vstd::std_specs::vec::axiom_vec_index_decreases(*entries, i as int);
                    }
                    out.push((entries[i].0.clone(), entries[i].1.dup()));
                    i = i + 1;
                }
                let result = Value::Object(out);
                proof {
                    lemma_object_views(out, out@.len() as int);
                    lemma_object_views(*entries, entries@.len() as int);
                    assert(object_views(out, out@.len() as int)
                        =~= object_views(*entries, entries@.len() as int));
                }
                result
            },
        }
    }
}

} // verus!
