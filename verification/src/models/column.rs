use vstd::prelude::*;
use super::ty::RawPrestoTy;

verus! {

/// One column of a result page: its name, its full textual type, and the
/// structured type signature when the service sent one.
#[derive(Debug)]
pub struct Column {
    pub name: String,
    pub ty: String,
    pub type_signature: Option<TypeSignature>,
}

/// A structured wire type: a raw type name plus its arguments.
#[derive(Debug)]
pub struct TypeSignature {
    pub raw_type: RawPrestoTy,
    pub arguments: Vec<ClientTypeSignatureParameter>,
}

/// A signature argument that may carry a field name, used for row fields.
#[derive(Debug)]
pub struct NamedTypeSignature {
    pub field_name: Option<RowFieldName>,
    pub type_signature: TypeSignature,
}

/// The name of one row field.
#[derive(Debug)]
pub struct RowFieldName {
    pub name: String,
}

/// One argument of a type signature: a nested signature, a named nested
/// signature, or an integer bound.
#[derive(Debug)]
pub enum ClientTypeSignatureParameter {
    TypeSignature(TypeSignature),
    NamedTypeSignature(NamedTypeSignature),
    LongLiteral(u64),
}

/// Model of a [`TypeSignature`].
#[verifier::ext_equal]
pub struct TypeSignatureV {
    pub raw_type: RawPrestoTy,
    pub arguments: Seq<ParamV>,
}

/// Model of a [`NamedTypeSignature`].
#[verifier::ext_equal]
pub struct NamedTypeSignatureV {
    pub field_name: Option<Seq<char>>,
    pub type_signature: TypeSignatureV,
}

/// Model of a [`ClientTypeSignatureParameter`].
#[verifier::ext_equal]
pub enum ParamV {
    TypeSignature(TypeSignatureV),
    NamedTypeSignature(NamedTypeSignatureV),
    LongLiteral(u64),
}

/// Model of a [`Column`].
#[verifier::ext_equal]
pub struct ColumnV {
    pub name: Seq<char>,
    pub ty: Seq<char>,
    pub type_signature: Option<TypeSignatureV>,
}

/// Models of the first `n` arguments of a signature.
pub open spec fn param_views(args: Vec<ClientTypeSignatureParameter>, n: int) -> Seq<ParamV>
    decreases args, n,
{
    if n <= 0 || n > args@.len() {
        Seq::empty()
    } else {
        proof {
            vstd::std_specs::vec::axiom_vec_index_decreases(args, n - 1);
        }
        param_views(args, n - 1).push(args@[n - 1]@)
    }
}

impl View for TypeSignature {
    type V = TypeSignatureV;

    open spec fn view(&self) -> TypeSignatureV
        decreases self, 0int,
    {
        TypeSignatureV {
            raw_type: self.raw_type,
            arguments: param_views(self.arguments, self.arguments@.len() as int),
        }
    }
}

impl View for NamedTypeSignature {
    type V = NamedTypeSignatureV;

    open spec fn view(&self) -> NamedTypeSignatureV
        decreases self, 0int,
    {
        NamedTypeSignatureV {
            field_name: match &self.field_name {
                Some(f) => Some(f.name@),
                None => None,
            },
            type_signature: self.type_signature@,
        }
    }
}

impl View for ClientTypeSignatureParameter {
    type V = ParamV;

    open spec fn view(&self) -> ParamV
        decreases self, 0int,
    {
        match self {
            ClientTypeSignatureParameter::TypeSignature(s) => ParamV::TypeSignature(s@),
            ClientTypeSignatureParameter::NamedTypeSignature(s) => ParamV::NamedTypeSignature(s@),
            ClientTypeSignatureParameter::LongLiteral(v) => ParamV::LongLiteral(*v),
        }
    }
}

impl View for Column {
    type V = ColumnV;

    open spec fn view(&self) -> ColumnV {
        ColumnV {
            name: self.name@,
            ty: self.ty@,
            type_signature: match &self.type_signature {
                Some(s) => Some(s@),
                None => None,
            },
        }
    }
}

/// The model of a signature's argument list indexes argument models in order.
pub proof fn lemma_param_views(args: Vec<ClientTypeSignatureParameter>, n: int)
    requires
        0 <= n <= args@.len(),
    ensures
        param_views(args, n).len() == n,
        forall|i: int| 0 <= i < n ==> param_views(args, n)[i] == args@[i]@,
    decreases n,
{
    if n > 0 {
        lemma_param_views(args, n - 1);
        assert(param_views(args, n) == param_views(args, n - 1).push(args@[n - 1]@));
        assert forall|i: int| 0 <= i < n implies param_views(args, n)[i] == args@[i]@ by {
            if i < n - 1 {
                assert(param_views(args, n)[i] == param_views(args, n - 1)[i]);
            }
        }
    } else {
        assert(param_views(args, n).len() == 0);
    }
}

impl TypeSignature {
    /// Builds a signature from a raw type and its arguments.
    pub fn new(raw_type: RawPrestoTy, arguments: Vec<ClientTypeSignatureParameter>) -> (r: Self)
        ensures
            r@.raw_type == raw_type,
            r@.arguments == param_views(arguments, arguments@.len() as int),
    {
        TypeSignature { raw_type, arguments }
    }
}

impl RowFieldName {
    /// Wraps a field name.
    pub fn new(name: String) -> (r: Self)
        ensures
            r.name@ == name@,
    {
        RowFieldName { name }
    }
}

} // verus!
