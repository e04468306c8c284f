use vstd::prelude::*;
use crate::types::str_eq;

verus! {

/// The transaction header value a request carries.
#[derive(Clone, Copy, Debug, PartialEq, Eq, Structural)]
pub enum TransactionId {
    NoTransaction,
    StartTransaction,
    RollBack,
    Commit,
}

/// The header spelling of each transaction id.
pub open spec fn transaction_text(t: TransactionId) -> Seq<char> {
    match t {
        TransactionId::NoTransaction => "NONE"@,
        TransactionId::StartTransaction => "START TRANSACTION"@,
        TransactionId::RollBack => "ROLLBACK"@,
        TransactionId::Commit => "COMMIT"@,
    }
}

impl TransactionId {
    /// The header spelling of this id.
    pub fn to_str(&self) -> (r: &'static str)
        ensures
            r@ == transaction_text(*self),
    {
        match *self {
            TransactionId::NoTransaction => "NONE",
            TransactionId::StartTransaction => "START TRANSACTION",
            TransactionId::RollBack => "ROLLBACK",
            TransactionId::Commit => "COMMIT",
        }
    }

    /// Parses a header spelling; `None` for any other text.
    pub fn from_str(s: &str) -> (r: Option<Self>)
        ensures
            r matches Some(t) ==> s@ == transaction_text(t),
            r is None ==> s@ != transaction_text(TransactionId::NoTransaction)
                && s@ != transaction_text(TransactionId::StartTransaction)
                && s@ != transaction_text(TransactionId::RollBack)
                && s@ != transaction_text(TransactionId::Commit),
    {
        if str_eq(s, "NONE") {
            Some(TransactionId::NoTransaction)
        } else if str_eq(s, "START TRANSACTION") {
            Some(TransactionId::StartTransaction)
        } else if str_eq(s, "ROLLBACK") {
            Some(TransactionId::RollBack)
        } else if str_eq(s, "COMMIT") {
            Some(TransactionId::Commit)
        } else {
            None
        }
    }
}

impl Default for TransactionId {
    /// Outside a transaction until one is started.
    fn default() -> (r: Self)
        ensures
            r == TransactionId::NoTransaction,
    {
        TransactionId::NoTransaction
    }
}

} // verus!
