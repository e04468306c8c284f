use vstd::prelude::*;

verus! {

/// How the client authenticates: basic authentication with a user name and
/// an optional password.
pub enum Auth {
    Basic(String, Option<String>),
}

impl Auth {
    /// Basic authentication from a user name and an optional password.
    pub fn new_basic(username: String, password: Option<String>) -> (r: Auth)
        ensures
            r matches Auth::Basic(u, p) && u@ == username@
                && (p matches Some(pw) ==> password matches Some(pw2) && pw@ == pw2@)
                && (p is None <==> password is None),
    {
        Auth::Basic(username, password)
    }
}

} // verus!
