use vstd::prelude::*;
use crate::types::str_eq;

verus! {

/// The kind of a selected role: a named role, all roles, or none.
#[derive(Debug, PartialEq, Eq, Structural)]
pub enum RoleType {
    Role,
    All,
    NoRole,
}

/// A role selection, as carried in session headers: a kind and, for a named
/// role, the role's name.
#[derive(Debug, PartialEq, Eq)]
pub struct SelectedRole {
    pub ty: RoleType,
    pub role: Option<String>,
}

/// The keyword naming each role kind.
pub open spec fn role_keyword(t: RoleType) -> Seq<char> {
    match t {
        RoleType::Role => "ROLE"@,
        RoleType::All => "ALL"@,
        RoleType::NoRole => "NONE"@,
    }
}

/// The header rendering of a selection: the keyword, with a named role's
/// name in braces.
pub open spec fn role_render(t: RoleType, role: Option<Seq<char>>) -> Seq<char> {
    match role {
        Some(r) => role_keyword(t) + "{"@ + r + "}"@,
        None => role_keyword(t),
    }
}

/// Whether `s` is `kw` alone or `kw{...}`, for a given keyword text.
pub open spec fn role_text_matches(s: Seq<char>, kw: Seq<char>) -> bool {
    s == kw || (s.len() >= kw.len() + 2 && s.subrange(0, kw.len() as int) == kw
        && s[kw.len() as int] == '{' && s[s.len() - 1] == '}')
}

/// The braced part of `kw{...}`.
pub open spec fn role_text_inner(s: Seq<char>, kw: Seq<char>) -> Seq<char> {
    s.subrange(kw.len() as int + 1, s.len() - 1)
}

impl RoleType {
    /// The keyword naming this kind.
    pub fn to_str(&self) -> (r: &'static str)
        ensures
            r@ == role_keyword(*self),
    {
        match *self {
            RoleType::Role => "ROLE",
            RoleType::All => "ALL",
            RoleType::NoRole => "NONE",
        }
    }
}

/// Whether `s` begins with keyword `kw` followed by `{`, ends with `}`, and
/// is long enough to hold both braces.
fn matches_braced(s: &str, kw: &str) -> (r: bool)
    ensures
        r == (s@.len() >= kw@.len() + 2 && s@.subrange(0, kw@.len() as int) == kw@
            && s@[kw@.len() as int] == '{' && s@[s@.len() - 1] == '}'),
{
    let n = s.unicode_len();
    let k = kw.unicode_len();
    if n < 2 || k > n - 2 {
        return false;
    }
    let head = s.substring_char(0, k);
    if !str_eq(head, kw) {
        return false;
    }
    s.get_char(k) == '{' && s.get_char(n - 1) == '}'
}

impl SelectedRole {
    /// Pairs a kind with an optional role name.
    pub fn new(ty: RoleType, role: Option<String>) -> (r: Self)
        ensures
            r.ty == ty,
            r.role == role,
    {
        SelectedRole { ty, role }
    }

    /// Parses a header rendering: one of the three keywords, alone or with
    /// a braced role name.
    pub fn from_str(s: &str) -> (r: Option<Self>)
        ensures
            r matches Some(sel) ==> role_text_matches(s@, role_keyword(sel.ty))
                && (sel.role matches Some(inner) ==> inner@
                    == role_text_inner(s@, role_keyword(sel.ty)))
                && (sel.role is None ==> s@ == role_keyword(sel.ty)),
            r is None ==> !role_text_matches(s@, "ROLE"@)
                && !role_text_matches(s@, "ALL"@) && !role_text_matches(s@, "NONE"@),
    {
        proof {
            reveal_strlit("ROLE");
            reveal_strlit("ALL");
            reveal_strlit("NONE");
        }
        let n = s.unicode_len();
        if str_eq(s, "ROLE") {
            return Some(SelectedRole { ty: RoleType::Role, role: None });
        }
        if str_eq(s, "ALL") {
            return Some(SelectedRole { ty: RoleType::All, role: None });
        }
        if str_eq(s, "NONE") {
            return Some(SelectedRole { ty: RoleType::NoRole, role: None });
        }
        if matches_braced(s, "ROLE") {
            let inner = s.substring_char(5, n - 1);
            return Some(SelectedRole { ty: RoleType::Role, role: Some(inner.to_owned()) });
        }
        if matches_braced(s, "ALL") {
            let inner = s.substring_char(4, n - 1);
            return Some(SelectedRole { ty: RoleType::All, role: Some(inner.to_owned()) });
        }
        if matches_braced(s, "NONE") {
            let inner = s.substring_char(5, n - 1);
            return Some(SelectedRole { ty: RoleType::NoRole, role: Some(inner.to_owned()) });
        }
        None
    }

    /// The header rendering of this selection.
    pub fn display(&self) -> (r: String)
        ensures
            r@ == role_render(self.ty, match self.role {
                Some(ro) => Some(ro@),
                None => None,
            }),
    {
        let mut out = String::new();
        out.append(self.ty.to_str());
        match &self.role {
            Some(ro) => {
                out.append("{");
                out.append(ro.as_str());
                out.append("}");
                proof {
                    assert(out@ =~= role_render(self.ty, Some(self.role->0@)));
                }
            },
            None => {},
        }
        out
    }
}

} // verus!
