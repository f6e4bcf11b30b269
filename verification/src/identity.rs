//! Scope-aware commit identity: which configuration tier an email value was
//! read from, and the rule deciding when it counts as a repository-local
//! identity.

use vstd::prelude::*;

verus! {

/// The configuration tier a `user.email` entry lives in. `Other` covers every
/// tier besides the two this tool distinguishes.
#[derive(Clone, Copy, Debug, PartialEq, Eq, Structural)]
pub enum IdentityScope {
    Local,
    Global,
    Other,
}

/// The repository-local identity, given the scope of the configuration entry
/// and its value: a configured email counts only when the entry lives exactly
/// in the `Local` scope; a value inherited from any broader scope yields
/// `None`, even though a value exists.
pub fn local_identity_of(scope: IdentityScope, value: Option<String>) -> (r: Option<String>)
    ensures
        r == (if scope is Local { value } else { None::<String> }),
{
    match scope {
        IdentityScope::Local => value,
        IdentityScope::Global => None,
        IdentityScope::Other => None,
    }
}

} // verus!
