//! Canonicalization of remote-repository locators: the canonical URL value
//! used as the stable identity key for a remote, and the resolution of a raw
//! locator string (full URL or shorthand) into that key.

use crate::scp::ScpPath;
use crate::scp::scp_parse;
use crate::scp::ssh_string_of;
use vstd::prelude::*;

verus! {

/// What `url::Url::parse` makes of a string: `Some` of the parsed URL's
/// canonical serialization when the string parses as an absolute URL, `None`
/// otherwise. The outcome depends on the input characters alone.
pub uninterp spec fn url_canon(s: Seq<char>) -> Option<Seq<char>>;

/// Relies on `url::Url::parse`: it parses with fixed options, deterministically
/// in the input string alone, and succeeds exactly on valid absolute URLs; and
/// on `Url::as_str`, which returns the parsed URL's canonical serialization.
#[verifier::external_body]
pub(crate) fn parse_canonical(s: &str) -> (r: Option<String>)
    ensures
        r is Some <==> url_canon(s@) is Some,
        r is Some ==> r->0@ == url_canon(s@)->0,
{
    match url::Url::parse(s) {
        Ok(u) => Some(u.as_str().to_owned()),
        Err(_) => None,
    }
}

/// The canonical form of a remote locator: the serialization of the URL the
/// raw locator string resolves to. It is the sole identity key for "which
/// remote is this"; immutable once produced, equal exactly when the
/// serializations are equal.
#[derive(Debug)]
pub struct CanonicalUrl {
    text: String,
}

impl View for CanonicalUrl {
    type V = Seq<char>;

    closed spec fn view(&self) -> Seq<char> {
        self.text@
    }
}

impl CanonicalUrl {
    pub fn as_str(&self) -> (r: &str)
        ensures
            r@ == self@,
    {
        self.text.as_str()
    }
}

impl Clone for CanonicalUrl {
    fn clone(&self) -> (r: Self)
        ensures
            r@ == self@,
    {
        CanonicalUrl { text: self.text.clone() }
    }
}

impl PartialEq for CanonicalUrl {
    fn eq(&self, other: &Self) -> bool {
        self.text == other.text
    }
}

impl vstd::std_specs::cmp::PartialEqSpecImpl for CanonicalUrl {
    open spec fn obeys_eq_spec() -> bool {
        true
    }

    open spec fn eq_spec(&self, other: &Self) -> bool {
        self@ == other@
    }
}

impl ScpPath {
    /// The canonical URL of this shorthand: its `ssh://username@host/path`
    /// form, canonicalized.
    pub fn to_url(&self) -> (r: CanonicalUrl)
        requires
            url_canon(ssh_string_of(self@)) is Some,
        ensures
            r@ == url_canon(ssh_string_of(self@))->0,
    {
        let s = self.ssh_string();
        let text = parse_canonical(s.as_str()).unwrap();
        CanonicalUrl { text }
    }

    /// `to_url`, for a shorthand whose `ssh://` form is not known to be a
    /// valid URL: `None` exactly when it is not.
    pub fn try_to_url(&self) -> (r: Option<CanonicalUrl>)
        ensures
            r is Some <==> url_canon(ssh_string_of(self@)) is Some,
            r is Some ==> r->0@ == url_canon(ssh_string_of(self@))->0,
    {
        let s = self.ssh_string();
        match parse_canonical(s.as_str()) {
            Some(_) => Some(self.to_url()),
            None => None,
        }
    }
}

/// What a raw remote locator resolves to: the canonicalization of the string
/// itself when it is a valid absolute URL; otherwise, when it matches the
/// shorthand grammar, the canonicalization of the shorthand's `ssh://` form;
/// otherwise nothing.
pub open spec fn resolve_spec(s: Seq<char>) -> Option<Seq<char>> {
    if url_canon(s) is Some {
        url_canon(s)
    } else if scp_parse(s) is Some {
        url_canon(ssh_string_of(scp_parse(s)->0))
    } else {
        None
    }
}

/// Resolve a raw remote locator string into its canonical URL. A full URL is
/// taken as it is; a shorthand is rewritten to its `ssh://` form first; a
/// string that is neither yields `None` and can never serve as an ignore key.
pub fn parse_url_string(s: &str) -> (r: Option<CanonicalUrl>)
    ensures
        r is Some <==> resolve_spec(s@) is Some,
        r is Some ==> r->0@ == resolve_spec(s@)->0,
{
    match parse_canonical(s) {
        Some(text) => Some(CanonicalUrl { text }),
        None => match ScpPath::parse(s) {
            Some(scp) => scp.try_to_url(),
            None => None,
        },
    }
}

/// Law: a string that matches the shorthand grammar and is not itself a
/// valid URL resolves to the canonicalization of the shorthand's
/// `ssh://username@host/path` form, whose path carries no trailing `.git`.
pub proof fn lemma_shorthand_resolution(s: Seq<char>)
    requires
        url_canon(s) is None,
        scp_parse(s) is Some,
    ensures
        resolve_spec(s) == url_canon(ssh_string_of(scp_parse(s)->0)),
        !crate::scp::has_git_suffix(scp_parse(s)->0.path),
{
    crate::scp::lemma_parsed_path_clean(s);
}

/// Law: a string that is neither a valid URL nor a shorthand resolves to
/// nothing — such a remote can never serve as an ignore key.
pub proof fn lemma_unresolvable(s: Seq<char>)
    requires
        url_canon(s) is None,
        scp_parse(s) is None,
    ensures
        resolve_spec(s) is None,
{
}

} // verus!
