//! The preference registry: the emails the user has picked before and the
//! canonical URLs of remotes the user asked never to be prompted about.
//!
//! Both collections are deduplicated: an add of a value already present is a
//! no-op, so the registry keeps insertion order and holds each value once.

use crate::locator::CanonicalUrl;
use vstd::prelude::*;
use vstd::string::StringExecFns;

verus! {

/// Append `x` unless it is already present: the collections of the registry
/// grow only this way.
pub open spec fn add_unique(xs: Seq<Seq<char>>, x: Seq<char>) -> Seq<Seq<char>> {
    if xs.contains(x) {
        xs
    } else {
        xs.push(x)
    }
}

/// No value occurs twice.
pub open spec fn distinct(xs: Seq<Seq<char>>) -> bool {
    forall|i: int, j: int| 0 <= i < j < xs.len() ==> xs[i] != xs[j]
}

/// The registry as two sequences of character strings: ignored canonical
/// URLs and known emails, each in insertion order.
#[verifier::ext_equal]
pub ghost struct ConfigView {
    pub ignore: Seq<Seq<char>>,
    pub emails: Seq<Seq<char>>,
}

/// The registry of known emails and ignored remotes. Loaded from persisted
/// storage at each invocation and saved back as a whole; this type holds the
/// in-memory value and its dedup rules, not the storage.
#[derive(Clone, Debug)]
pub struct Config {
    ignore: Vec<CanonicalUrl>,
    emails: Vec<String>,
}

impl View for Config {
    type V = ConfigView;

    closed spec fn view(&self) -> ConfigView {
        ConfigView {
            ignore: Seq::new(self.ignore@.len(), |i: int| self.ignore@[i]@),
            emails: Seq::new(self.emails@.len(), |i: int| self.emails@[i]@),
        }
    }
}

impl Config {
    /// Both collections hold no duplicates.
    pub open spec fn wf(&self) -> bool {
        distinct(self@.ignore) && distinct(self@.emails)
    }

    /// The empty registry: what a first run, or an unreadable store, starts
    /// from.
    pub fn new() -> (c: Config)
        ensures
            c@.ignore.len() == 0,
            c@.emails.len() == 0,
            c.wf(),
    {
        Config { ignore: Vec::new(), emails: Vec::new() }
    }

    /// Whether `url` is in the ignore set: membership by canonical-URL
    /// equality, whatever raw form first produced the entry.
    pub fn ignores(&self, url: &CanonicalUrl) -> (r: bool)
        ensures
            r == self@.ignore.contains(url@),
    {
        let n = self.ignore.len();
        let mut i: usize = 0;
        while i < n
            invariant
                i <= n,
                n == self.ignore@.len(),
                forall|j: int| 0 <= j < i ==> self@.ignore[j] != url@,
            decreases n - i,
        {
            if self.ignore[i] == *url {
                assert(self@.ignore[i as int] == url@);
                return true;
            }
            assert(self@.ignore[i as int] != url@);
            i = i + 1;
        }
        assert forall|j: int| 0 <= j < self@.ignore.len() implies self@.ignore[j] != url@ by {}
        false
    }

    /// Whether `email` is already known.
    fn knows_email(&self, email: &String) -> (r: bool)
        ensures
            r == self@.emails.contains(email@),
    {
        let n = self.emails.len();
        let mut i: usize = 0;
        while i < n
            invariant
                i <= n,
                n == self.emails@.len(),
                forall|j: int| 0 <= j < i ==> self@.emails[j] != email@,
            decreases n - i,
        {
            if self.emails[i] == *email {
                assert(self@.emails[i as int] == email@);
                return true;
            }
            assert(self@.emails[i as int] != email@);
            i = i + 1;
        }
        false
    }

    /// Add a canonical URL to the ignore set; a no-op when an equal one is
    /// already there.
    pub fn add_ignore_url(&mut self, url: &CanonicalUrl)
        ensures
            final(self)@.ignore == add_unique(old(self)@.ignore, url@),
            final(self)@.emails == old(self)@.emails,
            old(self).wf() ==> final(self).wf(),
    {
        let present = self.ignores(url);
        if !present {
            self.ignore.push(url.clone());
            proof {
                assert(self@.ignore =~= old(self)@.ignore.push(url@));
                assert(self@.emails =~= old(self)@.emails);
                if distinct(old(self)@.ignore) {
                    lemma_add_unique_distinct(old(self)@.ignore, url@);
                }
            }
        } else {
            proof {
                assert(self@ =~= old(self)@);
            }
        }
    }

    /// Add an email to the known list; a no-op when it is already there.
    pub fn add_email(&mut self, email: &str)
        ensures
            final(self)@.emails == add_unique(old(self)@.emails, email@),
            final(self)@.ignore == old(self)@.ignore,
            old(self).wf() ==> final(self).wf(),
    {
        let email_string = email.to_owned();
        let present = self.knows_email(&email_string);
        if !present {
            self.emails.push(email_string);
            proof {
                assert(self@.emails =~= old(self)@.emails.push(email@));
                assert(self@.ignore =~= old(self)@.ignore);
                if distinct(old(self)@.emails) {
                    lemma_add_unique_distinct(old(self)@.emails, email@);
                }
            }
        } else {
            proof {
                assert(self@ =~= old(self)@);
            }
        }
    }

    /// The ordered candidate list put before the user: when a global identity
    /// exists, a leading sentinel entry whose selection means "always use the
    /// global identity" and carries no email value; then every known email,
    /// label and value alike.
    pub fn get_emails(&self, global_email: Option<&str>) -> (r: Vec<(String, Option<String>)>)
        ensures
            r@.len() == sentinel_count(global_email) + self@.emails.len(),
            global_email is Some ==> r@[0].0@ == global_label_of(global_email->0@) && r@[0].1
                is None,
            forall|i: int|
                sentinel_count(global_email) <= i < r@.len() ==> (#[trigger] r@[i]).0@
                    == self@.emails[i - sentinel_count(global_email)] && r@[i].1 is Some && (
                r@[i].1)->0@ == self@.emails[i - sentinel_count(global_email)],
    {
        let mut out: Vec<(String, Option<String>)> = Vec::new();
        if let Some(g) = global_email {
            let mut label = "Always use Global <".to_owned();
            label.append(g);
            label.append(">");
            proof {
                assert(label@ =~= global_label_of(g@));
            }
            out.push((label, None));
        }
        let ghost off = sentinel_count(global_email);
        let n = self.emails.len();
        let mut i: usize = 0;
        while i < n
            invariant
                i <= n,
                n == self.emails@.len(),
                out@.len() == off + i,
                off == sentinel_count(global_email),
                global_email is Some ==> out@[0].0@ == global_label_of(global_email->0@)
                    && out@[0].1 is None,
                forall|j: int|
                    off <= j < out@.len() ==> (#[trigger] out@[j]).0@ == self@.emails[j - off] && (
                    out@[j]).1 is Some && (out@[j].1)->0@ == self@.emails[j - off],
            decreases n - i,
        {
            let e = self.emails[i].clone();
            let value = e.clone();
            out.push((e, Some(value)));
            i = i + 1;
        }
        out
    }

    /// The known emails, in insertion order.
    pub fn known_emails(&self) -> (r: &Vec<String>)
        ensures
            r@.len() == self@.emails.len(),
            forall|i: int| 0 <= i < r@.len() ==> r@[i]@ == self@.emails[i],
    {
        &self.emails
    }

    /// The ignored canonical URLs, in insertion order.
    pub fn ignored_urls(&self) -> (r: &Vec<CanonicalUrl>)
        ensures
            r@.len() == self@.ignore.len(),
            forall|i: int| 0 <= i < r@.len() ==> r@[i]@ == self@.ignore[i],
    {
        &self.ignore
    }
}

impl Default for Config {
    /// The empty registry.
    fn default() -> (c: Config)
        ensures
            c@.ignore.len() == 0,
            c@.emails.len() == 0,
            c.wf(),
    {
        Config::new()
    }
}

/// How many entries stand before the known emails in the candidate list: one
/// sentinel when a global identity exists.
pub open spec fn sentinel_count(global_email: Option<&str>) -> int {
    if global_email is Some {
        1
    } else {
        0
    }
}

/// The label of the sentinel entry for a global identity.
pub open spec fn global_label_of(email: Seq<char>) -> Seq<char> {
    "Always use Global <"@ + email + ">"@
}

proof fn lemma_add_unique_distinct(xs: Seq<Seq<char>>, x: Seq<char>)
    requires
        distinct(xs),
    ensures
        distinct(add_unique(xs, x)),
{
    if !xs.contains(x) {
        let ys = xs.push(x);
        assert forall|i: int, j: int| 0 <= i < j < ys.len() implies ys[i] != ys[j] by {
            if j == xs.len() {
                assert(ys[i] == xs[i]);
                if ys[i] == x {
                    assert(xs.contains(x));
                }
            }
        }
    }
}

/// Law: adding a value twice leaves the collection as adding it once did —
/// unchanged in size and order.
pub proof fn lemma_add_unique_idempotent(xs: Seq<Seq<char>>, x: Seq<char>)
    ensures
        add_unique(add_unique(xs, x), x) == add_unique(xs, x),
{
    if !xs.contains(x) {
        assert(xs.push(x)[xs.len() as int] == x);
        assert(xs.push(x).contains(x));
    }
}

/// Law: once a canonical URL is added to the ignore set, every equal
/// canonical URL is a member — membership goes by the canonical value alone,
/// whichever syntactic form produced it.
pub proof fn lemma_ignored_after_add(ignore: Seq<Seq<char>>, u: Seq<char>)
    ensures
        add_unique(ignore, u).contains(u),
{
    if !ignore.contains(u) {
        assert(ignore.push(u)[ignore.len() as int] == u);
    }
}

} // verus!
