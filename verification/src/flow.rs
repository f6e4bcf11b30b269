//! The selection flow's decisions: whether to ask the user at all, and what
//! a selection changes once one arrives. The surrounding process — finding
//! the repository, showing the picker, reading and writing configuration —
//! performs I/O and stays outside; it feeds these functions plain values and
//! carries their results out.

use crate::config::Config;
use crate::config::ConfigView;
use crate::config::add_unique;
use crate::locator::CanonicalUrl;
use vstd::prelude::*;

verus! {

/// Where the flow goes after the silent checks: stop because the remote is
/// ignored, stop because a local identity already exists, or put the choice
/// to the user.
#[derive(Clone, Copy, Debug, PartialEq, Eq, Structural)]
pub enum FlowStep {
    Ignored,
    HasLocalIdentity,
    AwaitingChoice,
}

/// The view of an optional canonical URL or string.
pub open spec fn opt_chars<T: View<V = Seq<char>>>(o: Option<T>) -> Option<Seq<char>> {
    match o {
        Some(x) => Some(x@),
        None => None,
    }
}

/// The first decision of a run: a remote whose canonical URL is ignored ends
/// the flow, then an existing local identity ends it; only when neither
/// short-circuits is the user asked. A remote with no canonical URL is never
/// ignored.
pub open spec fn step_of(c: ConfigView, url: Option<Seq<char>>, local: Option<Seq<char>>) -> FlowStep {
    if url is Some && c.ignore.contains(url->0) {
        FlowStep::Ignored
    } else if local is Some {
        FlowStep::HasLocalIdentity
    } else {
        FlowStep::AwaitingChoice
    }
}

/// Decide how a run proceeds, from the resolved remote and the
/// repository-local identity.
pub fn next_step(config: &Config, url: &Option<CanonicalUrl>, local_email: &Option<String>) -> (r:
    FlowStep)
    ensures
        r == step_of(config@, opt_chars(*url), opt_chars(*local_email)),
{
    if let Some(u) = url {
        if config.ignores(u) {
            return FlowStep::Ignored;
        }
    }
    if local_email.is_some() {
        FlowStep::HasLocalIdentity
    } else {
        FlowStep::AwaitingChoice
    }
}

/// What the registry's collections are after a selection is applied: a
/// concrete email joins the known emails; the sentinel or a dismissal adds
/// the remote's canonical URL, when there is one, to the ignore set.
pub open spec fn applied_view(c: ConfigView, choice: Option<Seq<char>>, url: Option<Seq<char>>) -> ConfigView {
    match choice {
        Some(e) => ConfigView { emails: add_unique(c.emails, e), ignore: c.ignore },
        None => match url {
            Some(u) => ConfigView { emails: c.emails, ignore: add_unique(c.ignore, u) },
            None => c,
        },
    }
}

/// Apply the user's selection to the registry. A concrete email is recorded
/// as known and returned, to be written into the repository-local scope; the
/// sentinel or a dismissal instead marks the remote as ignored, when it has a
/// canonical URL, and returns nothing. The caller persists the registry
/// afterwards, exactly once, whichever branch ran.
pub fn apply_choice(config: &mut Config, choice: Option<&str>, url: &Option<CanonicalUrl>) -> (r:
    Option<String>)
    ensures
        final(config)@ == applied_view(old(config)@, opt_chars_str(choice), opt_chars(*url)),
        old(config).wf() ==> final(config).wf(),
        r is Some <==> choice is Some,
        r is Some ==> r->0@ == choice->0@,
{
    match choice {
        Some(email) => {
            config.add_email(email);
            proof {
                assert(config@ =~= applied_view(old(config)@, opt_chars_str(choice), opt_chars(*url)));
            }
            Some(email.to_owned())
        },
        None => {
            if let Some(u) = url {
                config.add_ignore_url(u);
            }
            proof {
                assert(config@ =~= applied_view(old(config)@, opt_chars_str(choice), opt_chars(*url)));
            }
            None
        },
    }
}

/// The view of an optional borrowed string.
pub open spec fn opt_chars_str(o: Option<&str>) -> Option<Seq<char>> {
    match o {
        Some(x) => Some(x@),
        None => None,
    }
}

/// The names of a repository's remotes, as character sequences.
pub open spec fn name_views(names: Seq<String>) -> Seq<Seq<char>> {
    Seq::new(names.len(), |i: int| names[i]@)
}

/// The remote whose locator the flow resolves: the one named `origin` when
/// present, else the first one, else none at all.
pub fn primary_remote(names: &Vec<String>) -> (r: Option<&String>)
    ensures
        ({
            let vs = name_views(names@);
            &&& vs.contains("origin"@) ==> r is Some && r->0@ == "origin"@
            &&& !vs.contains("origin"@) && vs.len() > 0 ==> r is Some && r->0@ == vs[0]
            &&& vs.len() == 0 ==> r is None
        }),
{
    let ghost vs = name_views(names@);
    let origin = "origin".to_owned();
    let n = names.len();
    let mut i: usize = 0;
    while i < n
        invariant
            i <= n,
            n == names@.len(),
            vs == name_views(names@),
            origin@ == "origin"@,
            forall|j: int| 0 <= j < i ==> vs[j] != "origin"@,
        decreases n - i,
    {
        if names[i] == origin {
            assert(vs[i as int] == "origin"@);
            return Some(&names[i]);
        }
        assert(vs[i as int] != "origin"@);
        i = i + 1;
    }
    assert(!vs.contains("origin"@));
    if n > 0 {
        Some(&names[0])
    } else {
        None
    }
}

} // verus!
