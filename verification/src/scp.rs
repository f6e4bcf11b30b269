//! The vendor shorthand notation for remote repositories: `[user@]host:path`.
//!
//! A shorthand locator is matched against the grammar
//! `^((?:[^@]+@)?)([^:]+):/?(.+)$` with the usual leftmost-first, greedy
//! preferences: the optional `user@` prefix runs to the first `@` and is
//! tried first, falling back to the empty prefix when the rest of the match
//! fails; the host runs to the first colon of what remains; one leading `/`
//! of the path is dropped when more follows; the final wildcard accepts any
//! character but a newline. An absent or empty user defaults to `git`, and
//! trailing `.git` suffixes are stripped from the path.

use vstd::prelude::*;
use vstd::string::StringExecFns;

verus! {

/// The parsed fields of a shorthand locator, as character sequences.
#[verifier::ext_equal]
pub ghost struct ScpView {
    pub username: Seq<char>,
    pub host: Seq<char>,
    pub path: Seq<char>,
}

/// A parsed shorthand locator: `username` at `host`, repository `path`.
#[derive(Debug)]
pub struct ScpPath {
    pub host: String,
    pub username: String,
    pub path: String,
}

impl View for ScpPath {
    type V = ScpView;

    open spec fn view(&self) -> ScpView {
        ScpView { username: self.username@, host: self.host@, path: self.path@ }
    }
}

pub open spec fn no_newline(s: Seq<char>) -> bool {
    forall|i: int| 0 <= i < s.len() ==> s[i] != '\n'
}

/// The default username when the shorthand has no `user@` prefix.
pub open spec fn git_user() -> Seq<char> {
    seq!['g', 'i', 't']
}

pub open spec fn dot_git() -> Seq<char> {
    seq!['.', 'g', 'i', 't']
}

/// Repeatedly strip a trailing `.git` from a path.
pub open spec fn strip_git(p: Seq<char>) -> Seq<char>
    decreases p.len(),
{
    if p.len() >= 4 && p.subrange(p.len() - 4, p.len() as int) == dot_git() {
        strip_git(p.subrange(0, p.len() - 4))
    } else {
        p
    }
}

/// The `([^:]+):/?(.+)$` part of the grammar, applied to what remains after
/// the user prefix: the host runs to the first colon (and must be nonempty);
/// after the colon, one leading `/` is dropped when at least one character
/// follows it; what remains is the raw path, nonempty and free of newlines.
pub open spec fn tail_parts(r: Seq<char>) -> Option<(Seq<char>, Seq<char>)> {
    match r.index_of_first(':') {
        Some(c) => {
            if c >= 1 {
                let host = r.subrange(0, c);
                let t = r.subrange(c + 1, r.len() as int);
                if t.len() >= 1 && t[0] == '/' {
                    if t.len() >= 2 && no_newline(t.subrange(1, t.len() as int)) {
                        Some((host, t.subrange(1, t.len() as int)))
                    } else if t.len() == 1 {
                        // A lone "/" is kept: nothing follows the slash, so the
                        // wildcard falls back to matching the slash itself.
                        Some((host, t))
                    } else {
                        None
                    }
                } else {
                    if t.len() >= 1 && no_newline(t) {
                        Some((host, t))
                    } else {
                        None
                    }
                }
            } else {
                None
            }
        },
        None => None,
    }
}

/// The first-choice user prefix `[^@]+@`: everything up to and including the
/// first `@`, provided at least one character comes before it. `Some(k)`
/// gives the index of that `@`.
pub open spec fn user_split(s: Seq<char>) -> Option<int> {
    match s.index_of_first('@') {
        Some(k) => if k >= 1 {
            Some(k)
        } else {
            None
        },
        None => None,
    }
}

/// The whole shorthand grammar. The `user@` prefix is preferred; when the
/// rest of the match fails with it, the empty prefix is tried, in which case
/// the username defaults to `git`.
pub open spec fn scp_parse(s: Seq<char>) -> Option<ScpView> {
    if user_split(s) is Some && tail_parts(
        s.subrange(user_split(s)->0 + 1, s.len() as int),
    ) is Some {
        let k = user_split(s)->0;
        let hp = tail_parts(s.subrange(k + 1, s.len() as int))->0;
        Some(ScpView { username: s.subrange(0, k), host: hp.0, path: strip_git(hp.1) })
    } else if tail_parts(s) is Some {
        let hp = tail_parts(s)->0;
        Some(ScpView { username: git_user(), host: hp.0, path: strip_git(hp.1) })
    } else {
        None
    }
}

/// The first occurrence of `c` in `s` at or after `start`.
fn find_char(s: &str, start: usize, c: char) -> (r: Option<usize>)
    requires
        start <= s@.len(),
    ensures
        match r {
            Some(i) => start <= i < s@.len() && s@[i as int] == c && (forall|j: int|
                start <= j < i ==> s@[j] != c),
            None => forall|j: int| start <= j < s@.len() ==> s@[j] != c,
        },
{
    let n = s.unicode_len();
    let mut i = start;
    while i < n
        invariant
            start <= i <= n,
            n == s@.len(),
            forall|j: int| start <= j < i ==> s@[j] != c,
        decreases n - i,
    {
        if s.get_char(i) == c {
            return Some(i);
        }
        i = i + 1;
    }
    None
}

/// Whether `s` is free of newlines between `from` and `to`.
fn all_non_newline(s: &str, from: usize, to: usize) -> (r: bool)
    requires
        from <= to <= s@.len(),
    ensures
        r == no_newline(s@.subrange(from as int, to as int)),
{
    let mut i = from;
    while i < to
        invariant
            from <= i <= to <= s@.len(),
            forall|j: int| from <= j < i ==> s@[j] != '\n',
        decreases to - i,
    {
        if s.get_char(i) == '\n' {
            assert(s@.subrange(from as int, to as int)[i - from] == '\n');
            return false;
        }
        i = i + 1;
    }
    assert forall|j: int| 0 <= j < to - from implies s@.subrange(from as int, to as int)[j]
        != '\n' by {
        assert(s@.subrange(from as int, to as int)[j] == s@[from + j]);
    }
    true
}

/// Whether the four characters of `s` just before `e` read `.git`.
fn is_dot_git_before(s: &str, e: usize) -> (r: bool)
    requires
        4 <= e <= s@.len(),
    ensures
        r == (s@.subrange(e - 4, e as int) == dot_git()),
{
    let r = s.get_char(e - 4) == '.' && s.get_char(e - 3) == 'g' && s.get_char(e - 2) == 'i'
        && s.get_char(e - 1) == 't';
    proof {
        let sub = s@.subrange(e - 4, e as int);
        if r {
            assert(sub =~= dot_git());
        } else {
            assert(sub[0] == s@[e - 4] && sub[1] == s@[e - 3] && sub[2] == s@[e - 2] && sub[3]
                == s@[e - 1]);
        }
    }
    r
}

/// The end index of `s[from..to]` once every trailing `.git` is stripped.
fn strip_git_end(s: &str, from: usize, to: usize) -> (e: usize)
    requires
        from <= to <= s@.len(),
    ensures
        from <= e <= to,
        strip_git(s@.subrange(from as int, to as int)) == s@.subrange(from as int, e as int),
{
    let mut e = to;
    while e - from >= 4 && is_dot_git_before(s, e)
        invariant
            from <= e <= to <= s@.len(),
            strip_git(s@.subrange(from as int, to as int)) == strip_git(
                s@.subrange(from as int, e as int),
            ),
        decreases e,
    {
        proof {
            let cur = s@.subrange(from as int, e as int);
            assert(cur.subrange(cur.len() - 4, cur.len() as int) =~= s@.subrange(
                e - 4,
                e as int,
            ));
            assert(cur.subrange(0, cur.len() - 4) =~= s@.subrange(from as int, e - 4));
        }
        e = e - 4;
    }
    proof {
        let cur = s@.subrange(from as int, e as int);
        if e - from >= 4 {
            assert(cur.subrange(cur.len() - 4, cur.len() as int) =~= s@.subrange(e - 4, e as int));
        }
        assert(strip_git(cur) == cur);
    }
    e
}

proof fn lemma_first_index(s: Seq<char>, c: char, i: int)
    requires
        0 <= i < s.len(),
        s[i] == c,
        forall|j: int| 0 <= j < i ==> s[j] != c,
    ensures
        s.index_of_first(c) == Some(i),
{
    s.index_of_first_ensures(c);
    assert(s.contains(c)) by {
        assert(s[i] == c);
    }
    let idx = s.index_of_first(c)->0;
    if idx < i {
        assert(s[idx] != c);
    }
    if idx > i {
        assert(s[i] != c);
    }
}

proof fn lemma_no_first_index(s: Seq<char>, c: char)
    requires
        forall|j: int| 0 <= j < s.len() ==> s[j] != c,
    ensures
        s.index_of_first(c) is None,
{
    s.index_of_first_ensures(c);
    if s.contains(c) {
        let w = choose|w: int| 0 <= w < s.len() && s[w] == c;
        assert(s[w] != c);
    }
}

/// Host and stripped path parsed from `s[start..]`, the part of a shorthand
/// after the user prefix.
fn parse_tail(s: &str, start: usize) -> (r: Option<(String, String)>)
    requires
        start <= s@.len(),
    ensures
        ({
            let rest = s@.subrange(start as int, s@.len() as int);
            match r {
                Some(hp) => tail_parts(rest) is Some && hp.0@ == (tail_parts(rest)->0).0 && hp.1@
                    == strip_git((tail_parts(rest)->0).1),
                None => tail_parts(rest) is None,
            }
        }),
{
    let ghost rest = s@.subrange(start as int, s@.len() as int);
    let n = s.unicode_len();
    let colon = find_char(s, start, ':');
    match colon {
        Some(c) => {
            proof {
                assert forall|j: int| 0 <= j < c - start implies rest[j] != ':' by {
                    assert(rest[j] == s@[start + j]);
                }
                assert(rest[c - start] == ':');
                lemma_first_index(rest, ':', c - start);
            }
            if c == start {
                return None;
            }
            let ghost t = rest.subrange(c - start + 1, rest.len() as int);
            proof {
                assert(t =~= s@.subrange(c + 1, n as int));
            }
            let mut p = c + 1;
            if p < n && s.get_char(p) == '/' {
                if p + 1 < n {
                    p = p + 1;
                }
            }
            if p >= n {
                // The path part is empty.
                return None;
            }
            proof {
                assert(t[0] == s@[c + 1]);
                assert(t.len() == n - (c + 1));
                if p == c + 2 {
                    assert(t.subrange(1, t.len() as int) =~= s@.subrange(p as int, n as int));
                } else {
                    assert(t =~= s@.subrange(p as int, n as int));
                }
            }
            if !all_non_newline(s, p, n) {
                return None;
            }
            let e = strip_git_end(s, p, n);
            let host = s.substring_char(start, c).to_owned();
            let path = s.substring_char(p, e).to_owned();
            proof {
                assert(host@ =~= rest.subrange(0, c - start));
            }
            Some((host, path))
        },
        None => {
            proof {
                assert forall|j: int| 0 <= j < rest.len() implies rest[j] != ':' by {
                    assert(rest[j] == s@[start + j]);
                }
                lemma_no_first_index(rest, ':');
            }
            None
        },
    }
}

/// A trailing `.git` is still there.
pub open spec fn has_git_suffix(p: Seq<char>) -> bool {
    p.len() >= 4 && p.subrange(p.len() - 4, p.len() as int) == dot_git()
}

/// Law: stripping leaves no trailing `.git` behind.
pub proof fn lemma_strip_git_clean(p: Seq<char>)
    ensures
        !has_git_suffix(strip_git(p)),
    decreases p.len(),
{
    if has_git_suffix(p) {
        lemma_strip_git_clean(p.subrange(0, p.len() - 4));
    }
}

/// Law: a shorthand without an `@` anywhere — so without a `user@` prefix —
/// parses with the username defaulted to `git`.
pub proof fn lemma_default_username(s: Seq<char>)
    requires
        scp_parse(s) is Some,
        forall|i: int| 0 <= i < s.len() ==> s[i] != '@',
    ensures
        scp_parse(s)->0.username == git_user(),
{
    lemma_no_first_index(s, '@');
}

/// Law: whichever way a shorthand parses, its path carries no trailing
/// `.git`.
pub proof fn lemma_parsed_path_clean(s: Seq<char>)
    requires
        scp_parse(s) is Some,
    ensures
        !has_git_suffix(scp_parse(s)->0.path),
{
    if user_split(s) is Some && tail_parts(
        s.subrange(user_split(s)->0 + 1, s.len() as int),
    ) is Some {
        let k = user_split(s)->0;
        lemma_strip_git_clean((tail_parts(s.subrange(k + 1, s.len() as int))->0).1);
    } else {
        lemma_strip_git_clean((tail_parts(s)->0).1);
    }
}

/// The `ssh://` scheme prefix of a synthesized URL.
pub open spec fn ssh_prefix() -> Seq<char> {
    seq!['s', 's', 'h', ':', '/', '/']
}

/// The URL string a parsed shorthand stands for: `ssh://username@host/path`.
pub open spec fn ssh_string_of(v: ScpView) -> Seq<char> {
    ssh_prefix() + v.username + seq!['@'] + v.host + seq!['/'] + v.path
}

impl ScpPath {
    /// The `ssh://username@host/path` form of this shorthand.
    pub fn ssh_string(&self) -> (r: String)
        ensures
            r@ == ssh_string_of(self@),
    {
        let mut r = "ssh://".to_owned();
        proof {
            reveal_strlit("ssh://");
            assert(r@ =~= ssh_prefix());
        }
        r.append(self.username.as_str());
        r.append("@");
        proof {
            reveal_strlit("@");
            assert("@"@ =~= seq!['@']);
        }
        r.append(self.host.as_str());
        r.append("/");
        proof {
            reveal_strlit("/");
            assert("/"@ =~= seq!['/']);
        }
        r.append(self.path.as_str());
        proof {
            assert(r@ =~= ssh_string_of(self@));
        }
        r
    }

    /// Parse a shorthand locator. `None` exactly when the string does not
    /// match the shorthand grammar.
    pub fn parse(s: &str) -> (r: Option<ScpPath>)
        ensures
            r is Some <==> scp_parse(s@) is Some,
            r is Some ==> r->0@ == scp_parse(s@)->0,
    {
        let n = s.unicode_len();
        let at = find_char(s, 0, '@');
        proof {
            match at {
                Some(k) => lemma_first_index(s@, '@', k as int),
                None => lemma_no_first_index(s@, '@'),
            }
        }
        if let Some(k) = at {
            if k >= 1 {
                if let Some((host, path)) = parse_tail(s, k + 1) {
                    let username = s.substring_char(0, k).to_owned();
                    return Some(ScpPath { host, username, path });
                }
            }
        }
        match parse_tail(s, 0) {
            Some((host, path)) => {
                let username = "git".to_owned();
                proof {
                    reveal_strlit("git");
                    assert(username@ =~= git_user());
                    assert(s@.subrange(0, s@.len() as int) =~= s@);
                }
                Some(ScpPath { host, username, path })
            },
            None => {
                proof {
                    assert(s@.subrange(0, s@.len() as int) =~= s@);
                }
                None
            },
        }
    }
}

} // verus!
