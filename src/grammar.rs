//! The shorthand grammars for repository references: `user@host:owner/repo`,
//! `host:owner/repo` (or `host/owner/repo`), `owner/repo` and a bare `repo`.

use vstd::prelude::*;
use vstd::string::*;

use crate::text::{
    free_of, lemma_split_agrees, lemma_splits_at, split_first, split_view, splits_into,
};

verus! {

/// An ASCII letter or digit.
pub open spec fn is_alnum(c: char) -> bool {
    ('0' <= c && c <= '9') || ('A' <= c && c <= 'Z') || ('a' <= c && c <= 'z')
}

/// The characters that each part of a shorthand reference may hold.
#[derive(Debug, Clone, Copy, PartialEq, Eq, Structural)]
pub enum CharClass {
    /// Letters, digits and `-`.
    User,
    /// Letters, digits, `.` and `-`.
    Host,
    /// Letters, digits, `_`, `.` and `-`.
    Name,
}

pub open spec fn in_class(c: char, k: CharClass) -> bool {
    match k {
        CharClass::User => is_alnum(c) || c == '-',
        CharClass::Host => is_alnum(c) || c == '.' || c == '-',
        CharClass::Name => is_alnum(c) || c == '_' || c == '.' || c == '-',
    }
}

/// A non-empty run of characters of class `k`.
pub open spec fn is_token(s: Seq<char>, k: CharClass) -> bool {
    &&& s.len() > 0
    &&& forall|i: int| 0 <= i < s.len() ==> in_class(#[trigger] s[i], k)
}

pub fn char_in_class(c: char, k: CharClass) -> (r: bool)
    ensures
        r == in_class(c, k),
{
    let alnum = ('0' <= c && c <= '9') || ('A' <= c && c <= 'Z') || ('a' <= c && c <= 'z');
    match k {
        CharClass::User => alnum || c == '-',
        CharClass::Host => alnum || c == '.' || c == '-',
        CharClass::Name => alnum || c == '_' || c == '.' || c == '-',
    }
}

/// Whether `s` is a token of class `k`.
pub fn is_token_exec(s: &str, k: CharClass) -> (r: bool)
    ensures
        r == is_token(s@, k),
{
    let n = s.unicode_len();
    if n == 0 {
        return false;
    }
    let mut i: usize = 0;
    while i < n
        invariant
            n == s@.len(),
            i <= n,
            forall|j: int| 0 <= j < i ==> in_class(#[trigger] s@[j], k),
        decreases n - i,
    {
        if !char_in_class(s.get_char(i), k) {
            return false;
        }
        i = i + 1;
    }
    true
}

/// `s` is `user@host:owner/repo`.
pub open spec fn ssh_form(s: Seq<char>, u: Seq<char>, h: Seq<char>, o: Seq<char>, r: Seq<char>) -> bool {
    &&& is_token(u, CharClass::User)
    &&& is_token(h, CharClass::Host)
    &&& is_token(o, CharClass::Name)
    &&& is_token(r, CharClass::Name)
    &&& s == u + seq!['@'] + (h + seq![':'] + (o + seq!['/'] + r))
}

/// `s` is `host:owner/repo` or `host/owner/repo`.
pub open spec fn host_form(s: Seq<char>, h: Seq<char>, o: Seq<char>, r: Seq<char>) -> bool {
    &&& is_token(h, CharClass::Host)
    &&& is_token(o, CharClass::Name)
    &&& is_token(r, CharClass::Name)
    &&& (s == h + seq![':'] + (o + seq!['/'] + r) || s == h + seq!['/'] + (o + seq!['/'] + r))
}

/// `s` is `owner/repo`.
pub open spec fn owner_form(s: Seq<char>, o: Seq<char>, r: Seq<char>) -> bool {
    &&& is_token(o, CharClass::Name)
    &&& is_token(r, CharClass::Name)
    &&& s == o + seq!['/'] + r
}

/// The parts of a reference that a pattern read.
pub struct Captures {
    pub vcs: Option<String>,
    pub scheme: Option<String>,
    pub user: Option<String>,
    pub host: Option<String>,
    pub owner: Option<String>,
    pub repo: String,
}

/// The model of [`Captures`].
pub struct CapturesView {
    pub vcs: Option<Seq<char>>,
    pub scheme: Option<Seq<char>>,
    pub user: Option<Seq<char>>,
    pub host: Option<Seq<char>>,
    pub owner: Option<Seq<char>>,
    pub repo: Seq<char>,
}

pub open spec fn opt_view(o: Option<String>) -> Option<Seq<char>> {
    match o {
        Some(s) => Some(s@),
        None => None,
    }
}

impl View for Captures {
    type V = CapturesView;

    open spec fn view(&self) -> CapturesView {
        CapturesView {
            vcs: opt_view(self.vcs),
            scheme: opt_view(self.scheme),
            user: opt_view(self.user),
            host: opt_view(self.host),
            owner: opt_view(self.owner),
            repo: self.repo@,
        }
    }
}

pub open spec fn captures_view(c: Option<Captures>) -> Option<CapturesView> {
    match c {
        Some(c) => Some(c@),
        None => None,
    }
}

/// The four shorthand grammars.
#[derive(Debug, Clone, Copy, PartialEq, Eq, Structural)]
pub enum Shorthand {
    /// `user@host:owner/repo`
    Ssh,
    /// `host:owner/repo` or `host/owner/repo`
    HostOwnerRepo,
    /// `owner/repo`
    OwnerRepo,
    /// `repo`
    Repo,
}

/// What grammar `g` reads from `s`, or `None` when `s` is not of that form.
pub open spec fn shorthand_captures(g: Shorthand, s: Seq<char>) -> Option<CapturesView> {
    match g {
        Shorthand::Ssh => if exists|u: Seq<char>, h: Seq<char>, o: Seq<char>, r: Seq<char>|
            ssh_form(s, u, h, o, r) {
            let (u, h, o, r) = choose|u: Seq<char>, h: Seq<char>, o: Seq<char>, r: Seq<char>|
                ssh_form(s, u, h, o, r);
            Some(
                CapturesView {
                    vcs: None,
                    scheme: None,
                    user: Some(u),
                    host: Some(h),
                    owner: Some(o),
                    repo: r,
                },
            )
        } else {
            None
        },
        Shorthand::HostOwnerRepo => if exists|h: Seq<char>, o: Seq<char>, r: Seq<char>|
            host_form(s, h, o, r) {
            let (h, o, r) = choose|h: Seq<char>, o: Seq<char>, r: Seq<char>| host_form(s, h, o, r);
            Some(
                CapturesView {
                    vcs: None,
                    scheme: None,
                    user: None,
                    host: Some(h),
                    owner: Some(o),
                    repo: r,
                },
            )
        } else {
            None
        },
        Shorthand::OwnerRepo => if exists|o: Seq<char>, r: Seq<char>| owner_form(s, o, r) {
            let (o, r) = choose|o: Seq<char>, r: Seq<char>| owner_form(s, o, r);
            Some(
                CapturesView {
                    vcs: None,
                    scheme: None,
                    user: None,
                    host: None,
                    owner: Some(o),
                    repo: r,
                },
            )
        } else {
            None
        },
        Shorthand::Repo => if is_token(s, CharClass::Name) {
            Some(
                CapturesView {
                    vcs: None,
                    scheme: None,
                    user: None,
                    host: None,
                    owner: None,
                    repo: s,
                },
            )
        } else {
            None
        },
    }
}

/// A reference of the form `user@host:owner/repo` splits at its first `@`, `:` and `/`.
proof fn lemma_ssh_splits(s: Seq<char>, u: Seq<char>, h: Seq<char>, o: Seq<char>, r: Seq<char>)
    requires
        ssh_form(s, u, h, o, r),
    ensures
        splits_into(s, '@', '@', u, h + seq![':'] + (o + seq!['/'] + r)),
        splits_into(h + seq![':'] + (o + seq!['/'] + r), ':', ':', h, o + seq!['/'] + r),
        splits_into(o + seq!['/'] + r, '/', '/', o, r),
{
    assert(free_of(u, '@', '@'));
    assert(free_of(h, ':', ':'));
    assert(free_of(o, '/', '/'));
    lemma_splits_at(u, '@', h + seq![':'] + (o + seq!['/'] + r), '@', '@');
    lemma_splits_at(h, ':', o + seq!['/'] + r, ':', ':');
    lemma_splits_at(o, '/', r, '/', '/');
}

/// A reference of the form `host:owner/repo` splits at its first `:` or `/`, then at `/`.
proof fn lemma_host_splits(s: Seq<char>, h: Seq<char>, o: Seq<char>, r: Seq<char>)
    requires
        host_form(s, h, o, r),
    ensures
        splits_into(s, ':', '/', h, o + seq!['/'] + r),
        splits_into(o + seq!['/'] + r, '/', '/', o, r),
{
    assert(free_of(h, ':', '/'));
    assert(free_of(o, '/', '/'));
    if s == h + seq![':'] + (o + seq!['/'] + r) {
        lemma_splits_at(h, ':', o + seq!['/'] + r, ':', '/');
    } else {
        lemma_splits_at(h, '/', o + seq!['/'] + r, ':', '/');
    }
    lemma_splits_at(o, '/', r, '/', '/');
}

/// A reference of the form `owner/repo` splits at its first `/`.
proof fn lemma_owner_splits(s: Seq<char>, o: Seq<char>, r: Seq<char>)
    requires
        owner_form(s, o, r),
    ensures
        splits_into(s, '/', '/', o, r),
{
    assert(free_of(o, '/', '/'));
    lemma_splits_at(o, '/', r, '/', '/');
}

/// A reference of the form `user@host:owner/repo` has one reading only.
pub proof fn lemma_ssh_unique(
    s: Seq<char>,
    u: Seq<char>,
    h: Seq<char>,
    o: Seq<char>,
    r: Seq<char>,
    u2: Seq<char>,
    h2: Seq<char>,
    o2: Seq<char>,
    r2: Seq<char>,
)
    requires
        ssh_form(s, u, h, o, r),
        ssh_form(s, u2, h2, o2, r2),
    ensures
        u == u2 && h == h2 && o == o2 && r == r2,
{
    lemma_ssh_splits(s, u, h, o, r);
    lemma_ssh_splits(s, u2, h2, o2, r2);
    let rest = h + seq![':'] + (o + seq!['/'] + r);
    let rest2 = h2 + seq![':'] + (o2 + seq!['/'] + r2);
    lemma_split_agrees(s, '@', '@', Some((u, rest)), u2, rest2);
    lemma_split_agrees(rest, ':', ':', Some((h, o + seq!['/'] + r)), h2, o2 + seq!['/'] + r2);
    lemma_split_agrees(o + seq!['/'] + r, '/', '/', Some((o, r)), o2, r2);
}

/// Reads `user@host:owner/repo`.
fn parse_ssh(s: &str) -> (r: Option<Captures>)
    ensures
        captures_view(r) == shorthand_captures(Shorthand::Ssh, s@),
{
    let first = split_first(s, '@', '@');
    let ghost s1 = split_view(first);
    let ghost mut s2: Option<(Seq<char>, Seq<char>)> = None;
    let ghost mut s3: Option<(Seq<char>, Seq<char>)> = None;
    let mut result: Option<Captures> = None;
    if let Some((u, rest)) = first {
        let second = split_first(rest.as_str(), ':', ':');
        proof { s2 = split_view(second); }
        if let Some((h, rest2)) = second {
            let third = split_first(rest2.as_str(), '/', '/');
            proof { s3 = split_view(third); }
            if let Some((o, rp)) = third {
                if is_token_exec(u.as_str(), CharClass::User) && is_token_exec(h.as_str(), CharClass::Host)
                    && is_token_exec(o.as_str(), CharClass::Name) && is_token_exec(rp.as_str(), CharClass::Name) {
                    proof {
                        assert(ssh_form(s@, u@, h@, o@, rp@));
                    }
                    result = Some(Captures { vcs: None, scheme: None, user: Some(u), host: Some(h), owner: Some(o), repo: rp });
                }
            }
        }
    }
    proof {
        if exists|u2: Seq<char>, h2: Seq<char>, o2: Seq<char>, r2: Seq<char>| ssh_form(s@, u2, h2, o2, r2) {
            let (u2, h2, o2, r2) = choose|u2: Seq<char>, h2: Seq<char>, o2: Seq<char>, r2: Seq<char>|
                ssh_form(s@, u2, h2, o2, r2);
            lemma_ssh_splits(s@, u2, h2, o2, r2);
            lemma_split_agrees(s@, '@', '@', s1, u2, h2 + seq![':'] + (o2 + seq!['/'] + r2));
            lemma_split_agrees(h2 + seq![':'] + (o2 + seq!['/'] + r2), ':', ':', s2, h2, o2 + seq!['/'] + r2);
            lemma_split_agrees(o2 + seq!['/'] + r2, '/', '/', s3, o2, r2);
        }
    }
    result
}

/// Reads `host:owner/repo` or `host/owner/repo`.
fn parse_host_form(s: &str) -> (r: Option<Captures>)
    ensures
        captures_view(r) == shorthand_captures(Shorthand::HostOwnerRepo, s@),
{
    let first = split_first(s, ':', '/');
    let ghost s1 = split_view(first);
    let ghost mut s2: Option<(Seq<char>, Seq<char>)> = None;
    let mut result: Option<Captures> = None;
    if let Some((h, rest)) = first {
        let second = split_first(rest.as_str(), '/', '/');
        proof { s2 = split_view(second); }
        if let Some((o, rp)) = second {
            if is_token_exec(h.as_str(), CharClass::Host) && is_token_exec(o.as_str(), CharClass::Name)
                && is_token_exec(rp.as_str(), CharClass::Name) {
                proof {
                    assert(s@ == h@ + seq![s@[h@.len() as int]] + (o@ + seq!['/'] + rp@));
                    assert(host_form(s@, h@, o@, rp@));
                }
                result = Some(Captures { vcs: None, scheme: None, user: None, host: Some(h), owner: Some(o), repo: rp });
            }
        }
    }
    proof {
        if exists|h2: Seq<char>, o2: Seq<char>, r2: Seq<char>| host_form(s@, h2, o2, r2) {
            let (h2, o2, r2) = choose|h2: Seq<char>, o2: Seq<char>, r2: Seq<char>| host_form(s@, h2, o2, r2);
            lemma_host_splits(s@, h2, o2, r2);
            lemma_split_agrees(s@, ':', '/', s1, h2, o2 + seq!['/'] + r2);
            lemma_split_agrees(o2 + seq!['/'] + r2, '/', '/', s2, o2, r2);
        }
    }
    result
}

/// Reads `owner/repo`.
fn parse_owner_form(s: &str) -> (r: Option<Captures>)
    ensures
        captures_view(r) == shorthand_captures(Shorthand::OwnerRepo, s@),
{
    let first = split_first(s, '/', '/');
    let ghost s1 = split_view(first);
    let mut result: Option<Captures> = None;
    if let Some((o, rp)) = first {
        if is_token_exec(o.as_str(), CharClass::Name) && is_token_exec(rp.as_str(), CharClass::Name) {
            proof {
                assert(owner_form(s@, o@, rp@));
            }
            result = Some(Captures { vcs: None, scheme: None, user: None, host: None, owner: Some(o), repo: rp });
        }
    }
    proof {
        if exists|o2: Seq<char>, r2: Seq<char>| owner_form(s@, o2, r2) {
            let (o2, r2) = choose|o2: Seq<char>, r2: Seq<char>| owner_form(s@, o2, r2);
            lemma_owner_splits(s@, o2, r2);
            lemma_split_agrees(s@, '/', '/', s1, o2, r2);
        }
    }
    result
}

impl Shorthand {
    /// Reads `s` by this grammar.
    pub fn captures(&self, s: &str) -> (r: Option<Captures>)
        ensures
            captures_view(r) == shorthand_captures(*self, s@),
    {
        match self {
            Shorthand::Ssh => parse_ssh(s),
            Shorthand::HostOwnerRepo => parse_host_form(s),
            Shorthand::OwnerRepo => parse_owner_form(s),
            Shorthand::Repo => {
                if is_token_exec(s, CharClass::Name) {
                    Some(Captures { vcs: None, scheme: None, user: None, host: None, owner: None, repo: s.to_owned() })
                } else {
                    None
                }
            },
        }
    }
}

} // verus!
