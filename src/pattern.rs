//! Patterns that read repository references, and ordered sets of them where the
//! first pattern that matches wins.

use regex::Regex;
use vstd::prelude::*;
use vstd::string::*;

use crate::grammar::{captures_view, opt_view, Captures, CapturesView, Shorthand, shorthand_captures};
use crate::text::{replace, replace_all, str_eq};
use crate::url::{
    clone_opt_host, clone_opt_string, host_name, host_opt_view, parse_host, scheme_token, vcs_token,
    Host, HostView, PartialView, Scheme, Vcs,
};

verus! {

#[verifier::external_type_specification]
#[verifier::external_body]
pub struct ExRegex(Regex);

/// What `re.captures(input)` gives for the named `group`: `None` when `re` does not
/// match `input`; otherwise the text that the group took, `None` when it took none.
pub uninterp spec fn regex_group(re: Regex, input: Seq<char>, group: Seq<char>) -> Option<Option<Seq<char>>>;

/// Relies on regex's `Regex::captures` and `Captures::name`: whether the regex matches,
/// and what the named group took, depend on the regex, the input and the name alone.
#[verifier::external_body]
fn capture_group(re: &Regex, input: &str, group: &str) -> (r: Option<Option<String>>)
    ensures
        match r {
            None => regex_group(*re, input@, group@) is None,
            Some(g) => regex_group(*re, input@, group@) == Some(opt_view(g)),
        },
{
    re.captures(input).map(|c| c.name(group).map(|m| m.as_str().to_string()))
}

/// What `re.find(input)` matched: `None` when `re` matches nowhere in `input`.
pub uninterp spec fn regex_find(re: Regex, input: Seq<char>) -> Option<Seq<char>>;

/// Relies on regex's `Regex::find`: the leftmost-first match depends on the regex
/// and the input alone.
#[verifier::external_body]
fn find_match(re: &Regex, input: &str) -> (r: Option<String>)
    ensures
        opt_view(r) == regex_find(*re, input@),
{
    re.find(input).map(|m| m.as_str().to_string())
}

/// The text a group took, when the regex matched and the group took part.
pub open spec fn group_text(re: Regex, input: Seq<char>, group: Seq<char>) -> Option<Seq<char>> {
    match regex_group(re, input, group) {
        Some(g) => g,
        None => None,
    }
}

/// What a regex reads from `s`: nothing unless the match it finds covers the whole
/// of `s` and its `repo` group took part.
pub open spec fn regex_captures_spec(re: Regex, s: Seq<char>) -> Option<CapturesView> {
    if regex_find(re, s) != Some(s) {
        None
    } else {
        match regex_group(re, s, "repo"@) {
            Some(Some(repo)) => Some(
                CapturesView {
                    vcs: group_text(re, s, "vcs"@),
                    scheme: group_text(re, s, "scheme"@),
                    user: group_text(re, s, "user"@),
                    host: group_text(re, s, "host"@),
                    owner: group_text(re, s, "owner"@),
                    repo: repo,
                },
            ),
            _ => None,
        }
    }
}

fn group(re: &Regex, s: &str, name: &str) -> (r: Option<String>)
    ensures
        opt_view(r) == group_text(*re, s@, name@),
{
    match capture_group(re, s, name) {
        Some(g) => g,
        None => None,
    }
}

fn regex_captures(re: &Regex, s: &str) -> (r: Option<Captures>)
    ensures
        captures_view(r) == regex_captures_spec(*re, s@),
{
    let whole = match find_match(re, s) {
        Some(m) => str_eq(m.as_str(), s),
        None => false,
    };
    if !whole {
        return None;
    }
    match capture_group(re, s, "repo") {
        Some(Some(repo)) => Some(
            Captures {
                vcs: group(re, s, "vcs"),
                scheme: group(re, s, "scheme"),
                user: group(re, s, "user"),
                host: group(re, s, "host"),
                owner: group(re, s, "owner"),
                repo,
            },
        ),
        _ => None,
    }
}

/// How a pattern reads a reference: by one of the shorthand grammars, or by a regex
/// with named groups `vcs`, `scheme`, `user`, `host`, `owner` and `repo`, which
/// matches only where the match it finds is the whole input.
pub enum Matcher {
    Shorthand(Shorthand),
    Regex(Regex),
}

pub open spec fn matcher_captures(m: Matcher, s: Seq<char>) -> Option<CapturesView> {
    match m {
        Matcher::Shorthand(g) => shorthand_captures(g, s),
        Matcher::Regex(re) => regex_captures_spec(re, s),
    }
}

/// A pattern: how it reads a reference, the values it supplies for parts it does
/// not read, an optional URL template, and whether the URL is inferred from parts.
pub struct Pattern {
    pub matcher: Matcher,
    pub vcs: Option<Vcs>,
    pub scheme: Option<Scheme>,
    pub user: Option<String>,
    pub host: Option<Host>,
    pub owner: Option<String>,
    pub url: Option<String>,
    pub infer: Option<bool>,
}

/// The model of a [`Pattern`].
pub struct PatternView {
    pub matcher: Matcher,
    pub vcs: Option<Vcs>,
    pub scheme: Option<Scheme>,
    pub user: Option<Seq<char>>,
    pub host: Option<HostView>,
    pub owner: Option<Seq<char>>,
    pub url: Option<Seq<char>>,
    pub infer: Option<bool>,
}

impl View for Pattern {
    type V = PatternView;

    open spec fn view(&self) -> PatternView {
        PatternView {
            matcher: self.matcher,
            vcs: self.vcs,
            scheme: self.scheme,
            user: opt_view(self.user),
            host: host_opt_view(self.host),
            owner: opt_view(self.owner),
            url: opt_view(self.url),
            infer: self.infer,
        }
    }
}

/// The result of a pattern that matched.
#[derive(Debug)]
pub struct Match {
    pub vcs: Option<Vcs>,
    pub scheme: Option<Scheme>,
    pub user: Option<String>,
    pub host: Option<Host>,
    pub owner: Option<String>,
    pub repo: String,
    pub raw: Option<String>,
}

impl View for Match {
    type V = PartialView;

    open spec fn view(&self) -> PartialView {
        PartialView {
            vcs: self.vcs,
            scheme: self.scheme,
            user: opt_view(self.user),
            host: host_opt_view(self.host),
            owner: opt_view(self.owner),
            repo: self.repo@,
            raw: opt_view(self.raw),
        }
    }
}

pub open spec fn match_view(m: Option<Match>) -> Option<PartialView> {
    match m {
        Some(m) => Some(m@),
        None => None,
    }
}

/// A captured token of the given kind, read when it parses, else the pattern's own value.
pub open spec fn vcs_part(captured: Option<Seq<char>>, fixed: Option<Vcs>) -> Option<Vcs> {
    match captured {
        Some(t) => match vcs_token(t) {
            Some(v) => Some(v),
            None => fixed,
        },
        None => fixed,
    }
}

pub open spec fn scheme_part(captured: Option<Seq<char>>, fixed: Option<Scheme>) -> Option<Scheme> {
    match captured {
        Some(t) => match scheme_token(t) {
            Some(v) => Some(v),
            None => fixed,
        },
        None => fixed,
    }
}

pub open spec fn host_part(captured: Option<Seq<char>>, fixed: Option<HostView>) -> Option<HostView> {
    match captured {
        Some(t) => Some(parse_host(t)),
        None => fixed,
    }
}

pub open spec fn text_part(captured: Option<Seq<char>>, fixed: Option<Seq<char>>) -> Option<Seq<char>> {
    match captured {
        Some(t) => Some(t),
        None => fixed,
    }
}

/// The text a template placeholder stands for: the part's text, or nothing.
pub open spec fn or_empty(t: Option<Seq<char>>) -> Seq<char> {
    match t {
        Some(t) => t,
        None => Seq::empty(),
    }
}

/// `template` with each placeholder `{{vcs}}`, `{{scheme}}`, `{{user}}`, `{{host}}`,
/// `{{owner}}` and `{{repo}}` replaced, in that order, by the part it names.
pub open spec fn fill_template(template: Seq<char>, m: PartialView) -> Seq<char> {
    let t1 = replace_all(template, "{{vcs}}"@, or_empty(match m.vcs { Some(v) => Some(v.name_spec()), None => None }));
    let t2 = replace_all(t1, "{{scheme}}"@, or_empty(match m.scheme { Some(v) => Some(v.name_spec()), None => None }));
    let t3 = replace_all(t2, "{{user}}"@, or_empty(m.user));
    let t4 = replace_all(t3, "{{host}}"@, or_empty(match m.host { Some(h) => Some(host_name(h)), None => None }));
    let t5 = replace_all(t4, "{{owner}}"@, or_empty(m.owner));
    replace_all(t5, "{{repo}}"@, m.repo)
}

/// What pattern `p` makes of input `s`.
pub open spec fn pattern_match(p: PatternView, s: Seq<char>) -> Option<PartialView> {
    match matcher_captures(p.matcher, s) {
        None => None,
        Some(c) => {
            let m = PartialView {
                vcs: vcs_part(c.vcs, p.vcs),
                scheme: scheme_part(c.scheme, p.scheme),
                user: text_part(c.user, p.user),
                host: host_part(c.host, p.host),
                owner: text_part(c.owner, p.owner),
                repo: c.repo,
                raw: None,
            };
            Some(
                PartialView {
                    raw: if p.infer == Some(true) {
                        None
                    } else {
                        match p.url {
                            Some(u) => Some(fill_template(u, m)),
                            None => Some(s),
                        }
                    },
                    ..m
                },
            )
        },
    }
}

fn text_or_empty(t: &Option<String>) -> (r: String)
    ensures
        r@ == or_empty(opt_view(*t)),
{
    match t {
        Some(t) => t.clone(),
        None => String::new(),
    }
}

fn fill(template: &str, m: &Match) -> (r: String)
    ensures
        r@ == fill_template(template@, m@),
{
    proof {
        reveal_strlit("{{vcs}}");
        reveal_strlit("{{scheme}}");
        reveal_strlit("{{user}}");
        reveal_strlit("{{host}}");
        reveal_strlit("{{owner}}");
        reveal_strlit("{{repo}}");
    }
    let vcs = match &m.vcs {
        Some(v) => v.to_string(),
        None => String::new(),
    };
    let scheme = match &m.scheme {
        Some(v) => v.to_string(),
        None => String::new(),
    };
    let host = match &m.host {
        Some(h) => h.to_string(),
        None => String::new(),
    };
    let t1 = replace(template, "{{vcs}}", vcs.as_str());
    let t2 = replace(t1.as_str(), "{{scheme}}", scheme.as_str());
    let t3 = replace(t2.as_str(), "{{user}}", text_or_empty(&m.user).as_str());
    let t4 = replace(t3.as_str(), "{{host}}", host.as_str());
    let t5 = replace(t4.as_str(), "{{owner}}", text_or_empty(&m.owner).as_str());
    replace(t5.as_str(), "{{repo}}", m.repo.as_str())
}

impl Pattern {
    /// A pattern that reads by a regex and supplies no value of its own.
    pub fn from_regex(regex: Regex) -> (r: Pattern)
        ensures
            r@ == (PatternView {
                matcher: Matcher::Regex(regex),
                vcs: None,
                scheme: None,
                user: None,
                host: None,
                owner: None,
                url: None,
                infer: None,
            }),
    {
        Pattern {
            matcher: Matcher::Regex(regex),
            vcs: None,
            scheme: None,
            user: None,
            host: None,
            owner: None,
            url: None,
            infer: None,
        }
    }

    /// A pattern that reads by a shorthand grammar, with the URL inferred from parts.
    pub fn shorthand(g: Shorthand) -> (r: Pattern)
        ensures
            r@ == shorthand_pattern(g, None),
    {
        Pattern {
            matcher: Matcher::Shorthand(g),
            vcs: None,
            scheme: None,
            user: None,
            host: None,
            owner: None,
            url: None,
            infer: Some(true),
        }
    }

    /// This pattern, supplying scheme `s`.
    pub fn with_scheme(self, s: Scheme) -> (r: Pattern)
        ensures
            r@ == (PatternView { scheme: Some(s), ..self@ }),
    {
        Pattern { scheme: Some(s), ..self }
    }

    /// This pattern, with the URL inferred from parts.
    pub fn with_infer(self) -> (r: Pattern)
        ensures
            r@ == (PatternView { infer: Some(true), ..self@ }),
    {
        Pattern { infer: Some(true), ..self }
    }

    /// What this pattern makes of `s`: `None` when it does not match.
    pub fn matches(&self, s: &str) -> (r: Option<Match>)
        ensures
            match_view(r) == pattern_match(self@, s@),
    {
        let captured = match &self.matcher {
            Matcher::Shorthand(g) => g.captures(s),
            Matcher::Regex(re) => regex_captures(re, s),
        };
        match captured {
            None => None,
            Some(c) => {
                let vcs = match &c.vcs {
                    Some(t) => match Vcs::from_str(t.as_str()) {
                        Ok(v) => Some(v),
                        Err(_) => self.vcs,
                    },
                    None => self.vcs,
                };
                let scheme = match &c.scheme {
                    Some(t) => match Scheme::from_str(t.as_str()) {
                        Ok(v) => Some(v),
                        Err(_) => self.scheme,
                    },
                    None => self.scheme,
                };
                let user = match c.user {
                    Some(t) => Some(t),
                    None => clone_opt_string(&self.user),
                };
                let host = match &c.host {
                    Some(t) => Some(Host::from_str(t.as_str())),
                    None => clone_opt_host(&self.host),
                };
                let owner = match c.owner {
                    Some(t) => Some(t),
                    None => clone_opt_string(&self.owner),
                };
                let mut m = Match { vcs, scheme, user, host, owner, repo: c.repo, raw: None };
                let raw = match self.infer {
                    Some(true) => None,
                    _ => match &self.url {
                        Some(u) => Some(fill(u.as_str(), &m)),
                        None => Some(s.to_owned()),
                    },
                };
                m.raw = raw;
                Some(m)
            },
        }
    }
}

/// A shorthand pattern with the URL inferred from parts.
pub open spec fn shorthand_pattern(g: Shorthand, scheme: Option<Scheme>) -> PatternView {
    PatternView {
        matcher: Matcher::Shorthand(g),
        vcs: None,
        scheme: scheme,
        user: None,
        host: None,
        owner: None,
        url: None,
        infer: Some(true),
    }
}

/// What the first pattern of `ps` that matches `s` makes of it; `None` when none does.
pub open spec fn patterns_match(ps: Seq<PatternView>, s: Seq<char>) -> Option<PartialView>
    decreases ps.len(),
{
    if ps.len() == 0 {
        None
    } else {
        match pattern_match(ps[0], s) {
            Some(m) => Some(m),
            None => patterns_match(ps.drop_first(), s),
        }
    }
}

/// The shorthand patterns, in the order they are tried: `user@host:owner/repo` (over
/// SSH), `host:owner/repo`, `owner/repo`, then a bare `repo`.
pub open spec fn default_patterns() -> Seq<PatternView> {
    seq![
        shorthand_pattern(Shorthand::Ssh, Some(Scheme::Ssh)),
        shorthand_pattern(Shorthand::HostOwnerRepo, None),
        shorthand_pattern(Shorthand::OwnerRepo, None),
        shorthand_pattern(Shorthand::Repo, None),
    ]
}

/// Of two patterns that both match an input, the one that comes earlier decides
/// the result, when no pattern before it matches.
pub proof fn lemma_first_match_wins(ps: Seq<PatternView>, s: Seq<char>, i: int, j: int)
    requires
        0 <= i < j < ps.len(),
        pattern_match(ps[i], s).is_some(),
        pattern_match(ps[j], s).is_some(),
        forall|k: int| 0 <= k < i ==> (#[trigger] pattern_match(ps[k], s)).is_none(),
    ensures
        patterns_match(ps, s) == pattern_match(ps[i], s),
    decreases i,
{
    if i > 0 {
        let rest = ps.drop_first();
        assert(pattern_match(ps[0], s).is_none());
        assert forall|k: int| 0 <= k < i - 1 implies (#[trigger] pattern_match(rest[k], s)).is_none() by {
            assert(rest[k] == ps[k + 1]);
        }
        assert(rest[i - 1] == ps[i]);
        assert(rest[j - 1] == ps[j]);
        lemma_first_match_wins(rest, s, i - 1, j - 1);
    }
}

/// An ordered set of patterns; the first that matches wins.
pub struct Patterns(Vec<Pattern>);

impl View for Patterns {
    type V = Seq<PatternView>;

    closed spec fn view(&self) -> Seq<PatternView> {
        self.0@.map_values(|p: Pattern| p@)
    }
}

impl Patterns {
    /// No pattern at all.
    pub fn new() -> (r: Patterns)
        ensures
            r@ == Seq::<PatternView>::empty(),
    {
        let r = Patterns(Vec::new());
        assert(r@ =~= Seq::<PatternView>::empty());
        r
    }

    /// Appends `p`, to be tried after the patterns already here.
    pub fn add(&mut self, p: Pattern)
        ensures
            final(self)@ == old(self)@.push(p@),
    {
        self.0.push(p);
        assert(self@ =~= old(self)@.push(p@));
    }

    /// These patterns followed by `p`.
    pub fn with(self, p: Pattern) -> (r: Patterns)
        ensures
            r@ == self@.push(p@),
    {
        let mut r = self;
        r.add(p);
        r
    }

    /// These patterns followed by the shorthand patterns.
    pub fn with_defaults(self) -> (r: Patterns)
        ensures
            r@ == self@ + default_patterns(),
    {
        let r = self.with(Pattern::shorthand(Shorthand::Ssh).with_scheme(Scheme::Ssh))
            .with(Pattern::shorthand(Shorthand::HostOwnerRepo))
            .with(Pattern::shorthand(Shorthand::OwnerRepo))
            .with(Pattern::shorthand(Shorthand::Repo));
        assert(r@ =~= self@ + default_patterns());
        r
    }

    /// What the first pattern that matches `s` makes of it.
    pub fn matches(&self, s: &str) -> (r: Option<Match>)
        ensures
            match_view(r) == patterns_match(self@, s@),
    {
        let n = self.0.len();
        let mut i: usize = 0;
        assert(self@.skip(0) =~= self@);
        while i < n
            invariant
                n == self.0@.len(),
                n == self@.len(),
                i <= n,
                patterns_match(self@, s@) == patterns_match(self@.skip(i as int), s@),
            decreases n - i,
        {
            let m = self.0[i].matches(s);
            assert(self@.skip(i as int).drop_first() =~= self@.skip(i + 1));
            assert(self@.skip(i as int)[0] == self.0@[i as int]@);
            if m.is_some() {
                return m;
            }
            i = i + 1;
        }
        None
    }
}

impl Default for Patterns {
    /// The shorthand patterns alone.
    fn default() -> (r: Patterns)
        ensures
            r@ == default_patterns(),
    {
        let r = Patterns::new().with_defaults();
        assert(r@ =~= default_patterns());
        r
    }
}

} // verus!
