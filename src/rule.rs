//! Rules that pick a profile for a repository identity: the first rule whose
//! present fields all equal the identity's wins.

use vstd::prelude::*;

use crate::grammar::opt_view;
use crate::url::{host_name, Url, UrlView};

verus! {

/// The name of a profile that a rule selects.
#[derive(Debug)]
pub struct ProfileRef {
    pub name: String,
}

impl Clone for ProfileRef {
    fn clone(&self) -> (r: ProfileRef)
        ensures
            r.name@ == self.name@,
    {
        ProfileRef { name: self.name.clone() }
    }
}

/// A rule: optional host, owner and repository to compare, and the profile it selects.
#[derive(Debug)]
pub struct Rule {
    pub profile: ProfileRef,
    pub host: Option<String>,
    pub owner: Option<String>,
    pub repo: Option<String>,
}

/// The model of a [`Rule`].
pub struct RuleView {
    pub profile: Seq<char>,
    pub host: Option<Seq<char>>,
    pub owner: Option<Seq<char>>,
    pub repo: Option<Seq<char>>,
}

impl View for Rule {
    type V = RuleView;

    open spec fn view(&self) -> RuleView {
        RuleView {
            profile: self.profile.name@,
            host: opt_view(self.host),
            owner: opt_view(self.owner),
            repo: opt_view(self.repo),
        }
    }
}

/// An absent field matches anything; a present one must equal `actual`.
pub open spec fn field_matches(field: Option<Seq<char>>, actual: Seq<char>) -> bool {
    match field {
        Some(f) => f == actual,
        None => true,
    }
}

/// Rule `r` matches identity `u` when each of its present fields equals the
/// identity's: the host by its name.
pub open spec fn rule_matches(r: RuleView, u: UrlView) -> bool {
    &&& field_matches(r.host, host_name(u.host))
    &&& field_matches(r.owner, u.owner)
    &&& field_matches(r.repo, u.repo)
}

/// The first rule of `rules` that matches `u`.
pub open spec fn first_rule(rules: Seq<RuleView>, u: UrlView) -> Option<RuleView>
    decreases rules.len(),
{
    if rules.len() == 0 {
        None
    } else if rule_matches(rules[0], u) {
        Some(rules[0])
    } else {
        first_rule(rules.drop_first(), u)
    }
}

fn field_matches_exec(field: &Option<String>, actual: &String) -> (r: bool)
    ensures
        r == field_matches(opt_view(*field), actual@),
{
    match field {
        Some(f) => f.eq(actual),
        None => true,
    }
}

impl Rule {
    /// Whether this rule matches `url`.
    pub fn matches(&self, url: &Url) -> (r: bool)
        ensures
            r == rule_matches(self@, url@),
    {
        let host = url.host.to_string();
        field_matches_exec(&self.host, &host) && field_matches_exec(&self.owner, &url.owner)
            && field_matches_exec(&self.repo, &url.repo)
    }
}

pub open spec fn rule_ref_view(r: Option<&Rule>) -> Option<RuleView> {
    match r {
        Some(r) => Some(r@),
        None => None,
    }
}

/// Rules in the order they are declared.
#[derive(Debug)]
pub struct Rules(Vec<Rule>);

impl View for Rules {
    type V = Seq<RuleView>;

    closed spec fn view(&self) -> Seq<RuleView> {
        self.0@.map_values(|r: Rule| r@)
    }
}

impl Rules {
    /// The rules `rules`, in that order.
    pub fn new(rules: Vec<Rule>) -> (r: Rules)
        ensures
            r@ == rules@.map_values(|x: Rule| x@),
    {
        Rules(rules)
    }

    /// The first rule that matches `url`, if any.
    pub fn resolve(&self, url: &Url) -> (r: Option<&Rule>)
        ensures
            rule_ref_view(r) == first_rule(self@, url@),
    {
        let n = self.0.len();
        let mut i: usize = 0;
        assert(self@.skip(0) =~= self@);
        while i < n
            invariant
                n == self.0@.len(),
                n == self@.len(),
                i <= n,
                first_rule(self@, url@) == first_rule(self@.skip(i as int), url@),
            decreases n - i,
        {
            assert(self@.skip(i as int).drop_first() =~= self@.skip(i + 1));
            assert(self@.skip(i as int)[0] == self.0@[i as int]@);
            if self.0[i].matches(url) {
                return Some(&self.0[i]);
            }
            i = i + 1;
        }
        None
    }
}

impl Default for Rules {
    fn default() -> (r: Rules)
        ensures
            r@ == Seq::<RuleView>::empty(),
    {
        let r = Rules(Vec::new());
        assert(r@ =~= Seq::<RuleView>::empty());
        r
    }
}

/// With a rule for one host followed by a rule with no field, an identity on that
/// host gets the first rule, and an identity on any other host the second.
pub proof fn lemma_host_rule_then_fallback(specific: RuleView, fallback: RuleView, u: UrlView)
    requires
        specific.host is Some,
        specific.owner is None,
        specific.repo is None,
        fallback.host is None,
        fallback.owner is None,
        fallback.repo is None,
    ensures
        first_rule(seq![specific, fallback], u) == if specific.host == Some(host_name(u.host)) {
            Some(specific)
        } else {
            Some(fallback)
        },
{
    let rules = seq![specific, fallback];
    assert(rules[0] == specific);
    assert(rules.drop_first() =~= seq![fallback]);
    assert(seq![fallback][0] == fallback);
    assert(rule_matches(fallback, u));
    assert(first_rule(seq![fallback], u) == Some(fallback));
    if specific.host == Some(host_name(u.host)) {
        assert(rule_matches(specific, u));
    } else {
        assert(!rule_matches(specific, u));
    }
}

} // verus!
