//! Fuzzy search over the names of the managed repositories: the names that
//! score above a threshold, best first.

use nucleo_matcher::pattern::{AtomKind, CaseMatching, Normalization, Pattern};
use nucleo_matcher::{Config, Matcher, Utf32Str};
use vstd::prelude::*;

use crate::application::strings_view;

verus! {

/// The score a name must exceed to be listed.
pub const MIN_SCORE: u32 = 50;

/// What nucleo-matcher scores `item` against the fuzzy pattern `query`; `None`
/// when it does not match.
pub uninterp spec fn fuzzy_score(query: Seq<char>, item: Seq<char>) -> Option<u32>;

/// Relies on nucleo-matcher's `Pattern::score`, for a pattern made by `Pattern::new`
/// with smart case matching, smart normalization and fuzzy atoms, under the default
/// configuration: the score depends on the query and the item alone.
#[verifier::external_body]
fn score(query: &str, item: &str) -> (r: Option<u32>)
    ensures
        r == fuzzy_score(query@, item@),
{
    let mut matcher = Matcher::new(Config::DEFAULT);
    let pattern = Pattern::new(query, CaseMatching::Smart, Normalization::Smart, AtomKind::Fuzzy);
    let mut buf = Vec::new();
    pattern.score(Utf32Str::new(item, &mut buf), &mut matcher)
}

/// `s` with `x` placed after every leading entry that scores at least as high.
pub open spec fn insert_desc(s: Seq<(Seq<char>, u32)>, x: (Seq<char>, u32)) -> Seq<(Seq<char>, u32)>
    decreases s.len(),
{
    if s.len() == 0 {
        seq![x]
    } else if s[0].1 >= x.1 {
        seq![s[0]] + insert_desc(s.drop_first(), x)
    } else {
        seq![x] + s
    }
}

/// `s` sorted by descending score, entries of equal score in their order in `s`.
pub open spec fn sort_desc(s: Seq<(Seq<char>, u32)>) -> Seq<(Seq<char>, u32)>
    decreases s.len(),
{
    if s.len() == 0 {
        s
    } else {
        insert_desc(sort_desc(s.drop_last()), s.last())
    }
}

/// The items that score above `min` against `query`, with their scores, in order.
pub open spec fn scored(query: Seq<char>, items: Seq<Seq<char>>, min: u32) -> Seq<(Seq<char>, u32)>
    decreases items.len(),
{
    if items.len() == 0 {
        Seq::empty()
    } else {
        let before = scored(query, items.drop_last(), min);
        match fuzzy_score(query, items.last()) {
            Some(s) if s > min => before.push((items.last(), s)),
            _ => before,
        }
    }
}

/// The items that score above `min` against `query`, best first, items of equal
/// score in their given order.
pub open spec fn search_spec(query: Seq<char>, items: Seq<Seq<char>>, min: u32) -> Seq<Seq<char>> {
    sort_desc(scored(query, items, min)).map_values(|e: (Seq<char>, u32)| e.0)
}

proof fn lemma_insert_desc(s: Seq<(Seq<char>, u32)>, x: (Seq<char>, u32), p: int)
    requires
        0 <= p <= s.len(),
        forall|i: int| 0 <= i < p ==> s[i].1 >= x.1,
        p == s.len() || s[p].1 < x.1,
    ensures
        insert_desc(s, x) == s.insert(p, x),
    decreases p,
{
    if s.len() == 0 {
        assert(s.insert(p, x) =~= seq![x]);
    } else if p == 0 {
        assert(s.insert(p, x) =~= seq![x] + s);
    } else {
        lemma_insert_desc(s.drop_first(), x, p - 1);
        assert(s.insert(p, x) =~= seq![s[0]] + s.drop_first().insert(p - 1, x));
    }
}

/// The items that score above [`MIN_SCORE`] against `query`, best first.
pub fn search(query: &str, items: &Vec<String>) -> (r: Vec<String>)
    ensures
        strings_view(r@) == search_spec(query@, strings_view(items@), MIN_SCORE),
{
    let ghost all = strings_view(items@);
    let n = items.len();
    let mut names: Vec<String> = Vec::new();
    let mut scores: Vec<u32> = Vec::new();
    let mut i: usize = 0;
    while i < n
        invariant
            n == items@.len(),
            all == strings_view(items@),
            i <= n,
            names@.len() == scores@.len(),
            sort_desc(scored(query@, all.take(i as int), MIN_SCORE)) == Seq::new(
                names@.len() as nat,
                |k: int| (names@[k]@, scores@[k]),
            ),
        decreases n - i,
    {
        let ghost prefix = all.take(i as int);
        assert(all.take(i + 1).drop_last() =~= prefix);
        assert(all.take(i + 1).last() == items@[i as int]@);
        let ghost sorted = Seq::new(names@.len() as nat, |k: int| (names@[k]@, scores@[k]));
        match score(query, items[i].as_str()) {
            Some(s) => {
                if s > MIN_SCORE {
                    let m = names.len();
                    let mut p: usize = 0;
                    while p < m && scores[p] >= s
                        invariant
                            m == names@.len(),
                            m == scores@.len(),
                            p <= m,
                            forall|k: int| 0 <= k < p ==> scores@[k] >= s,
                        decreases m - p,
                    {
                        p = p + 1;
                    }
                    let ghost entry = (items@[i as int]@, s);
                    proof {
                        lemma_insert_desc(sorted, entry, p as int);
                        let sc = scored(query@, prefix, MIN_SCORE);
                        assert(scored(query@, all.take(i + 1), MIN_SCORE) == sc.push(entry));
                        assert(sc.push(entry).drop_last() =~= sc);
                        assert(sort_desc(sc.push(entry)) == insert_desc(sort_desc(sc), entry));
                    }
                    names.insert(p, items[i].clone());
                    scores.insert(p, s);
                    assert(Seq::new(names@.len() as nat, |k: int| (names@[k]@, scores@[k])) =~= sorted.insert(
                        p as int,
                        entry,
                    ));
                }
            },
            None => {},
        }
        proof {
            if names@.len() == sorted.len() {
                assert(scored(query@, all.take(i + 1), MIN_SCORE) == scored(query@, prefix, MIN_SCORE));
                assert(Seq::new(names@.len() as nat, |k: int| (names@[k]@, scores@[k])) =~= sorted);
            }
        }
        i = i + 1;
    }
    assert(all.take(n as int) =~= all);
    assert(strings_view(names@) =~= search_spec(query@, all, MIN_SCORE));
    names
}

} // verus!
