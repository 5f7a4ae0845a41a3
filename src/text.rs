//! Character-level helpers on strings, each proved against a small
//! specification over `Seq<char>`.

use vstd::prelude::*;
use vstd::string::*;

verus! {

/// `c` lowered by ASCII case folding is `l`.
pub open spec fn lowers_to(c: char, l: char) -> bool {
    if 'A' <= c && c <= 'Z' {
        c as u32 + 32 == l as u32
    } else {
        c == l
    }
}

/// `s` folded to ASCII lower case is `lower`.
pub open spec fn ascii_lower_is(s: Seq<char>, lower: Seq<char>) -> bool {
    &&& s.len() == lower.len()
    &&& forall|i: int| 0 <= i < s.len() ==> lowers_to(#[trigger] s[i], lower[i])
}

/// Whether `s`, folded to ASCII lower case, equals `lower`.
pub fn lower_equals(s: &str, lower: &str) -> (r: bool)
    ensures
        r == ascii_lower_is(s@, lower@),
{
    let n = s.unicode_len();
    if n != lower.unicode_len() {
        return false;
    }
    let mut i: usize = 0;
    while i < n
        invariant
            n == s@.len(),
            n == lower@.len(),
            i <= n,
            forall|j: int| 0 <= j < i ==> lowers_to(#[trigger] s@[j], lower@[j]),
        decreases n - i,
    {
        let c = s.get_char(i);
        let l = lower.get_char(i);
        let ok = if 'A' <= c && c <= 'Z' {
            c as u32 + 32 == l as u32
        } else {
            c == l
        };
        if !ok {
            return false;
        }
        i = i + 1;
    }
    true
}


/// `c` is one of the two separators `a` and `b`.
pub open spec fn is_sep(c: char, a: char, b: char) -> bool {
    c == a || c == b
}

/// `x` holds neither `a` nor `b`.
pub open spec fn free_of(x: Seq<char>, a: char, b: char) -> bool {
    forall|i: int| 0 <= i < x.len() ==> !is_sep(#[trigger] x[i], a, b)
}

/// `s` is `x`, a separator, then `y`, where `x` holds no separator: `s` split at its
/// first `a` or `b`.
pub open spec fn splits_into(s: Seq<char>, a: char, b: char, x: Seq<char>, y: Seq<char>) -> bool {
    &&& free_of(x, a, b)
    &&& x.len() < s.len()
    &&& is_sep(s[x.len() as int], a, b)
    &&& s == x + seq![s[x.len() as int]] + y
}

/// A split at the first separator is the only split whose left part is free of separators.
pub proof fn lemma_split_unique(
    s: Seq<char>,
    a: char,
    b: char,
    x: Seq<char>,
    y: Seq<char>,
    x2: Seq<char>,
    c2: char,
    y2: Seq<char>,
)
    requires
        splits_into(s, a, b, x, y),
        free_of(x2, a, b),
        is_sep(c2, a, b),
        s == x2 + seq![c2] + y2,
    ensures
        x == x2,
        y == y2,
{
    if x.len() < x2.len() {
        assert(s[x.len() as int] == x2[x.len() as int]);
    } else if x2.len() < x.len() {
        assert(s[x2.len() as int] == x[x2.len() as int]);
    }
    assert(x =~= s.subrange(0, x.len() as int));
    assert(x2 =~= s.subrange(0, x2.len() as int));
    assert(y =~= s.skip(x.len() as int + 1));
    assert(y2 =~= s.skip(x2.len() as int + 1));
}

/// `x`, a separator, then `y` is split at that separator when `x` holds none.
pub proof fn lemma_splits_at(x: Seq<char>, c: char, y: Seq<char>, a: char, b: char)
    requires
        free_of(x, a, b),
        is_sep(c, a, b),
    ensures
        splits_into(x + seq![c] + y, a, b, x, y),
{
    let s = x + seq![c] + y;
    assert(s[x.len() as int] == c);
}

/// The view of what [`split_first`] returns.
pub open spec fn split_view(r: Option<(String, String)>) -> Option<(Seq<char>, Seq<char>)> {
    match r {
        Some((x, y)) => Some((x@, y@)),
        None => None,
    }
}

/// What [`split_first`] returns is the split at the first separator, wherever one exists.
pub proof fn lemma_split_agrees(
    s: Seq<char>,
    a: char,
    b: char,
    r: Option<(Seq<char>, Seq<char>)>,
    x: Seq<char>,
    y: Seq<char>,
)
    requires
        match r {
            Some((x1, y1)) => splits_into(s, a, b, x1, y1),
            None => free_of(s, a, b),
        },
        splits_into(s, a, b, x, y),
    ensures
        r == Some((x, y)),
{
    match r {
        Some((x1, y1)) => {
            lemma_split_unique(s, a, b, x1, y1, x, s[x.len() as int], y);
        },
        None => {
            assert(!is_sep(s[x.len() as int], a, b));
        },
    }
}

/// `s` split at its first `a` or `b`, when it holds one.
pub open spec fn split_at_sep(s: Seq<char>, a: char, b: char) -> Option<(Seq<char>, Seq<char>)> {
    if exists|x: Seq<char>, y: Seq<char>| splits_into(s, a, b, x, y) {
        Some(choose|x: Seq<char>, y: Seq<char>| splits_into(s, a, b, x, y))
    } else {
        None
    }
}

/// `s` ends with `suffix`.
pub open spec fn ends_with(s: Seq<char>, suffix: Seq<char>) -> bool {
    suffix.len() <= s.len() && s.subrange(s.len() - suffix.len(), s.len() as int) == suffix
}

/// `part` occurs somewhere in `s`.
pub open spec fn contains(s: Seq<char>, part: Seq<char>) -> bool {
    exists|i: int| 0 <= i && i + part.len() <= s.len() && #[trigger] s.subrange(i, i + part.len()) == part
}

/// Splits `s` at its first `a` or `b`, dropping the separator.
pub fn split_first(s: &str, a: char, b: char) -> (r: Option<(String, String)>)
    ensures
        match r {
            Some((x, y)) => splits_into(s@, a, b, x@, y@),
            None => free_of(s@, a, b),
        },
        split_view(r) == split_at_sep(s@, a, b),
{
    let n = s.unicode_len();
    let mut i: usize = 0;
    while i < n
        invariant
            n == s@.len(),
            i <= n,
            free_of(s@.subrange(0, i as int), a, b),
        decreases n - i,
    {
        let c = s.get_char(i);
        if c == a || c == b {
            let x = s.substring_char(0, i).to_owned();
            let y = s.substring_char(i + 1, n).to_owned();
            assert(s@ =~= x@ + seq![s@[i as int]] + y@);
            proof {
                assert(splits_into(s@, a, b, x@, y@));
                let (x2, y2) = choose|x2: Seq<char>, y2: Seq<char>| splits_into(s@, a, b, x2, y2);
                lemma_split_agrees(s@, a, b, Some((x@, y@)), x2, y2);
            }
            return Some((x, y));
        }
        assert(free_of(s@.subrange(0, i + 1), a, b)) by {
            assert forall|j: int| 0 <= j < i + 1 implies !is_sep(#[trigger] s@.subrange(0, i + 1)[j], a, b) by {
                if j < i {
                    assert(s@.subrange(0, i + 1)[j] == s@.subrange(0, i as int)[j]);
                }
            }
        }
        i = i + 1;
    }
    assert(s@.subrange(0, n as int) =~= s@);
    proof {
        if exists|x2: Seq<char>, y2: Seq<char>| splits_into(s@, a, b, x2, y2) {
            let (x2, y2) = choose|x2: Seq<char>, y2: Seq<char>| splits_into(s@, a, b, x2, y2);
            lemma_split_agrees(s@, a, b, None, x2, y2);
        }
    }
    None
}

/// Whether `s` ends with `suffix`.
pub fn ends_with_exec(s: &str, suffix: &str) -> (r: bool)
    ensures
        r == ends_with(s@, suffix@),
{
    let n = s.unicode_len();
    let m = suffix.unicode_len();
    if m > n {
        return false;
    }
    holds_at(s, n - m, suffix)
}

/// Whether `part` occurs in `s`.
pub fn contains_exec(s: &str, part: &str) -> (r: bool)
    ensures
        r == contains(s@, part@),
{
    let n = s.unicode_len();
    let m = part.unicode_len();
    if m > n {
        return false;
    }
    if m == 0 {
        assert(s@.subrange(0int, 0int + part@.len()) =~= part@);
        return true;
    }
    let mut i: usize = 0;
    while i <= n - m
        invariant
            n == s@.len(),
            m == part@.len(),
            0 < m <= n,
            i <= n - m + 1,
            forall|j: int| 0 <= j < i ==> #[trigger] s@.subrange(j, j + m) != part@,
        decreases n - m + 1 - i,
    {
        if holds_at(s, i, part) {
            return true;
        }
        i = i + 1;
    }
    false
}

/// `s` with every trailing copy of `suffix` removed.
pub open spec fn trim_end_all(s: Seq<char>, suffix: Seq<char>) -> Seq<char>
    decreases s.len(),
{
    if suffix.len() > 0 && suffix.len() <= s.len() && s.subrange(s.len() - suffix.len(), s.len() as int) == suffix {
        trim_end_all(s.subrange(0, s.len() - suffix.len()), suffix)
    } else {
        s
    }
}

/// Whether `s` holds `part` at position `at`.
pub fn holds_at(s: &str, at: usize, part: &str) -> (r: bool)
    requires
        at <= s@.len(),
    ensures
        r == (at + part@.len() <= s@.len() && s@.subrange(at as int, at + part@.len()) == part@),
{
    let n = s.unicode_len();
    let m = part.unicode_len();
    if m > n - at {
        return false;
    }
    let mut j: usize = 0;
    while j < m
        invariant
            n == s@.len(),
            m == part@.len(),
            at + m <= n,
            j <= m,
            forall|k: int| 0 <= k < j ==> s@[at + k] == part@[k],
        decreases m - j,
    {
        if s.get_char(at + j) != part.get_char(j) {
            assert(s@.subrange(at as int, at + m)[j as int] != part@[j as int]);
            return false;
        }
        j = j + 1;
    }
    assert(s@.subrange(at as int, at + m) =~= part@);
    true
}

/// Whether `a` and `b` hold the same characters.
pub fn str_eq(a: &str, b: &str) -> (r: bool)
    ensures
        r == (a@ == b@),
{
    if a.unicode_len() != b.unicode_len() {
        return false;
    }
    let r = holds_at(a, 0, b);
    assert(a@.subrange(0, b@.len() as int) =~= a@);
    r
}

/// Removes every trailing copy of `suffix` from `s`.
pub fn trim_end_matches(s: &str, suffix: &str) -> (r: String)
    ensures
        r@ == trim_end_all(s@, suffix@),
{
    let m = suffix.unicode_len();
    let mut end = s.unicode_len();
    if m == 0 {
        return s.to_owned();
    }
    assert(s@.subrange(0, end as int) =~= s@);
    while m <= end && holds_at(s, end - m, suffix)
        invariant
            m == suffix@.len(),
            m > 0,
            end <= s@.len(),
            trim_end_all(s@.subrange(0, end as int), suffix@) == trim_end_all(s@, suffix@),
        decreases end,
    {
        let ghost t = s@.subrange(0, end as int);
        assert(t.subrange(t.len() - m, t.len() as int) =~= s@.subrange(end - m, end as int));
        assert(t.subrange(0, t.len() - m) =~= s@.subrange(0, end - m));
        end = end - m;
    }
    let r = s.substring_char(0, end).to_owned();
    proof {
        let t = s@.subrange(0, end as int);
        if m <= end {
            assert(t.subrange(t.len() - m, t.len() as int) =~= s@.subrange(end - m, end as int));
        }
    }
    r
}

/// `s` with each occurrence of `from`, scanned left to right without overlap,
/// replaced by `to`.
pub open spec fn replace_all(s: Seq<char>, from: Seq<char>, to: Seq<char>) -> Seq<char>
    decreases s.len(),
{
    if from.len() == 0 || s.len() < from.len() {
        s
    } else if s.subrange(0, from.len() as int) == from {
        to + replace_all(s.skip(from.len() as int), from, to)
    } else {
        seq![s[0]] + replace_all(s.skip(1), from, to)
    }
}

/// Replaces each occurrence of `from` in `s` by `to`.
pub fn replace(s: &str, from: &str, to: &str) -> (r: String)
    requires
        from@.len() > 0,
    ensures
        r@ == replace_all(s@, from@, to@),
{
    let n = s.unicode_len();
    let m = from.unicode_len();
    let mut out = String::new();
    let mut i: usize = 0;
    assert(s@.skip(0) =~= s@);
    assert(out@ + replace_all(s@, from@, to@) =~= replace_all(s@, from@, to@));
    while i < n
        invariant
            n == s@.len(),
            m == from@.len(),
            m > 0,
            i <= n,
            out@ + replace_all(s@.skip(i as int), from@, to@) == replace_all(s@, from@, to@),
        decreases n - i,
    {
        let ghost rest = s@.skip(i as int);
        if holds_at(s, i, from) {
            assert(rest.subrange(0, m as int) =~= s@.subrange(i as int, i + m));
            assert(rest.skip(m as int) =~= s@.skip(i + m));
            out.append(to);
            assert(out@ + replace_all(s@.skip(i + m), from@, to@) =~= replace_all(s@, from@, to@));
            i = i + m;
        } else {
            let c = s.substring_char(i, i + 1);
            proof {
                if m <= rest.len() {
                    assert(rest.subrange(0, m as int) =~= s@.subrange(i as int, i + m));
                }
                assert(rest.skip(1) =~= s@.skip(i + 1));
                assert(c@ =~= seq![rest[0]]);
            }
            out.append(c);
            assert(out@ + replace_all(s@.skip(i + 1), from@, to@) =~= replace_all(s@, from@, to@));
            i = i + 1;
        }
    }
    assert(s@.skip(n as int) =~= Seq::<char>::empty());
    assert(out@ + Seq::<char>::empty() =~= out@);
    out
}

} // verus!
