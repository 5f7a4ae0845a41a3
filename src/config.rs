//! The parts of the configuration that resolution reads: the owners to try for
//! a reference that names none.

use vstd::prelude::*;

use crate::application::strings_view;
use crate::grammar::opt_view;
use crate::url::{promote, PartialUrl, Url, UrlView};

verus! {

/// The older form of the default owner: one owner at most.
#[derive(Debug, Default)]
pub struct Defaults {
    pub owner: Option<String>,
}

/// The owners to try, in order, for a reference that names none.
#[derive(Debug, Default)]
pub struct SearchPath {
    pub owner: Vec<String>,
}

impl SearchPath {
    /// Puts the older default owner, when there is one, before the others.
    pub fn merge_defaults(&mut self, defaults: &Defaults)
        ensures
            strings_view(final(self).owner@) == match opt_view(defaults.owner) {
                Some(o) => seq![o] + strings_view(old(self).owner@),
                None => strings_view(old(self).owner@),
            },
    {
        if let Some(o) = &defaults.owner {
            self.owner.insert(0, o.clone());
            assert(strings_view(self.owner@) =~= seq![o@] + strings_view(old(self).owner@));
        }
    }

    /// The identities that `partial` resolves to with each owner of the search
    /// path in turn, skipping those that fail.
    pub fn candidates(&self, partial: &PartialUrl) -> (r: Vec<Url>)
        ensures
            r@.map_values(|u: Url| u@) == candidates_spec(partial@, strings_view(self.owner@)),
    {
        let n = self.owner.len();
        let mut out: Vec<Url> = Vec::new();
        let mut i: usize = 0;
        while i < n
            invariant
                n == self.owner@.len(),
                i <= n,
                out@.map_values(|u: Url| u@) == candidates_spec(partial@, strings_view(self.owner@).take(i as int)),
            decreases n - i,
        {
            let ghost owners = strings_view(self.owner@);
            assert(owners.take(i + 1).drop_last() =~= owners.take(i as int));
            assert(owners.take(i + 1).last() == self.owner@[i as int]@);
            let ghost before = out@;
            match Url::from_partial(partial, Some(self.owner[i].as_str())) {
                Ok(u) => {
                    out.push(u);
                    assert(out@.map_values(|u: Url| u@) =~= before.map_values(|u: Url| u@).push(out@.last()@));
                },
                Err(_) => {},
            }
            i = i + 1;
        }
        assert(strings_view(self.owner@).take(n as int) =~= strings_view(self.owner@));
        out
    }
}

/// What `partial` resolves to with each of `owners` as the default owner, in
/// order, leaving out the owners with which it fails.
pub open spec fn candidates_spec(partial: crate::url::PartialView, owners: Seq<Seq<char>>) -> Seq<UrlView>
    decreases owners.len(),
{
    if owners.len() == 0 {
        Seq::empty()
    } else {
        let before = candidates_spec(partial, owners.drop_last());
        match promote(partial, Some(owners.last())) {
            Ok(u) => before.push(u),
            Err(_) => before,
        }
    }
}

} // verus!
