//! Where a repository lives under the root: `root/host/owner/repo`.

use std::path::PathBuf;
use vstd::prelude::*;
use vstd::string::*;

use crate::root::Root;
use crate::url::{host_name, Url};

verus! {

/// What `base.join(part)` gives.
pub uninterp spec fn path_join(base: PathBuf, part: Seq<char>) -> PathBuf;

/// Relies on std's `Path::join`: the result depends on the base and the part alone.
#[verifier::external_body]
fn join(base: &PathBuf, part: &str) -> (r: PathBuf)
    ensures
        r == path_join(*base, part@),
{
    base.join(part)
}

/// The location of a repository under a root.
#[derive(Debug, PartialEq, Eq, Hash)]
pub struct Path<'a> {
    pub root: &'a Root,
    pub host: String,
    pub owner: String,
    pub repo: String,
}

impl<'a> Path<'a> {
    /// The location `host/owner/repo` under `root`.
    pub fn new(root: &'a Root, host: String, owner: String, repo: String) -> (r: Path<'a>)
        ensures
            r.root == root,
            r.host@ == host@,
            r.owner@ == owner@,
            r.repo@ == repo@,
    {
        Path { root, host, owner, repo }
    }

    /// The location of `url` under `root`: its host's name, owner and repository.
    pub fn resolve(root: &'a Root, url: &Url) -> (r: Path<'a>)
        ensures
            r.root == root,
            r.host@ == host_name(url.host@),
            r.owner@ == url.owner@,
            r.repo@ == url.repo@,
    {
        Path { root, host: url.host.to_string(), owner: url.owner.clone(), repo: url.repo.clone() }
    }

    /// The name of this location, with or without its host and owner:
    /// `host:owner/repo`, `host:repo`, `owner/repo` or `repo`.
    pub fn to_string_with(&self, host: bool, owner: bool) -> (r: String)
        ensures
            r@ == (if host { self.host@ + ":"@ } else { Seq::empty() }) + (if owner {
                self.owner@ + "/"@
            } else {
                Seq::empty()
            }) + self.repo@,
    {
        let mut out = String::new();
        if host {
            out.append(self.host.as_str());
            out.append(":");
        }
        if owner {
            out.append(self.owner.as_str());
            out.append("/");
        }
        out.append(self.repo.as_str());
        proof {
            let h: Seq<char> = if host { self.host@ + ":"@ } else { Seq::empty() };
            let o: Seq<char> = if owner { self.owner@ + "/"@ } else { Seq::empty() };
            assert(out@ =~= h + o + self.repo@);
        }
        out
    }

    /// The name of this location: `host:owner/repo`.
    pub fn to_string(&self) -> (r: String)
        ensures
            r@ == self.host@ + ":"@ + self.owner@ + "/"@ + self.repo@,
    {
        let r = self.to_string_with(true, true);
        assert(r@ =~= self.host@ + ":"@ + self.owner@ + "/"@ + self.repo@);
        r
    }

    /// The directory: the root joined with the host, the owner and the repository.
    pub fn to_path_buf(&self) -> (r: PathBuf)
        ensures
            r == path_join(
                path_join(path_join(self.root.path_spec(), self.host@), self.owner@),
                self.repo@,
            ),
    {
        let p = join(self.root.path(), self.host.as_str());
        let p = join(&p, self.owner.as_str());
        join(&p, self.repo.as_str())
    }
}

/// A location that may stop short of a repository: the root, a host, or an owner.
pub struct PartialPath<'a> {
    pub root: &'a Root,
    pub host: Option<String>,
    pub owner: Option<String>,
    pub repo: Option<String>,
}

impl<'a> PartialPath<'a> {
    /// The directory: the root joined with host, owner and repository in turn,
    /// stopping at the first that is absent.
    pub fn to_path_buf(&self) -> (r: PathBuf)
        ensures
            r == match self.host {
                None => self.root.path_spec(),
                Some(h) => match self.owner {
                    None => path_join(self.root.path_spec(), h@),
                    Some(o) => match self.repo {
                        None => path_join(path_join(self.root.path_spec(), h@), o@),
                        Some(rp) => path_join(path_join(path_join(self.root.path_spec(), h@), o@), rp@),
                    },
                },
            },
    {
        let root = self.root.path();
        match &self.host {
            None => clone_path(root),
            Some(h) => {
                let p = join(root, h.as_str());
                match &self.owner {
                    None => p,
                    Some(o) => {
                        let p = join(&p, o.as_str());
                        match &self.repo {
                            None => p,
                            Some(rp) => join(&p, rp.as_str()),
                        }
                    },
                }
            },
        }
    }
}

/// Relies on `PathBuf`'s `Clone`: the copy is the same path.
#[verifier::external_body]
fn clone_path(p: &PathBuf) -> (r: PathBuf)
    ensures
        r == *p,
{
    p.clone()
}

} // verus!
