//! The record of managed repositories that is dumped on one machine and
//! restored on another: each repository's remotes and the ref it is synced to.

use vstd::prelude::*;
use vstd::string::*;

use crate::path::Path;
use crate::pattern::Patterns;
use crate::url::{host_name, resolve, str_opt_view, Url};

verus! {

/// A local branch and the remote it tracks.
#[derive(Debug)]
pub struct BranchRef {
    pub name: String,
    pub remote: String,
}

/// The ref that a repository is synced to.
#[derive(Debug)]
pub enum Ref {
    /// A remote ref, by its full name.
    Remote(String),
    /// A local branch that equals its upstream.
    Branch(BranchRef),
}

/// A remote: its name, URL and push URL.
#[derive(Debug)]
pub struct Remote {
    pub name: String,
    pub url: String,
    pub push_url: Option<String>,
}

/// A repository's location, the ref it is synced to, and its remotes.
#[derive(Debug)]
pub struct Repository {
    pub host: String,
    pub owner: String,
    pub repo: String,
    pub git_ref: Option<Ref>,
    pub remotes: Vec<Remote>,
}

/// The version of the record's format.
#[derive(Debug, Clone, Copy, PartialEq, Eq, Structural)]
pub enum Version {
    V1,
}

/// The record of repositories.
#[derive(Debug)]
pub struct File {
    pub version: Version,
    pub repositories: Vec<Repository>,
}

/// The upstream of a local branch.
#[derive(Debug)]
pub struct Upstream {
    /// Whether the upstream points where the branch does.
    pub same_as_head: bool,
    /// The name of the remote of the upstream.
    pub remote: String,
}

/// What `HEAD` of a repository is.
#[derive(Debug)]
pub enum Head {
    /// A remote ref, by its full name.
    Remote(String),
    /// A local branch, by its short name, with its upstream if it has one.
    Branch(String, Option<Upstream>),
    /// A tag.
    Tag,
    /// A commit, detached from any branch.
    Detached,
}

/// Why a repository is not synced to a remote.
#[derive(Debug, Clone, Copy, PartialEq, Eq, Structural)]
pub enum SyncError {
    /// The branch has no upstream.
    NeverPushed,
    /// The branch and its upstream differ.
    NotSynced,
    /// `HEAD` is a tag.
    Tag,
    /// `HEAD` is detached.
    Detached,
    /// The repository has no remote.
    NoRemotes,
}

impl Repository {
    /// The ref that `head` is synced to: a remote ref as it is, or a branch that
    /// equals its upstream.
    pub fn synced_ref(head: Head) -> (r: Result<Ref, SyncError>)
        ensures
            match head {
                Head::Remote(n) => r matches Ok(Ref::Remote(m)) && m@ == n@,
                Head::Branch(n, None) => r == Err::<Ref, SyncError>(SyncError::NeverPushed),
                Head::Branch(n, Some(u)) => if u.same_as_head {
                    r matches Ok(Ref::Branch(b)) && b.name@ == n@ && b.remote@ == u.remote@
                } else {
                    r == Err::<Ref, SyncError>(SyncError::NotSynced)
                },
                Head::Tag => r == Err::<Ref, SyncError>(SyncError::Tag),
                Head::Detached => r == Err::<Ref, SyncError>(SyncError::Detached),
            },
    {
        match head {
            Head::Remote(n) => Ok(Ref::Remote(n)),
            Head::Branch(name, None) => Err(SyncError::NeverPushed),
            Head::Branch(name, Some(u)) => if u.same_as_head {
                Ok(Ref::Branch(BranchRef { name, remote: u.remote }))
            } else {
                Err(SyncError::NotSynced)
            },
            Head::Tag => Err(SyncError::Tag),
            Head::Detached => Err(SyncError::Detached),
        }
    }

    /// The record of the repository at `path`, with the ref it is synced to when
    /// there is one; a repository without remotes has no record.
    pub fn save(path: &Path, synced: Result<Ref, SyncError>, remotes: Vec<Remote>) -> (r: Result<Repository, SyncError>)
        ensures
            remotes@.len() == 0 ==> r == Err::<Repository, SyncError>(SyncError::NoRemotes),
            remotes@.len() > 0 ==> (r matches Ok(rep) && rep.host@ == path.host@ && rep.owner@ == path.owner@
                && rep.repo@ == path.repo@ && rep.remotes@ == remotes@ && (rep.git_ref is Some <==> synced is Ok)),
    {
        if remotes.len() == 0 {
            return Err(SyncError::NoRemotes);
        }
        Ok(Repository {
            host: path.host.clone(),
            owner: path.owner.clone(),
            repo: path.repo.clone(),
            git_ref: match synced {
                Ok(r) => Some(r),
                Err(_) => None,
            },
            remotes,
        })
    }

    /// The remote to clone from when restoring: the first whose URL resolves to an
    /// identity on this repository's host.
    pub fn origin(&self, patterns: &Patterns, default_owner: Option<&str>) -> (r: Option<&Remote>)
        ensures
            match r {
                Some(rem) => exists|i: int|
                    0 <= i < self.remotes@.len() && self.remotes@[i] == *rem && remote_on_host(
                        self.remotes@[i].url@,
                        self.host@,
                        patterns,
                        str_opt_view(default_owner),
                    ) && forall|j: int|
                        0 <= j < i ==> !remote_on_host(
                            #[trigger] self.remotes@[j].url@,
                            self.host@,
                            patterns,
                            str_opt_view(default_owner),
                        ),
                None => forall|j: int|
                    0 <= j < self.remotes@.len() ==> !remote_on_host(
                        #[trigger] self.remotes@[j].url@,
                        self.host@,
                        patterns,
                        str_opt_view(default_owner),
                    ),
            },
    {
        let n = self.remotes.len();
        let mut i: usize = 0;
        while i < n
            invariant
                n == self.remotes@.len(),
                i <= n,
                forall|j: int|
                    0 <= j < i ==> !remote_on_host(
                        #[trigger] self.remotes@[j].url@,
                        self.host@,
                        patterns,
                        str_opt_view(default_owner),
                    ),
            decreases n - i,
        {
            let on_host = match Url::from_str(self.remotes[i].url.as_str(), patterns, default_owner) {
                Ok(u) => u.host.to_string().eq(&self.host),
                Err(_) => false,
            };
            if on_host {
                return Some(&self.remotes[i]);
            }
            i = i + 1;
        }
        None
    }

    /// What to clone when restoring: the origin's URL, or else `host:owner/repo`.
    pub fn clone_source(&self, origin: Option<&Remote>) -> (r: String)
        ensures
            r@ == match origin {
                Some(o) => o.url@,
                None => self.host@ + ":"@ + self.owner@ + "/"@ + self.repo@,
            },
    {
        match origin {
            Some(o) => o.url.clone(),
            None => {
                let mut s = self.host.clone();
                s.append(":");
                s.append(self.owner.as_str());
                s.append("/");
                s.append(self.repo.as_str());
                s
            },
        }
    }
}

/// The URL of a remote resolves to an identity on `host`.
pub open spec fn remote_on_host(url: Seq<char>, host: Seq<char>, patterns: &Patterns, default_owner: Option<Seq<char>>) -> bool {
    resolve(url, patterns@, default_owner) matches Ok(u) && host_name(u.host) == host
}

impl File {
    /// A record of format version one holding the repositories that were saved,
    /// in order, and none of those that failed.
    pub fn from_results(results: Vec<Result<Repository, SyncError>>) -> (r: File)
        ensures
            r.version == Version::V1,
            r.repositories@ == saved(results@),
    {
        let mut repositories: Vec<Repository> = Vec::new();
        let mut rest = results;
        let ghost all = rest@;
        let n = rest.len();
        let mut i: usize = 0;
        assert(all.skip(0) =~= all);
        while i < n
            invariant
                n == all.len(),
                i <= n,
                rest@ == all.skip(i as int),
                repositories@ == saved(all.take(i as int)),
            decreases n - i,
        {
            let item = rest.remove(0);
            assert(item == all[i as int]);
            assert(rest@ =~= all.skip(i + 1));
            assert(all.take(i + 1).drop_last() =~= all.take(i as int));
            match item {
                Ok(rep) => repositories.push(rep),
                Err(_) => {},
            }
            i = i + 1;
        }
        assert(all.take(n as int) =~= all);
        File { version: Version::V1, repositories }
    }
}

/// The repositories among `results` that were saved, in order.
pub open spec fn saved(results: Seq<Result<Repository, SyncError>>) -> Seq<Repository>
    decreases results.len(),
{
    if results.len() == 0 {
        Seq::empty()
    } else {
        let before = saved(results.drop_last());
        match results.last() {
            Ok(r) => before.push(r),
            Err(_) => before,
        }
    }
}

} // verus!
