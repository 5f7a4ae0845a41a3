//! Hosting platforms that a repository can be browsed on, and how one is found
//! for an identity.

use vstd::prelude::*;
use vstd::string::*;

use crate::text::str_eq;
use crate::url::{host_name, Url};

verus! {

/// A GitHub instance, by its host name.
#[derive(Debug)]
pub struct GitHubConfig {
    pub host: String,
}

impl Default for GitHubConfig {
    /// The public instance, `github.com`.
    fn default() -> (r: GitHubConfig)
        ensures
            r.host@ == "github.com"@,
    {
        GitHubConfig { host: "github.com".to_owned() }
    }
}

/// The configuration of a platform.
#[derive(Debug)]
pub enum PlatformConfig {
    GitHub(GitHubConfig),
}

impl PlatformConfig {
    pub open spec fn host_spec(&self) -> Seq<char> {
        match self {
            PlatformConfig::GitHub(c) => c.host@,
        }
    }

    /// The host the platform serves.
    pub fn host(&self) -> (r: String)
        ensures
            r@ == self.host_spec(),
    {
        match self {
            PlatformConfig::GitHub(c) => c.host.clone(),
        }
    }

    /// The web page of `url` on this platform: `https://host/owner/repo`.
    pub fn browsable_url(&self, url: &Url) -> (r: String)
        ensures
            r@ == "https://"@ + self.host_spec() + "/"@ + url.owner@ + "/"@ + url.repo@,
    {
        let mut r = "https://".to_owned();
        r.append(self.host().as_str());
        r.append("/");
        r.append(url.owner.as_str());
        r.append("/");
        r.append(url.repo.as_str());
        r
    }
}

/// The platforms by name.
#[derive(Debug)]
pub struct Platforms {
    entries: Vec<(String, PlatformConfig)>,
}

impl Platforms {
    pub closed spec fn hosts(&self) -> Seq<Seq<char>> {
        self.entries@.map_values(|e: (String, PlatformConfig)| e.1.host_spec())
    }

    /// The platforms `entries`, by name.
    pub fn new(entries: Vec<(String, PlatformConfig)>) -> (r: Platforms)
        ensures
            r.hosts() == entries@.map_values(|e: (String, PlatformConfig)| e.1.host_spec()),
    {
        Platforms { entries }
    }

    /// The first platform that serves the host of `url`.
    pub fn find(&self, url: &Url) -> (r: Option<&PlatformConfig>)
        ensures
            match r {
                Some(p) => exists|i: int|
                    0 <= i < self.hosts().len() && self.hosts()[i] == host_name(url.host@) && p.host_spec()
                        == self.hosts()[i] && forall|j: int|
                        0 <= j < i ==> #[trigger] self.hosts()[j] != host_name(url.host@),
                None => forall|j: int| 0 <= j < self.hosts().len() ==> #[trigger] self.hosts()[j] != host_name(url.host@),
            },
    {
        let host = url.host.to_string();
        let n = self.entries.len();
        let mut i: usize = 0;
        while i < n
            invariant
                n == self.entries@.len(),
                n == self.hosts().len(),
                host@ == host_name(url.host@),
                i <= n,
                forall|j: int| 0 <= j < i ==> #[trigger] self.hosts()[j] != host_name(url.host@),
            decreases n - i,
        {
            assert(self.hosts()[i as int] == self.entries@[i as int].1.host_spec());
            if str_eq(self.entries[i].1.host().as_str(), host.as_str()) {
                return Some(&self.entries[i].1);
            }
            i = i + 1;
        }
        None
    }
}

impl Default for Platforms {
    /// The public GitHub instance alone, named `github`.
    fn default() -> (r: Platforms)
        ensures
            r.hosts() == seq!["github.com"@],
    {
        let r = Platforms { entries: vec![("github".to_owned(), PlatformConfig::GitHub(GitHubConfig::default()))] };
        assert(r.hosts() =~= seq!["github.com"@]);
        r
    }
}

} // verus!
