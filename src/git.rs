//! The command lines of the `git` client that cloning, fetching, checking out
//! and probing a remote run.

use vstd::prelude::*;
use vstd::string::*;

use crate::application::strings_view;
use crate::grammar::opt_view;

verus! {

/// How `git clone` is asked to clone.
#[derive(Debug, Default)]
pub struct CloneOptions {
    /// Clone submodules too: all of them, or those under the given path.
    pub recursive: Option<Option<String>>,
    /// Clone the default branch only.
    pub single_branch: bool,
    /// The name of the remote in place of `origin`.
    pub origin: Option<String>,
    /// The branch to check out in place of the default one.
    pub branch: Option<String>,
}

/// The model of [`CloneOptions`].
pub struct CloneOptionsView {
    pub recursive: Option<Option<Seq<char>>>,
    pub single_branch: bool,
    pub origin: Option<Seq<char>>,
    pub branch: Option<Seq<char>>,
}

impl View for CloneOptions {
    type V = CloneOptionsView;

    open spec fn view(&self) -> CloneOptionsView {
        CloneOptionsView {
            recursive: match self.recursive {
                Some(r) => Some(opt_view(r)),
                None => None,
            },
            single_branch: self.single_branch,
            origin: opt_view(self.origin),
            branch: opt_view(self.branch),
        }
    }
}

/// `flag` alone, or `flag=value`.
pub open spec fn flag_with(flag: Seq<char>, value: Seq<char>) -> Seq<char> {
    flag + "="@ + value
}

/// The arguments of `git clone` for `url` into `path`: `clone url path`, then
/// `--recurse-submodules[=path]`, `--single-branch`, `--origin=name` and
/// `--branch=name` for the options that are set, in that order.
pub open spec fn clone_args_spec(url: Seq<char>, path: Seq<char>, o: CloneOptionsView) -> Seq<Seq<char>> {
    seq!["clone"@, url, path] + match o.recursive {
        Some(Some(p)) => seq![flag_with("--recurse-submodules"@, p)],
        Some(None) => seq!["--recurse-submodules"@],
        None => Seq::empty(),
    } + if o.single_branch {
        seq!["--single-branch"@]
    } else {
        Seq::empty()
    } + match o.origin {
        Some(n) => seq![flag_with("--origin"@, n)],
        None => Seq::empty(),
    } + match o.branch {
        Some(b) => seq![flag_with("--branch"@, b)],
        None => Seq::empty(),
    }
}

fn flag(name: &str, value: &str) -> (r: String)
    ensures
        r@ == flag_with(name@, value@),
{
    let mut r = name.to_owned();
    r.append("=");
    r.append(value);
    r
}

/// The arguments of `git clone` for `url` into `path` under `options`.
pub fn clone_args(url: &str, path: &str, options: &CloneOptions) -> (r: Vec<String>)
    ensures
        strings_view(r@) == clone_args_spec(url@, path@, options@),
{
    let mut args: Vec<String> = vec!["clone".to_owned(), url.to_owned(), path.to_owned()];
    let ghost a0 = strings_view(args@);
    assert(a0 =~= seq!["clone"@, url@, path@]);
    match &options.recursive {
        Some(Some(p)) => args.push(flag("--recurse-submodules", p.as_str())),
        Some(None) => args.push("--recurse-submodules".to_owned()),
        None => {},
    }
    let ghost a1 = strings_view(args@);
    if options.single_branch {
        args.push("--single-branch".to_owned());
    }
    let ghost a2 = strings_view(args@);
    match &options.origin {
        Some(n) => args.push(flag("--origin", n.as_str())),
        None => {},
    }
    let ghost a3 = strings_view(args@);
    match &options.branch {
        Some(b) => args.push(flag("--branch", b.as_str())),
        None => {},
    }
    proof {
        let o = options@;
        let rec: Seq<Seq<char>> = match o.recursive {
            Some(Some(p)) => seq![flag_with("--recurse-submodules"@, p)],
            Some(None) => seq!["--recurse-submodules"@],
            None => Seq::empty(),
        };
        let single: Seq<Seq<char>> = if o.single_branch { seq!["--single-branch"@] } else { Seq::empty() };
        let origin: Seq<Seq<char>> = match o.origin {
            Some(n) => seq![flag_with("--origin"@, n)],
            None => Seq::empty(),
        };
        let branch: Seq<Seq<char>> = match o.branch {
            Some(b) => seq![flag_with("--branch"@, b)],
            None => Seq::empty(),
        };
        assert(a1 =~= a0 + rec);
        assert(a2 =~= a0 + rec + single);
        assert(a3 =~= a0 + rec + single + origin);
        assert(strings_view(args@) =~= a0 + rec + single + origin + branch);
    }
    args
}

/// The arguments of `git checkout` that create `branch`, tracking `track` when given.
pub fn checkout_args(branch: &str, track: Option<&str>) -> (r: Vec<String>)
    ensures
        strings_view(r@) == seq!["checkout"@, "-b"@, branch@] + match track {
            Some(t) => seq!["--track"@, t@],
            None => Seq::empty(),
        },
{
    let mut args: Vec<String> = vec!["checkout".to_owned(), "-b".to_owned(), branch.to_owned()];
    if let Some(t) = track {
        args.push("--track".to_owned());
        args.push(t.to_owned());
    }
    proof {
        let tail: Seq<Seq<char>> = match track {
            Some(t) => seq!["--track"@, t@],
            None => Seq::empty(),
        };
        assert(strings_view(args@) =~= seq!["checkout"@, "-b"@, branch@] + tail);
    }
    args
}

/// The arguments of `git fetch` from `remote`.
pub fn fetch_args(remote: &str) -> (r: Vec<String>)
    ensures
        strings_view(r@) == seq!["fetch"@, remote@],
{
    let args: Vec<String> = vec!["fetch".to_owned(), remote.to_owned()];
    assert(strings_view(args@) =~= seq!["fetch"@, remote@]);
    args
}

/// The arguments of `git ls-remote` that probe whether `url` exists.
pub fn ls_remote_args(url: &str) -> (r: Vec<String>)
    ensures
        strings_view(r@) == seq!["ls-remote"@, url@],
{
    let args: Vec<String> = vec!["ls-remote".to_owned(), url.to_owned()];
    assert(strings_view(args@) =~= seq!["ls-remote"@, url@]);
    args
}

/// How a Git operation is carried out.
#[derive(Debug, Clone, Copy, PartialEq, Eq, Structural)]
pub enum Strategy {
    /// By running the `git` client.
    Cli,
}

impl Default for Strategy {
    fn default() -> (r: Strategy)
        ensures
            r == Strategy::Cli,
    {
        Strategy::Cli
    }
}

/// The strategy of each Git operation.
#[derive(Debug, Default)]
pub struct StrategyConfig {
    pub clone: Strategy,
    pub fetch: Strategy,
    pub checkout: Strategy,
}

} // verus!
