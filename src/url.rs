//! Repository identities: their parts, how they are resolved from partial
//! information, and how they render as transport URLs.

use vstd::prelude::*;
use vstd::string::*;

use crate::grammar::{
    host_form, is_token, lemma_ssh_unique, opt_view, owner_form, shorthand_captures, ssh_form, CharClass,
    Shorthand,
};
use crate::pattern::{
    default_patterns, pattern_match, patterns_match, Match, PatternView, Patterns,
};
use crate::text::{
    ascii_lower_is, contains, contains_exec, ends_with, ends_with_exec, lower_equals, split_at_sep,
    split_first, trim_end_all, trim_end_matches,
};

verus! {

/// Why a reference could not be resolved into an identity.
#[derive(Debug, Clone, Copy, PartialEq, Eq, Structural)]
pub enum ResolveError {
    /// The input matched no pattern and is not an absolute URL.
    NoPatternMatched,
    /// No owner was found in the input and no default owner was given, or the
    /// owner found is empty.
    MissingOwner,
    /// An input holding `://` is not an absolute URL, or its path is not rooted or
    /// has fewer than two segments.
    MalformedUrl,
    /// A scheme token is neither `https` nor `ssh`.
    UnknownScheme,
    /// A version-control token is not `git`.
    UnknownVcs,
}

/// The version-control system of a repository.
#[derive(Debug, Clone, Copy, PartialEq, Eq, Structural)]
pub enum Vcs {
    Git,
}

/// The file extension that marks a Git repository.
pub open spec fn git_extension() -> Seq<char> {
    ".git"@
}

/// The version-control system that `token` names, compared without ASCII case.
pub open spec fn vcs_token(token: Seq<char>) -> Option<Vcs> {
    if ascii_lower_is(token, "git"@) {
        Some(Vcs::Git)
    } else {
        None
    }
}

impl Vcs {
    pub open spec fn extension_spec(self) -> Seq<char> {
        match self {
            Vcs::Git => git_extension(),
        }
    }

    pub open spec fn name_spec(self) -> Seq<char> {
        match self {
            Vcs::Git => "git"@,
        }
    }

    /// The extension appended to a repository name in a rendered URL.
    pub fn extension(&self) -> (r: &'static str)
        ensures
            r@ == self.extension_spec(),
    {
        match self {
            Vcs::Git => ".git",
        }
    }

    /// The token that names this system.
    pub fn name(&self) -> (r: &'static str)
        ensures
            r@ == self.name_spec(),
    {
        match self {
            Vcs::Git => "git",
        }
    }

    /// Parses a version-control token, ignoring ASCII case.
    pub fn from_str(s: &str) -> (r: Result<Vcs, ResolveError>)
        ensures
            match vcs_token(s@) {
                Some(v) => r == Ok::<Vcs, ResolveError>(v),
                None => r == Err::<Vcs, ResolveError>(ResolveError::UnknownVcs),
            },
    {
        if lower_equals(s, "git") {
            Ok(Vcs::Git)
        } else {
            Err(ResolveError::UnknownVcs)
        }
    }

    /// The token that names this system, as an owned string.
    pub fn to_string(&self) -> (r: String)
        ensures
            r@ == self.name_spec(),
    {
        self.name().to_owned()
    }
}

impl Default for Vcs {
    fn default() -> (r: Vcs)
        ensures
            r == Vcs::Git,
    {
        Vcs::Git
    }
}

/// The transport scheme of a repository URL.
#[derive(Debug, Clone, Copy, PartialEq, Eq, Structural)]
pub enum Scheme {
    Https,
    Ssh,
}

/// The scheme that `token` names, compared without ASCII case.
pub open spec fn scheme_token(token: Seq<char>) -> Option<Scheme> {
    if ascii_lower_is(token, "https"@) {
        Some(Scheme::Https)
    } else if ascii_lower_is(token, "ssh"@) {
        Some(Scheme::Ssh)
    } else {
        None
    }
}

impl Scheme {
    pub open spec fn name_spec(self) -> Seq<char> {
        match self {
            Scheme::Https => "https"@,
            Scheme::Ssh => "ssh"@,
        }
    }

    /// The token that names this scheme.
    pub fn name(&self) -> (r: &'static str)
        ensures
            r@ == self.name_spec(),
    {
        match self {
            Scheme::Https => "https",
            Scheme::Ssh => "ssh",
        }
    }

    /// Parses a scheme token, ignoring ASCII case.
    pub fn from_str(s: &str) -> (r: Result<Scheme, ResolveError>)
        ensures
            match scheme_token(s@) {
                Some(v) => r == Ok::<Scheme, ResolveError>(v),
                None => r == Err::<Scheme, ResolveError>(ResolveError::UnknownScheme),
            },
    {
        if lower_equals(s, "https") {
            Ok(Scheme::Https)
        } else if lower_equals(s, "ssh") {
            Ok(Scheme::Ssh)
        } else {
            Err(ResolveError::UnknownScheme)
        }
    }

    /// The token that names this scheme, as an owned string.
    pub fn to_string(&self) -> (r: String)
        ensures
            r@ == self.name_spec(),
    {
        self.name().to_owned()
    }
}

impl Default for Scheme {
    fn default() -> (r: Scheme)
        ensures
            r == Scheme::Https,
    {
        Scheme::Https
    }
}

/// The host name of the well-known host.
pub open spec fn github_com() -> Seq<char> {
    "github.com"@
}

/// The host a repository lives on: the well-known one, or any other by its name.
#[derive(Debug)]
pub enum Host {
    GitHub,
    Unknown(String),
}

/// The model of a [`Host`].
pub enum HostView {
    GitHub,
    Unknown(Seq<char>),
}

impl View for Host {
    type V = HostView;

    open spec fn view(&self) -> HostView {
        match self {
            Host::GitHub => HostView::GitHub,
            Host::Unknown(s) => HostView::Unknown(s@),
        }
    }
}

/// The host that the name `s` denotes: the well-known host when `s` is its name
/// without regard to ASCII case, another host by that name otherwise.
pub open spec fn parse_host(s: Seq<char>) -> HostView {
    if ascii_lower_is(s, github_com()) {
        HostView::GitHub
    } else {
        HostView::Unknown(s)
    }
}

/// The name a host renders as.
pub open spec fn host_name(h: HostView) -> Seq<char> {
    match h {
        HostView::GitHub => github_com(),
        HostView::Unknown(s) => s,
    }
}

impl Host {
    /// The host that the name `s` denotes.
    pub fn from_str(s: &str) -> (r: Host)
        ensures
            r@ == parse_host(s@),
    {
        if lower_equals(s, "github.com") {
            Host::GitHub
        } else {
            Host::Unknown(s.to_owned())
        }
    }

    /// The host's name.
    pub fn to_string(&self) -> (r: String)
        ensures
            r@ == host_name(self@),
    {
        match self {
            Host::GitHub => "github.com".to_owned(),
            Host::Unknown(s) => s.clone(),
        }
    }
}

impl Clone for Host {
    fn clone(&self) -> (r: Host)
        ensures
            r@ == self@,
    {
        match self {
            Host::GitHub => Host::GitHub,
            Host::Unknown(s) => Host::Unknown(s.clone()),
        }
    }
}

impl PartialEq for Host {
    fn eq(&self, other: &Host) -> (r: bool) {
        match (self, other) {
            (Host::GitHub, Host::GitHub) => true,
            (Host::Unknown(a), Host::Unknown(b)) => a.eq(b),
            _ => false,
        }
    }
}

impl vstd::std_specs::cmp::PartialEqSpecImpl for Host {
    open spec fn obeys_eq_spec() -> bool {
        true
    }

    open spec fn eq_spec(&self, other: &Host) -> bool {
        self@ == other@
    }
}

impl Eq for Host {
}

impl Default for Host {
    fn default() -> (r: Host)
        ensures
            r@ == HostView::GitHub,
    {
        Host::GitHub
    }
}

/// The model of a partially resolved reference: what a pattern or an absolute URL
/// gave, before defaults apply.
pub struct PartialView {
    pub vcs: Option<Vcs>,
    pub scheme: Option<Scheme>,
    pub user: Option<Seq<char>>,
    pub host: Option<HostView>,
    pub owner: Option<Seq<char>>,
    pub repo: Seq<char>,
    pub raw: Option<Seq<char>>,
}

pub open spec fn host_opt_view(h: Option<Host>) -> Option<HostView> {
    match h {
        Some(h) => Some(h@),
        None => None,
    }
}

pub fn clone_opt_string(o: &Option<String>) -> (r: Option<String>)
    ensures
        opt_view(r) == opt_view(*o),
{
    match o {
        Some(s) => Some(s.clone()),
        None => None,
    }
}

pub fn clone_opt_host(o: &Option<Host>) -> (r: Option<Host>)
    ensures
        host_opt_view(r) == host_opt_view(*o),
{
    match o {
        Some(h) => Some(h.clone()),
        None => None,
    }
}


/// `s` with its version-control extension removed, every trailing copy of it.
pub open spec fn strip_extensions(s: Seq<char>) -> Seq<char> {
    trim_end_all(s, git_extension())
}

/// A reference after a pattern or an absolute URL read it, before defaults apply.
#[derive(Debug)]
pub struct PartialUrl {
    pub vcs: Option<Vcs>,
    pub scheme: Option<Scheme>,
    pub user: Option<String>,
    pub host: Option<Host>,
    pub owner: Option<String>,
    pub repo: String,
    pub raw: Option<String>,
}

impl View for PartialUrl {
    type V = PartialView;

    open spec fn view(&self) -> PartialView {
        PartialView {
            vcs: self.vcs,
            scheme: self.scheme,
            user: opt_view(self.user),
            host: host_opt_view(self.host),
            owner: opt_view(self.owner),
            repo: self.repo@,
            raw: opt_view(self.raw),
        }
    }
}

/// The parts of an absolute URL that resolution reads.
pub struct UrlParts {
    pub scheme: String,
    pub username: String,
    pub host: Option<String>,
    pub path: String,
    pub serialization: String,
}

/// The model of [`UrlParts`].
pub struct UrlPartsView {
    pub scheme: Seq<char>,
    pub username: Seq<char>,
    pub host: Option<Seq<char>>,
    pub path: Seq<char>,
    pub serialization: Seq<char>,
}

impl View for UrlParts {
    type V = UrlPartsView;

    open spec fn view(&self) -> UrlPartsView {
        UrlPartsView {
            scheme: self.scheme@,
            username: self.username@,
            host: opt_view(self.host),
            path: self.path@,
            serialization: self.serialization@,
        }
    }
}

#[verifier::external_type_specification]
#[verifier::external_body]
pub struct ExParseError(url::ParseError);

/// What `url::Url::parse` makes of `input`: `None` when it is not an absolute URL,
/// else its scheme, user name, host, path and serialization.
pub uninterp spec fn parsed_url(input: Seq<char>) -> Option<UrlPartsView>;

/// Relies on url's `Url::parse`, with `scheme`, `username`, `host_str`, `path` and
/// `as_str` to read the result: these depend on the input alone.
#[verifier::external_body]
fn parse_url(input: &str) -> (r: Result<UrlParts, url::ParseError>)
    ensures
        match r {
            Ok(p) => parsed_url(input@) == Some(p@),
            Err(_) => parsed_url(input@) is None,
        },
{
    url::Url::parse(input).map(|u| UrlParts {
        scheme: u.scheme().to_string(),
        username: u.username().to_string(),
        host: u.host_str().map(|h| h.to_string()),
        path: u.path().to_string(),
        serialization: u.as_str().to_string(),
    })
}

/// What resolution reads from the parts of an absolute URL: the scheme, the user
/// when there is one, the host, and the first two segments of the path as owner
/// and repository; the URL itself is kept as the rendering when the scheme is
/// HTTPS. A path that is not `/`-rooted or has one segment only is malformed.
pub open spec fn partial_from_parts(u: UrlPartsView) -> Result<PartialView, ResolveError> {
    if !(u.path.len() > 0 && u.path[0] == '/') {
        Err(ResolveError::MalformedUrl)
    } else {
        match scheme_token(u.scheme) {
            None => Err(ResolveError::UnknownScheme),
            Some(scheme) => match split_at_sep(u.path.drop_first(), '/', '/') {
                None => Err(ResolveError::MalformedUrl),
                Some((owner, rest)) => {
                    let repo = match split_at_sep(rest, '/', '/') {
                        Some((r, _)) => r,
                        None => rest,
                    };
                    Ok(
                        PartialView {
                            vcs: if ends_with(u.serialization, git_extension()) {
                                Some(Vcs::Git)
                            } else {
                                None
                            },
                            scheme: Some(scheme),
                            user: if u.username.len() == 0 {
                                None
                            } else {
                                Some(u.username)
                            },
                            host: match u.host {
                                Some(h) => Some(parse_host(h)),
                                None => None,
                            },
                            owner: Some(owner),
                            repo: strip_extensions(repo),
                            raw: if scheme == Scheme::Https {
                                Some(u.serialization)
                            } else {
                                None
                            },
                        },
                    )
                },
            },
        }
    }
}

/// What a matched pattern gives, with the extension stripped from the repository.
pub open spec fn partial_from_match(m: PartialView) -> PartialView {
    PartialView { repo: strip_extensions(m.repo), ..m }
}

/// `s` read by the first pattern of `ps` that matches it.
pub open spec fn partial_from_pattern(s: Seq<char>, ps: Seq<PatternView>) -> Result<PartialView, ResolveError> {
    match patterns_match(ps, s) {
        Some(m) => Ok(partial_from_match(m)),
        None => Err(ResolveError::NoPatternMatched),
    }
}

/// `s` read as an absolute URL.
pub open spec fn partial_from_url(s: Seq<char>) -> Result<PartialView, ResolveError> {
    match parsed_url(s) {
        Some(u) => partial_from_parts(u),
        None => Err(ResolveError::MalformedUrl),
    }
}

/// `s` read by the patterns, or else, when it holds `://`, as an absolute URL.
pub open spec fn partial_from_str(s: Seq<char>, ps: Seq<PatternView>) -> Result<PartialView, ResolveError> {
    match partial_from_pattern(s, ps) {
        Ok(p) => Ok(p),
        Err(e) => if contains(s, "://"@) {
            partial_from_url(s)
        } else {
            Err(e)
        },
    }
}

pub open spec fn partial_result_view(r: Result<PartialUrl, ResolveError>) -> Result<PartialView, ResolveError> {
    match r {
        Ok(p) => Ok(p@),
        Err(e) => Err(e),
    }
}

impl Vcs {
    /// The version-control system that a URL's serialization shows by its extension.
    pub fn from_url(u: &UrlParts) -> (r: Option<Vcs>)
        ensures
            r == (if ends_with(u.serialization@, git_extension()) {
                Some(Vcs::Git)
            } else {
                None
            }),
    {
        if ends_with_exec(u.serialization.as_str(), ".git") {
            Some(Vcs::Git)
        } else {
            None
        }
    }
}

impl PartialUrl {
    /// `s` with every trailing version-control extension removed.
    pub fn remove_extensions(s: &str) -> (r: String)
        ensures
            r@ == strip_extensions(s@),
    {
        trim_end_matches(s, ".git")
    }

    /// What a matched pattern gives, with the extension stripped from the repository.
    pub fn from_match(m: Match) -> (r: Option<PartialUrl>)
        ensures
            r matches Some(p) && p@ == partial_from_match(m@),
    {
        let repo = PartialUrl::remove_extensions(m.repo.as_str());
        Some(PartialUrl { vcs: m.vcs, scheme: m.scheme, user: m.user, host: m.host, owner: m.owner, repo, raw: m.raw })
    }

    /// `s` read by the first pattern that matches it.
    pub fn from_pattern(s: &str, p: &Patterns) -> (r: Result<PartialUrl, ResolveError>)
        ensures
            partial_result_view(r) == partial_from_pattern(s@, p@),
    {
        match p.matches(s) {
            Some(m) => match PartialUrl::from_match(m) {
                Some(u) => Ok(u),
                None => Err(ResolveError::NoPatternMatched),
            },
            None => Err(ResolveError::NoPatternMatched),
        }
    }

    /// What resolution reads from the parts of an absolute URL.
    pub fn from_parts(u: &UrlParts) -> (r: Result<PartialUrl, ResolveError>)
        ensures
            partial_result_view(r) == partial_from_parts(u@),
    {
        let n = u.path.as_str().unicode_len();
        if n == 0 || u.path.as_str().get_char(0) != '/' {
            return Err(ResolveError::MalformedUrl);
        }
        let scheme = match Scheme::from_str(u.scheme.as_str()) {
            Ok(s) => s,
            Err(e) => return Err(e),
        };
        let segments = u.path.as_str().substring_char(1, n);
        assert(segments@ == u.path@.drop_first());
        let (owner, rest) = match split_first(segments, '/', '/') {
            Some(parts) => parts,
            None => return Err(ResolveError::MalformedUrl),
        };
        let repo = match split_first(rest.as_str(), '/', '/') {
            Some((r, _)) => r,
            None => rest,
        };
        let user = if u.username.as_str().unicode_len() == 0 {
            None
        } else {
            Some(u.username.clone())
        };
        let host = match &u.host {
            Some(h) => Some(Host::from_str(h.as_str())),
            None => None,
        };
        let raw = match scheme {
            Scheme::Https => Some(u.serialization.clone()),
            Scheme::Ssh => None,
        };
        Ok(PartialUrl {
            vcs: Vcs::from_url(u),
            scheme: Some(scheme),
            user,
            host,
            owner: Some(owner),
            repo: PartialUrl::remove_extensions(repo.as_str()),
            raw,
        })
    }

    /// `s` read as an absolute URL.
    pub fn from_url(s: &str) -> (r: Result<PartialUrl, ResolveError>)
        ensures
            partial_result_view(r) == partial_from_url(s@),
    {
        match parse_url(s) {
            Ok(u) => PartialUrl::from_parts(&u),
            Err(_) => Err(ResolveError::MalformedUrl),
        }
    }

    /// `s` read by the patterns, or else, when it holds `://`, as an absolute URL.
    pub fn from_str(s: &str, p: &Patterns) -> (r: Result<PartialUrl, ResolveError>)
        ensures
            partial_result_view(r) == partial_from_str(s@, p@),
    {
        match PartialUrl::from_pattern(s, p) {
            Ok(u) => Ok(u),
            Err(e) => if contains_exec(s, "://") {
                PartialUrl::from_url(s)
            } else {
                Err(e)
            },
        }
    }
}


/// A fully resolved repository identity.
#[derive(Debug)]
pub struct Url {
    pub vcs: Vcs,
    pub scheme: Scheme,
    pub user: Option<String>,
    pub host: Host,
    pub owner: String,
    pub repo: String,
    pub raw: Option<String>,
}

/// The model of a [`Url`].
pub struct UrlView {
    pub vcs: Vcs,
    pub scheme: Scheme,
    pub user: Option<Seq<char>>,
    pub host: HostView,
    pub owner: Seq<char>,
    pub repo: Seq<char>,
    pub raw: Option<Seq<char>>,
}

impl View for Url {
    type V = UrlView;

    open spec fn view(&self) -> UrlView {
        UrlView {
            vcs: self.vcs,
            scheme: self.scheme,
            user: opt_view(self.user),
            host: self.host@,
            owner: self.owner@,
            repo: self.repo@,
            raw: opt_view(self.raw),
        }
    }
}

pub open spec fn str_opt_view(o: Option<&str>) -> Option<Seq<char>> {
    match o {
        Some(s) => Some(s@),
        None => None,
    }
}

pub open spec fn url_result_view(r: Result<Url, ResolveError>) -> Result<UrlView, ResolveError> {
    match r {
        Ok(u) => Ok(u@),
        Err(e) => Err(e),
    }
}

/// A partial reference promoted to an identity: Git, HTTPS and the well-known host
/// stand in for what is absent; the owner is the reference's own, else the default
/// owner, and resolution fails when that is absent or empty.
pub open spec fn promote(p: PartialView, default_owner: Option<Seq<char>>) -> Result<UrlView, ResolveError> {
    let owner = match p.owner {
        Some(o) => Some(o),
        None => default_owner,
    };
    match owner {
        Some(o) if o.len() > 0 => Ok(
            UrlView {
                vcs: match p.vcs {
                    Some(v) => v,
                    None => Vcs::Git,
                },
                scheme: match p.scheme {
                    Some(s) => s,
                    None => Scheme::Https,
                },
                user: p.user,
                host: match p.host {
                    Some(h) => h,
                    None => HostView::GitHub,
                },
                owner: o,
                repo: p.repo,
                raw: p.raw,
            },
        ),
        _ => Err(ResolveError::MissingOwner),
    }
}

/// Resolution of input `s` against patterns `ps` and a default owner.
pub open spec fn resolve(s: Seq<char>, ps: Seq<PatternView>, default_owner: Option<Seq<char>>) -> Result<UrlView, ResolveError> {
    match partial_from_str(s, ps) {
        Ok(p) => promote(p, default_owner),
        Err(e) => Err(e),
    }
}

/// `user@host` when there is a user, else the host alone.
pub open spec fn authority(u: UrlView) -> Seq<char> {
    match u.user {
        Some(user) => user + "@"@ + host_name(u.host),
        None => host_name(u.host),
    }
}

/// The transport URL of an identity: its raw form when it has one, else
/// `https://authority/owner/repo.git` over HTTPS and `authority:owner/repo.git`
/// over SSH.
pub open spec fn render(u: UrlView) -> Seq<char> {
    match u.raw {
        Some(r) => r,
        None => match u.scheme {
            Scheme::Https => "https://"@ + authority(u) + "/"@ + u.owner + "/"@ + u.repo + u.vcs.extension_spec(),
            Scheme::Ssh => authority(u) + ":"@ + u.owner + "/"@ + u.repo + u.vcs.extension_spec(),
        },
    }
}

impl Url {
    /// Promotes a partial reference to an identity.
    pub fn from_partial(p: &PartialUrl, default_owner: Option<&str>) -> (r: Result<Url, ResolveError>)
        ensures
            url_result_view(r) == promote(p@, str_opt_view(default_owner)),
    {
        let owner = match &p.owner {
            Some(o) => o.clone(),
            None => match default_owner {
                Some(d) => d.to_owned(),
                None => return Err(ResolveError::MissingOwner),
            },
        };
        if owner.as_str().unicode_len() == 0 {
            return Err(ResolveError::MissingOwner);
        }
        Ok(Url {
            vcs: match p.vcs {
                Some(v) => v,
                None => Vcs::Git,
            },
            scheme: match p.scheme {
                Some(s) => s,
                None => Scheme::Https,
            },
            user: clone_opt_string(&p.user),
            host: match &p.host {
                Some(h) => h.clone(),
                None => Host::GitHub,
            },
            owner,
            repo: p.repo.clone(),
            raw: clone_opt_string(&p.raw),
        })
    }

    /// Resolves `s`: reads it by the patterns, or as an absolute URL, then promotes it.
    pub fn from_str(s: &str, patterns: &Patterns, default_owner: Option<&str>) -> (r: Result<Url, ResolveError>)
        ensures
            url_result_view(r) == resolve(s@, patterns@, str_opt_view(default_owner)),
    {
        match PartialUrl::from_str(s, patterns) {
            Ok(p) => Url::from_partial(&p, default_owner),
            Err(e) => Err(e),
        }
    }

    /// Resolves `s` by the patterns alone.
    pub fn from_pattern(s: &str, patterns: &Patterns, default_owner: Option<&str>) -> (r: Result<Url, ResolveError>)
        ensures
            url_result_view(r) == match partial_from_pattern(s@, patterns@) {
                Ok(p) => promote(p, str_opt_view(default_owner)),
                Err(e) => Err(e),
            },
    {
        match PartialUrl::from_pattern(s, patterns) {
            Ok(p) => Url::from_partial(&p, default_owner),
            Err(e) => Err(e),
        }
    }

    /// Resolves `s` as an absolute URL, with no default owner.
    pub fn from_url(s: &str) -> (r: Result<Url, ResolveError>)
        ensures
            url_result_view(r) == match partial_from_url(s@) {
                Ok(p) => promote(p, None),
                Err(e) => Err(e),
            },
    {
        match PartialUrl::from_url(s) {
            Ok(p) => Url::from_partial(&p, None),
            Err(e) => Err(e),
        }
    }

    /// The transport URL of this identity.
    pub fn to_string(&self) -> (r: String)
        ensures
            r@ == render(self@),
    {
        if let Some(r) = &self.raw {
            return r.clone();
        }
        let mut auth = String::new();
        if let Some(u) = &self.user {
            auth.append(u.as_str());
            auth.append("@");
        }
        auth.append(self.host.to_string().as_str());
        assert(auth@ =~= authority(self@));
        let mut out = String::new();
        match self.scheme {
            Scheme::Https => {
                out.append("https://");
                out.append(auth.as_str());
                out.append("/");
            },
            Scheme::Ssh => {
                out.append(auth.as_str());
                out.append(":");
            },
        }
        out.append(self.owner.as_str());
        out.append("/");
        out.append(self.repo.as_str());
        out.append(self.vcs.extension());
        out
    }
}

impl Clone for Url {
    fn clone(&self) -> (r: Url)
        ensures
            r@ == self@,
    {
        Url {
            vcs: self.vcs,
            scheme: self.scheme,
            user: clone_opt_string(&self.user),
            host: self.host.clone(),
            owner: self.owner.clone(),
            repo: self.repo.clone(),
            raw: clone_opt_string(&self.raw),
        }
    }
}

fn opt_string_eq(a: &Option<String>, b: &Option<String>) -> (r: bool)
    ensures
        r == (opt_view(*a) == opt_view(*b)),
{
    match (a, b) {
        (Some(x), Some(y)) => x.eq(y),
        (None, None) => true,
        _ => false,
    }
}

impl PartialEq for Url {
    fn eq(&self, other: &Url) -> (r: bool) {
        self.vcs == other.vcs && self.scheme == other.scheme && opt_string_eq(&self.user, &other.user)
            && self.host.eq(&other.host) && self.owner.eq(&other.owner) && self.repo.eq(&other.repo)
            && opt_string_eq(&self.raw, &other.raw)
    }
}

impl vstd::std_specs::cmp::PartialEqSpecImpl for Url {
    open spec fn obeys_eq_spec() -> bool {
        true
    }

    open spec fn eq_spec(&self, other: &Url) -> bool {
        self@ == other@
    }
}

impl Eq for Url {
}

impl Default for Url {
    /// Git over HTTPS on the well-known host, with no user, owner, repository or raw form.
    fn default() -> (r: Url)
        ensures
            r@ == (UrlView {
                vcs: Vcs::Git,
                scheme: Scheme::Https,
                user: None,
                host: HostView::GitHub,
                owner: Seq::empty(),
                repo: Seq::empty(),
                raw: None,
            }),
    {
        Url {
            vcs: Vcs::Git,
            scheme: Scheme::Https,
            user: None,
            host: Host::GitHub,
            owner: String::new(),
            repo: String::new(),
            raw: None,
        }
    }
}


/// What `trim_end_all` leaves no longer ends with the suffix.
proof fn lemma_trimmed_has_no_suffix(s: Seq<char>, suffix: Seq<char>)
    requires
        suffix.len() > 0,
    ensures
        !ends_with(trim_end_all(s, suffix), suffix),
    decreases s.len(),
{
    if suffix.len() <= s.len() && s.subrange(s.len() - suffix.len(), s.len() as int) == suffix {
        lemma_trimmed_has_no_suffix(s.subrange(0, s.len() - suffix.len()), suffix);
    }
}

/// Stripping the version-control extension from a name that has none leaves it as
/// it is, and stripping twice gives what stripping once gives.
pub proof fn lemma_strip_extensions_idempotent(s: Seq<char>)
    ensures
        !ends_with(s, git_extension()) ==> strip_extensions(s) == s,
        strip_extensions(strip_extensions(s)) == strip_extensions(s),
{
    reveal_strlit(".git");
    lemma_trimmed_has_no_suffix(s, git_extension());
}

/// Over SSH, an identity with a user and no raw form renders to
/// `user@host:owner/repo.git`, which the shorthand patterns resolve back to that
/// identity, whatever the default owner, when each part is a valid shorthand token
/// and the repository name does not itself end with the extension.
pub proof fn lemma_ssh_round_trip(i: UrlView, default_owner: Option<Seq<char>>)
    requires
        i.raw is None,
        i.scheme == Scheme::Ssh,
        i.vcs == Vcs::Git,
        i.user matches Some(u) && is_token(u, CharClass::User),
        is_token(host_name(i.host), CharClass::Host),
        parse_host(host_name(i.host)) == i.host,
        is_token(i.owner, CharClass::Name),
        is_token(i.repo, CharClass::Name),
        !ends_with(i.repo, git_extension()),
    ensures
        resolve(render(i), default_patterns(), default_owner) == Ok::<UrlView, ResolveError>(i),
{
    reveal_strlit("@");
    reveal_strlit(":");
    reveal_strlit("/");
    reveal_strlit(".git");
    let u = i.user->Some_0;
    let h = host_name(i.host);
    let repo_ext = i.repo + git_extension();
    let s = render(i);
    assert(is_token(repo_ext, CharClass::Name)) by {
        assert forall|k: int| 0 <= k < repo_ext.len() implies crate::grammar::in_class(#[trigger] repo_ext[k], CharClass::Name) by {
            if k >= i.repo.len() {
                assert(repo_ext[k] == git_extension()[k - i.repo.len()]);
            }
        }
    }
    assert(s =~= u + seq!['@'] + (h + seq![':'] + (i.owner + seq!['/'] + repo_ext)));
    assert(ssh_form(s, u, h, i.owner, repo_ext));
    let (u2, h2, o2, r2) = choose|u2: Seq<char>, h2: Seq<char>, o2: Seq<char>, r2: Seq<char>| ssh_form(s, u2, h2, o2, r2);
    lemma_ssh_unique(s, u, h, i.owner, repo_ext, u2, h2, o2, r2);
    assert(shorthand_captures(Shorthand::Ssh, s).is_some());
    let ps = default_patterns();
    assert(ps[0] == crate::pattern::shorthand_pattern(Shorthand::Ssh, Some(Scheme::Ssh)));
    assert(pattern_match(ps[0], s).is_some());
    assert(repo_ext.subrange(repo_ext.len() - git_extension().len(), repo_ext.len() as int) =~= git_extension());
    assert(repo_ext.subrange(0, repo_ext.len() - git_extension().len()) =~= i.repo);
    lemma_strip_extensions_idempotent(i.repo);
    assert(strip_extensions(repo_ext) == i.repo);
    let r = resolve(s, ps, default_owner);
    assert(r matches Ok(v) && v =~= i);
}

/// A bare repository name takes the default owner when one is given, and fails
/// with `MissingOwner` when none is.
pub proof fn lemma_owner_defaulting(s: Seq<char>, owner: Seq<char>)
    requires
        is_token(s, CharClass::Name),
        owner.len() > 0,
    ensures
        resolve(s, default_patterns(), Some(owner)) matches Ok(v) && v.owner == owner && v.repo
            == strip_extensions(s),
        resolve(s, default_patterns(), None) == Err::<UrlView, ResolveError>(ResolveError::MissingOwner),
{
    let ps = default_patterns();
    assert forall|u: Seq<char>, h: Seq<char>, o: Seq<char>, r: Seq<char>| !ssh_form(s, u, h, o, r) by {
        if ssh_form(s, u, h, o, r) {
            assert(s[u.len() as int] == '@');
        }
    }
    assert forall|h: Seq<char>, o: Seq<char>, r: Seq<char>| !host_form(s, h, o, r) by {
        if host_form(s, h, o, r) {
            assert(s[h.len() as int] == ':' || s[h.len() as int] == '/');
        }
    }
    assert forall|o: Seq<char>, r: Seq<char>| !owner_form(s, o, r) by {
        if owner_form(s, o, r) {
            assert(s[o.len() as int] == '/');
        }
    }
    assert(ps.drop_first().drop_first().drop_first().drop_first() =~= Seq::<PatternView>::empty());
    assert(ps.drop_first().drop_first().drop_first()[0] == ps[3]);
    assert(ps.drop_first().drop_first()[0] == ps[2]);
    assert(ps.drop_first()[0] == ps[1]);
    assert(pattern_match(ps[0], s) is None);
    assert(pattern_match(ps[1], s) is None);
    assert(pattern_match(ps[2], s) is None);
    assert(pattern_match(ps[3], s).is_some());
    let after_ssh = ps.drop_first();
    let after_host = after_ssh.drop_first();
    let after_owner = after_host.drop_first();
    assert(patterns_match(after_owner, s) == pattern_match(ps[3], s));
    assert(patterns_match(after_host, s) == patterns_match(after_owner, s));
    assert(patterns_match(after_ssh, s) == patterns_match(after_host, s));
    assert(patterns_match(ps, s) == patterns_match(after_ssh, s));
    let m = pattern_match(ps[3], s)->Some_0;
    assert(m.owner is None);
    assert(m.repo == s);
}

} // verus!
