use ghr::grammar::Shorthand;
use ghr::pattern::{Pattern, Patterns};
use ghr::url::{Host, PartialUrl, ResolveError, Scheme, Url, Vcs};
use regex::Regex;

#[test]
fn parse_from_url_https() {
    let url = "https://github.com/siketyan/siketyan.github.io.git";

    assert_eq!(
        Url {
            vcs: Vcs::Git,
            scheme: Scheme::Https,
            user: None,
            host: Host::GitHub,
            owner: "siketyan".to_string(),
            repo: "siketyan.github.io".to_string(),
            raw: Some("https://github.com/siketyan/siketyan.github.io.git".to_string()),
        },
        Url::from_url(url).unwrap(),
    )
}

#[test]
fn parse_from_url_ssh() {
    let url = "ssh://git@github.com/siketyan/siketyan.github.io.git";

    assert_eq!(
        Url {
            vcs: Vcs::Git,
            scheme: Scheme::Ssh,
            user: Some("git".to_string()),
            host: Host::GitHub,
            owner: "siketyan".to_string(),
            repo: "siketyan.github.io".to_string(),
            ..Default::default()
        },
        Url::from_url(url).unwrap(),
    )
}

#[test]
fn parse_from_pattern_repo() {
    assert_eq!(
        Url {
            vcs: Vcs::Git,
            scheme: Scheme::Https,
            user: None,
            host: Host::GitHub,
            owner: "siketyan".to_string(),
            repo: "siketyan.github.io".to_string(),
            ..Default::default()
        },
        Url::from_pattern("siketyan.github.io", &Patterns::default(), Some("siketyan")).unwrap(),
    )
}

#[test]
fn parse_from_pattern_org_repo() {
    assert_eq!(
        Url {
            vcs: Vcs::Git,
            scheme: Scheme::Https,
            user: None,
            host: Host::GitHub,
            owner: "siketyan".to_string(),
            repo: "siketyan.github.io".to_string(),
            ..Default::default()
        },
        Url::from_pattern("siketyan/siketyan.github.io", &Patterns::default(), None).unwrap(),
    )
}

#[test]
fn parse_from_pattern_host_org_repo() {
    assert_eq!(
        Url {
            vcs: Vcs::Git,
            scheme: Scheme::Https,
            user: None,
            host: Host::Unknown("gitlab.com".to_string()),
            owner: "siketyan".to_string(),
            repo: "siketyan.github.io".to_string(),
            ..Default::default()
        },
        Url::from_pattern("gitlab.com:siketyan/siketyan.github.io", &Patterns::default(), None)
            .unwrap(),
    )
}

#[test]
fn parse_from_pattern_ssh() {
    assert_eq!(
        Url {
            vcs: Vcs::Git,
            scheme: Scheme::Ssh,
            user: Some("git".to_string()),
            host: Host::GitHub,
            owner: "siketyan".to_string(),
            repo: "siketyan.github.io".to_string(),
            ..Default::default()
        },
        Url::from_pattern(
            "git@github.com:siketyan/siketyan.github.io.git",
            &Patterns::default(),
            None
        )
        .unwrap(),
    )
}

#[test]
fn parse_from_custom_pattern() {
    let patterns = Patterns::default().with(
        Pattern::from_regex(
            Regex::new(r"^(?P<scheme>https)://(?P<host>git\.kernel\.org)/pub/scm/linux/kernel/git/(?P<owner>.+)/(?P<repo>.+)\.git").unwrap()
        )
        .with_scheme(Scheme::Https)
    );

    assert_eq!(
        Url {
            vcs: Vcs::Git,
            scheme: Scheme::Https,
            host: Host::Unknown("git.kernel.org".to_string()),
            owner: "torvalds".to_string(),
            repo: "linux".to_string(),
            raw: Some(
                "https://git.kernel.org/pub/scm/linux/kernel/git/torvalds/linux.git".to_string(),
            ),
            ..Default::default()
        },
        Url::from_pattern(
            "https://git.kernel.org/pub/scm/linux/kernel/git/torvalds/linux.git",
            &patterns,
            None
        )
        .unwrap(),
    )
}

#[test]
fn to_string_https() {
    assert_eq!(
        "https://github.com/siketyan/siketyan.github.io.git",
        Url {
            vcs: Vcs::Git,
            scheme: Scheme::Https,
            user: None,
            host: Host::GitHub,
            owner: "siketyan".to_string(),
            repo: "siketyan.github.io".to_string(),
            ..Default::default()
        }
        .to_string()
        .as_str(),
    )
}

#[test]
fn to_string_ssh() {
    assert_eq!(
        "git@github.com:siketyan/siketyan.github.io.git",
        Url {
            vcs: Vcs::Git,
            scheme: Scheme::Ssh,
            user: Some("git".to_string()),
            host: Host::GitHub,
            owner: "siketyan".to_string(),
            repo: "siketyan.github.io".to_string(),
            ..Default::default()
        }
        .to_string()
        .as_str(),
    )
}

#[test]
fn ssh_shorthand_resolves_and_renders_back() {
    let input = "git@github.com:siketyan/siketyan.github.io.git";
    let url = Url::from_str(input, &Patterns::default(), None).unwrap();
    assert_eq!(url.vcs, Vcs::Git);
    assert_eq!(url.scheme, Scheme::Ssh);
    assert_eq!(url.user.as_deref(), Some("git"));
    assert_eq!(url.host, Host::GitHub);
    assert_eq!(url.owner, "siketyan");
    assert_eq!(url.repo, "siketyan.github.io");
    assert_eq!(url.raw, None);
    assert_eq!(url.to_string(), input);
}

#[test]
fn owner_repo_shorthand_renders_https() {
    let url = Url::from_str("siketyan/siketyan.github.io", &Patterns::default(), None).unwrap();
    assert_eq!(url.scheme, Scheme::Https);
    assert_eq!(url.host, Host::GitHub);
    assert_eq!(url.owner, "siketyan");
    assert_eq!(url.repo, "siketyan.github.io");
    assert_eq!(url.to_string(), "https://github.com/siketyan/siketyan.github.io.git");
}

#[test]
fn custom_pattern_without_inference_renders_input() {
    let input = "https://git.kernel.org/pub/scm/linux/kernel/git/torvalds/linux.git";
    let patterns = Patterns::default().with(Pattern::from_regex(
        Regex::new(r"^(?P<scheme>https)://(?P<host>git\.kernel\.org)/pub/scm/linux/kernel/git/(?P<owner>.+)/(?P<repo>.+)\.git").unwrap(),
    ));
    let url = Url::from_str(input, &patterns, None).unwrap();
    assert_eq!(url.raw.as_deref(), Some(input));
    assert_eq!(url.to_string(), input);
}

#[test]
fn custom_pattern_with_template() {
    let mut pattern = Pattern::from_regex(Regex::new(r"^mirror:(?P<owner>[a-z]+)/(?P<repo>[a-z]+)$").unwrap());
    pattern.host = Some(Host::Unknown("git.example.org".to_string()));
    pattern.url = Some("https://{{host}}/mirror/{{owner}}/{{repo}}.{{vcs}}".to_string());
    let mut patterns = Patterns::new();
    patterns.add(pattern);
    let url = Url::from_str("mirror:alice/tools", &patterns, None).unwrap();
    assert_eq!(url.host, Host::Unknown("git.example.org".to_string()));
    assert_eq!(url.owner, "alice");
    assert_eq!(url.repo, "tools");
    assert_eq!(url.to_string(), "https://git.example.org/mirror/alice/tools.");
}

#[test]
fn ssh_round_trip_keeps_identity() {
    let url = Url {
        vcs: Vcs::Git,
        scheme: Scheme::Ssh,
        user: Some("deploy".to_string()),
        host: Host::Unknown("gitlab.example.com".to_string()),
        owner: "team_a".to_string(),
        repo: "service-1".to_string(),
        raw: None,
    };
    let rendered = url.to_string();
    assert_eq!(rendered, "deploy@gitlab.example.com:team_a/service-1.git");
    assert_eq!(Url::from_str(&rendered, &Patterns::default(), Some("other")).unwrap(), url);
}

#[test]
fn https_render_resolves_to_raw_url() {
    let url = Url {
        vcs: Vcs::Git,
        scheme: Scheme::Https,
        user: None,
        host: Host::GitHub,
        owner: "octo".to_string(),
        repo: "tools".to_string(),
        raw: None,
    };
    let rendered = url.to_string();
    let back = Url::from_str(&rendered, &Patterns::default(), None).unwrap();
    assert_eq!(back.owner, "octo");
    assert_eq!(back.repo, "tools");
    assert_eq!(back.raw.as_deref(), Some("https://github.com/octo/tools.git"));
}

#[test]
fn strip_extensions_is_idempotent() {
    assert_eq!(PartialUrl::remove_extensions("repo"), "repo");
    assert_eq!(PartialUrl::remove_extensions("repo.git"), "repo");
    assert_eq!(PartialUrl::remove_extensions("repo.git.git"), "repo");
    let once = PartialUrl::remove_extensions("tool.git");
    assert_eq!(PartialUrl::remove_extensions(&once), once);
    assert_eq!(PartialUrl::remove_extensions(""), "");
}

#[test]
fn earlier_pattern_wins() {
    let first = Pattern::from_regex(Regex::new(r"^(?P<owner>[a-z]+)-(?P<repo>[a-z]+)$").unwrap())
        .with_scheme(Scheme::Ssh);
    let second = Pattern::from_regex(Regex::new(r"^(?P<repo>[a-z-]+)$").unwrap());
    let patterns = Patterns::new().with(first).with(second);
    let m = patterns.matches("alice-tools").unwrap();
    assert_eq!(m.owner.as_deref(), Some("alice"));
    assert_eq!(m.repo, "tools");
    assert_eq!(m.scheme, Some(Scheme::Ssh));
    assert_eq!(m.raw.as_deref(), Some("alice-tools"));

    let m = Patterns::default().matches("git@github.com:a/b").unwrap();
    assert_eq!(m.scheme, Some(Scheme::Ssh));
    assert_eq!(m.user.as_deref(), Some("git"));
}

#[test]
fn bare_repository_takes_default_owner() {
    let url = Url::from_str("myrepo", &Patterns::default(), Some("alice")).unwrap();
    assert_eq!(url.owner, "alice");
    assert_eq!(url.repo, "myrepo");
    assert_eq!(
        Url::from_str("myrepo", &Patterns::default(), None),
        Err(ResolveError::MissingOwner)
    );
    assert_eq!(
        Url::from_str("myrepo", &Patterns::default(), Some("")),
        Err(ResolveError::MissingOwner)
    );
}

#[test]
fn errors_of_resolution() {
    assert_eq!(
        Url::from_str("not a repository!", &Patterns::default(), Some("a")),
        Err(ResolveError::NoPatternMatched)
    );
    assert_eq!(
        Url::from_str("https://github.com/onlyowner", &Patterns::default(), None),
        Err(ResolveError::MalformedUrl)
    );
    assert_eq!(
        Url::from_str("ftp://example.com/a/b", &Patterns::default(), None),
        Err(ResolveError::UnknownScheme)
    );
    assert_eq!(
        Url::from_str("https://bad host/a/b", &Patterns::default(), None),
        Err(ResolveError::MalformedUrl)
    );
    assert_eq!(Vcs::from_str("svn"), Err(ResolveError::UnknownVcs));
    assert_eq!(Vcs::from_str("GIT"), Ok(Vcs::Git));
    assert_eq!(Scheme::from_str("SSH"), Ok(Scheme::Ssh));
    assert_eq!(Scheme::from_str("http"), Err(ResolveError::UnknownScheme));
}

#[test]
fn hosts_compare_without_case() {
    assert_eq!(Host::from_str("GitHub.COM"), Host::GitHub);
    assert_eq!(Host::from_str("gitlab.com"), Host::Unknown("gitlab.com".to_string()));
    assert_eq!(Host::GitHub.to_string(), "github.com");
}

#[test]
fn url_with_user_over_https_renders_authority() {
    let url = Url {
        vcs: Vcs::Git,
        scheme: Scheme::Https,
        user: Some("me".to_string()),
        host: Host::Unknown("example.com".to_string()),
        owner: "o".to_string(),
        repo: "r".to_string(),
        raw: None,
    };
    assert_eq!(url.to_string(), "https://me@example.com/o/r.git");
    let parsed = Url::from_url("ssh://me@Example.com/o/r").unwrap();
    assert_eq!(parsed.host, Host::Unknown("Example.com".to_string()));
    assert_eq!(parsed.vcs, Vcs::Git);
    assert_eq!(parsed.to_string(), "me@Example.com:o/r.git");
}

#[test]
fn shorthand_grammars_read_their_forms() {
    let c = Shorthand::HostOwnerRepo.captures("example.org/team/app").unwrap();
    assert_eq!(c.host.as_deref(), Some("example.org"));
    assert_eq!(c.owner.as_deref(), Some("team"));
    assert_eq!(c.repo, "app");
    assert!(Shorthand::OwnerRepo.captures("a/b/c").is_none());
    assert!(Shorthand::Ssh.captures("user@host/owner/repo").is_none());
    assert!(Shorthand::Repo.captures("").is_none());
}

#[test]
fn regex_pattern_must_cover_whole_input() {
    let patterns = Patterns::new().with(Pattern::from_regex(Regex::new(r"(?P<owner>[a-z]+)/(?P<repo>[a-z]+)").unwrap()));
    assert!(patterns.matches("alice/tools").is_some());
    assert!(patterns.matches("alice/tools!").is_none());
    assert!(patterns.matches("no repo here").is_none());
    let no_repo = Patterns::new().with(Pattern::from_regex(Regex::new(r"^(?P<owner>[a-z]+)$").unwrap()));
    assert!(no_repo.matches("alice").is_none());
}
