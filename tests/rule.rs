use ghr::config::{Defaults, SearchPath};
use ghr::git::{checkout_args, clone_args, fetch_args, ls_remote_args, CloneOptions};
use ghr::pattern::Patterns;
use ghr::platform::{GitHubConfig, PlatformConfig, Platforms};
use ghr::profile::ConfigValue;
use ghr::shell::Kind;
use ghr::sync::{File as SyncFile, Head, Ref, Remote, Repository, SyncError, Upstream, Version};
use ghr::url::PartialUrl;
use ghr::application::{Application, Applications};
use ghr::exclude::{File, Node};
use ghr::path::{PartialPath, Path};
use ghr::profile::{Configs, Profile, Profiles};
use ghr::root::Root;
use ghr::rule::{ProfileRef, Rule, Rules};
use ghr::url::{Host, Scheme, Url, Vcs};
use std::path::PathBuf;

fn url_on(host: Host) -> Url {
    Url {
        vcs: Vcs::Git,
        scheme: Scheme::Https,
        user: None,
        host,
        owner: "siketyan".to_string(),
        repo: "ghr".to_string(),
        raw: None,
    }
}

fn rules() -> Rules {
    Rules::new(vec![
        Rule {
            profile: ProfileRef { name: "work".to_string() },
            host: Some("gitlab.com".to_string()),
            owner: None,
            repo: None,
        },
        Rule {
            profile: ProfileRef { name: "default".to_string() },
            host: None,
            owner: None,
            repo: None,
        },
    ])
}

#[test]
fn rules_pick_first_match() {
    let rules = rules();
    let work = rules.resolve(&url_on(Host::Unknown("gitlab.com".to_string()))).unwrap();
    assert_eq!(work.profile.name, "work");
    let other = rules.resolve(&url_on(Host::GitHub)).unwrap();
    assert_eq!(other.profile.name, "default");
    assert!(Rules::default().resolve(&url_on(Host::GitHub)).is_none());
}

#[test]
fn rule_compares_owner_and_repo() {
    let rule = Rule {
        profile: ProfileRef { name: "p".to_string() },
        host: Some("github.com".to_string()),
        owner: Some("siketyan".to_string()),
        repo: Some("other".to_string()),
    };
    assert!(!rule.matches(&url_on(Host::GitHub)));
    let rule = Rule { repo: Some("ghr".to_string()), ..rule };
    assert!(rule.matches(&url_on(Host::GitHub)));
}

#[test]
fn paths_join_host_owner_repo() {
    let root = Root::new(PathBuf::from("/tmp/root"));
    let path = Path::resolve(&root, &url_on(Host::GitHub));
    assert_eq!(path.to_path_buf(), PathBuf::from("/tmp/root/github.com/siketyan/ghr"));
    assert_eq!(path.to_string(), "github.com:siketyan/ghr");
    assert_eq!(path.to_string_with(false, true), "siketyan/ghr");
    assert_eq!(path.to_string_with(true, false), "github.com:ghr");
    assert_eq!(path.to_string_with(false, false), "ghr");
    let partial = PartialPath {
        root: &root,
        host: Some("github.com".to_string()),
        owner: None,
        repo: Some("ignored".to_string()),
    };
    assert_eq!(partial.to_path_buf(), PathBuf::from("/tmp/root/github.com"));
    let none = PartialPath { root: &root, host: None, owner: None, repo: None };
    assert_eq!(none.to_path_buf(), PathBuf::from("/tmp/root"));
    assert_eq!(root.path(), &PathBuf::from("/tmp/root"));
}

#[test]
fn applications_build_command_lines() {
    let mut apps = Applications::new();
    apps.insert(
        "vscode".to_string(),
        Application::new("code".to_string(), vec!["--new-window".to_string(), "%p".to_string()]),
    );
    let c = apps.open("vscode", "/repo").unwrap();
    assert_eq!(c.program, "code");
    assert_eq!(c.args, vec!["--new-window".to_string(), "/repo".to_string()]);
    assert!(apps.open("idea", "/repo").is_none());
    let c = apps.open_or_intermediate("idea", "/repo");
    assert_eq!(c.program, "idea");
    assert_eq!(c.args, vec!["/repo".to_string()]);
    let c = apps.open_or_intermediate_or_default(None, "/repo", false);
    assert_eq!(c.program, "open");
    let c = apps.open_or_intermediate_or_default(None, "/repo", true);
    assert_eq!(c.program, "explorer.exe");
    apps.insert("vscode".to_string(), Application::intermediate("codium"));
    assert_eq!(apps.open("vscode", "/x").unwrap().program, "codium");
}

#[test]
fn profiles_resolve_and_apply() {
    let mut configs = Configs::new();
    configs.insert("user.name".to_string(), "User Taro".to_string());
    configs.insert("user.email".to_string(), "taro@example.com".to_string());
    configs.insert("user.name".to_string(), "Taro".to_string());
    assert_eq!(configs.len(), 2);
    assert_eq!(configs.get("user.name").unwrap(), "Taro");
    assert!(configs.get("user.signingkey").is_none());

    let mut profiles = Profiles::new();
    profiles.insert(
        "work".to_string(),
        Profile { excludes: vec![".idea".to_string(), ".vscode".to_string()], configs },
    );
    let (name, profile) = profiles.resolve(&ProfileRef { name: "work".to_string() }).unwrap();
    assert_eq!(name, "work");
    assert!(profiles.resolve(&ProfileRef { name: "home".to_string() }).is_none());

    let mut exclude = File::parse("# comment\n.idea\n");
    profile.apply(&mut exclude);
    assert_eq!(exclude.render(), "# comment\n.idea\n.vscode\n");
    assert!(exclude.contains(&Node::Exclude(".vscode".to_string())));
}

#[test]
fn git_command_lines() {
    let options = CloneOptions {
        recursive: Some(Some("libs".to_string())),
        single_branch: true,
        origin: Some("upstream".to_string()),
        branch: Some("dev".to_string()),
    };
    assert_eq!(
        clone_args("https://github.com/a/b.git", "/r/github.com/a/b", &options),
        vec![
            "clone",
            "https://github.com/a/b.git",
            "/r/github.com/a/b",
            "--recurse-submodules=libs",
            "--single-branch",
            "--origin=upstream",
            "--branch=dev"
        ]
    );
    let plain = CloneOptions { recursive: Some(None), ..Default::default() };
    assert_eq!(clone_args("u", "p", &plain), vec!["clone", "u", "p", "--recurse-submodules"]);
    assert_eq!(checkout_args("main", Some("origin/main")), vec!["checkout", "-b", "main", "--track", "origin/main"]);
    assert_eq!(checkout_args("main", None), vec!["checkout", "-b", "main"]);
    assert_eq!(fetch_args("origin"), vec!["fetch", "origin"]);
    assert_eq!(ls_remote_args("u"), vec!["ls-remote", "u"]);
}

#[test]
fn search_path_candidates_and_defaults() {
    let mut search = SearchPath { owner: vec!["bob".to_string(), "".to_string()] };
    search.merge_defaults(&Defaults { owner: Some("alice".to_string()) });
    assert_eq!(search.owner, vec!["alice".to_string(), "bob".to_string(), "".to_string()]);
    let partial = PartialUrl::from_str("tools", &Patterns::default()).unwrap();
    let owners: Vec<String> = search.candidates(&partial).into_iter().map(|u| u.owner).collect();
    assert_eq!(owners, vec!["alice".to_string(), "bob".to_string()]);
    search.merge_defaults(&Defaults { owner: None });
    assert_eq!(search.owner.len(), 3);
}

#[test]
fn platforms_find_by_host() {
    let platforms = Platforms::default();
    let p = platforms.find(&url_on(Host::GitHub)).unwrap();
    assert_eq!(p.browsable_url(&url_on(Host::GitHub)), "https://github.com/siketyan/ghr");
    assert!(platforms.find(&url_on(Host::Unknown("gitlab.com".to_string()))).is_none());
    let enterprise = Platforms::new(vec![(
        "work".to_string(),
        PlatformConfig::GitHub(GitHubConfig { host: "ghe.example.com".to_string() }),
    )]);
    let p = enterprise.find(&url_on(Host::Unknown("ghe.example.com".to_string()))).unwrap();
    assert_eq!(p.host(), "ghe.example.com");
}

#[test]
fn shell_kinds_have_names() {
    assert_eq!(Kind::default().name(), "bash");
    assert_eq!(Kind::Fish.to_string(), "fish");
}

#[test]
fn configs_flatten_nested_tables() {
    let mut configs = Configs::new();
    let value = ConfigValue::Table(vec![
        ("name".to_string(), ConfigValue::Text("User Taro".to_string())),
        ("email".to_string(), ConfigValue::Text("taro@example.com".to_string())),
        ("age".to_string(), ConfigValue::Other),
        (
            "nested".to_string(),
            ConfigValue::Table(vec![("key".to_string(), ConfigValue::Text("v".to_string()))]),
        ),
        ("".to_string(), ConfigValue::Text("empty".to_string())),
    ]);
    configs.extend_from_toml(&value, "user");
    assert_eq!(configs.get("user.name").unwrap(), "User Taro");
    assert_eq!(configs.get("user.email").unwrap(), "taro@example.com");
    assert_eq!(configs.get("user.nested.key").unwrap(), "v");
    assert_eq!(configs.get("").unwrap(), "empty");
    assert!(configs.get("user.age").is_none());
    assert_eq!(configs.len(), 4);
    configs.extend_from_toml(&ConfigValue::Text("ABCDEFGHIJKLMNOP".to_string()), "user.signingkey");
    assert_eq!(configs.get("user.signingkey").unwrap(), "ABCDEFGHIJKLMNOP");
}

#[test]
fn sync_records() {
    assert!(matches!(Repository::synced_ref(Head::Remote("refs/remotes/origin/main".to_string())), Ok(Ref::Remote(r)) if r == "refs/remotes/origin/main"));
    assert!(matches!(Repository::synced_ref(Head::Branch("main".to_string(), None)), Err(SyncError::NeverPushed)));
    assert!(matches!(
        Repository::synced_ref(Head::Branch("main".to_string(), Some(Upstream { same_as_head: false, remote: "origin".to_string() }))),
        Err(SyncError::NotSynced)
    ));
    match Repository::synced_ref(Head::Branch("main".to_string(), Some(Upstream { same_as_head: true, remote: "origin".to_string() }))) {
        Ok(Ref::Branch(b)) => {
            assert_eq!(b.name, "main");
            assert_eq!(b.remote, "origin");
        }
        _ => panic!("expected a branch"),
    }
    assert!(matches!(Repository::synced_ref(Head::Tag), Err(SyncError::Tag)));
    assert!(matches!(Repository::synced_ref(Head::Detached), Err(SyncError::Detached)));

    let root = Root::new(PathBuf::from("/r"));
    let path = Path::new(&root, "github.com".to_string(), "siketyan".to_string(), "ghr".to_string());
    assert!(matches!(Repository::save(&path, Err(SyncError::Tag), vec![]), Err(SyncError::NoRemotes)));
    let saved = Repository::save(
        &path,
        Err(SyncError::Detached),
        vec![
            Remote { name: "mirror".to_string(), url: "git@gitlab.com:x/ghr.git".to_string(), push_url: None },
            Remote { name: "origin".to_string(), url: "https://github.com/siketyan/ghr.git".to_string(), push_url: None },
        ],
    )
    .unwrap();
    assert!(saved.git_ref.is_none());
    let origin = saved.origin(&Patterns::default(), None).unwrap();
    assert_eq!(origin.name, "origin");
    assert_eq!(saved.clone_source(Some(origin)), "https://github.com/siketyan/ghr.git");
    assert_eq!(saved.clone_source(None), "github.com:siketyan/ghr");

    let file = SyncFile::from_results(vec![Err(SyncError::Tag), Ok(saved)]);
    assert_eq!(file.version, Version::V1);
    assert_eq!(file.repositories.len(), 1);
}
