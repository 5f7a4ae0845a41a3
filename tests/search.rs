use ghr::search::search;

fn names() -> Vec<String> {
    vec![
        "github.com:rust-lang/rust".to_string(),
        "github.com:siketyan/ghr".to_string(),
        "gitlab.com:foo/bar".to_string(),
    ]
}

#[test]
fn search_lists_good_matches_first() {
    let found = search("siketyan/ghr", &names());
    assert_eq!(found.first().map(|s| s.as_str()), Some("github.com:siketyan/ghr"));
    assert!(!found.contains(&"gitlab.com:foo/bar".to_string()));
}

#[test]
fn search_drops_weak_matches() {
    assert!(search("g", &names()).is_empty());
    assert!(search("zzzz", &names()).is_empty());
    assert!(search("", &names()).is_empty());
}
