use std::str::FromStr;

use ghr::exclude::{File, Node};

#[test]
fn test_node_from_str() {
    assert_eq!(
        Node::Comment("This is a comment".to_string()),
        Node::from_str("#This is a comment").unwrap(),
    );
    assert_eq!(
        Node::Include("/path/to/**/file.ext".to_string()),
        Node::from_str("!/path/to/**/file.ext").unwrap(),
    );
    assert_eq!(
        Node::Exclude("/path/to/**/file.ext".to_string()),
        Node::from_str("/path/to/**/file.ext").unwrap(),
    );
}

#[test]
fn test_node_to_string() {
    assert_eq!(
        "#This is a comment".to_string(),
        Node::Comment("This is a comment".to_string()).to_string(),
    );
    assert_eq!(
        "!/path/to/**/file.ext".to_string(),
        Node::Include("/path/to/**/file.ext".to_string()).to_string(),
    );
    assert_eq!(
        "/path/to/**/file.ext".to_string(),
        Node::Exclude("/path/to/**/file.ext".to_string()).to_string(),
    );
}

#[test]
fn test_file_read() {
    let content = r#"
# File patterns to ignore; see `git help ignore` for more information.
# Lines that start with '#' are comments.
.idea
"#;

    let file = File::parse(content);
    let expected = vec![
        Node::Empty,
        Node::Comment(
            " File patterns to ignore; see `git help ignore` for more information.".to_string(),
        ),
        Node::Comment(" Lines that start with '#' are comments.".to_string()),
        Node::Exclude(".idea".to_string()),
    ];
    assert_eq!(&expected, file.nodes());
    assert_eq!(file.render(), content);
}

#[test]
fn test_file_write() {
    let mut file = File::default();

    file.push(Node::Comment("This is a comment".to_string()));
    file.push(Node::Empty);
    file.push(Node::Include("/path/to/include".to_string()));
    file.push(Node::Exclude("/path/to/exclude".to_string()));

    assert_eq!(
        r#"#This is a comment

!/path/to/include
/path/to/exclude
"#,
        file.render(),
    )
}

#[test]
fn add_or_noop_skips_duplicates() {
    let mut file = File::parse("a\r\n!b\nc");
    assert_eq!(file.len(), 3);
    file.add_or_noop(Node::Exclude("a".to_string()));
    assert_eq!(file.len(), 3);
    file.add_or_noop(Node::Exclude("b".to_string()));
    assert_eq!(file.len(), 4);
    assert_eq!(file.render(), "a\n!b\nc\nb\n");
    assert_eq!(File::parse("").len(), 0);
}
