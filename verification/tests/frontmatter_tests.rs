use zenn2press::frontmatter::parse_config_file;
use zenn2press::frontmatter::parse_frontmatter;
use zenn2press::frontmatter::split_frontmatter;

#[test]
fn test_parse_frontmatter_with_valid_input() {
    let input = "---\ntitle: Example\n---\nThis is the content.";
    let (content, config) = parse_frontmatter(input).unwrap();

    assert_eq!(content, "This is the content.");
    assert_eq!(config.get("title").unwrap(), "Example");
}

#[test]
fn test_parse_frontmatter_with_empty_frontmatter() {
    let input = "---\n---\nThis is the content.";
    let (content, config) = parse_frontmatter(input).unwrap();

    assert_eq!(content, "This is the content.");
    assert!(config.is_empty());
}

#[test]
fn test_parse_frontmatter_with_invalid_yaml() {
    let input = "---\ntitle: [Invalid YAML\n---\nThis is the content.";
    let result = parse_frontmatter(input);

    assert!(result.is_err());
}

#[test]
fn test_no_delimiters_gives_empty_mapping() {
    // A document with no `---` at all yields the empty frontmatter
    // mapping and keeps its whole trimmed text as the body.
    let (content, config) = parse_frontmatter("  Body text.  ").unwrap();
    assert!(config.is_empty());
    assert_eq!(content, "Body text.");
}

#[test]
fn test_split_frontmatter_parts() {
    let (fm, body) = split_frontmatter("---\ntitle: X\n---\n  Body \n");
    assert_eq!(fm, "title: X");
    assert_eq!(body, "Body");

    let (fm, body) = split_frontmatter("prefix ---a--- b");
    assert_eq!(fm, "a");
    assert_eq!(body, "b");

    // One delimiter only: the remainder is the frontmatter, the body is
    // empty.
    let (fm, body) = split_frontmatter("--- only: one");
    assert_eq!(fm, "only: one");
    assert_eq!(body, "");

    // No delimiter at all: empty frontmatter, the trimmed whole text as
    // the body.
    let (fm, body) = split_frontmatter(" plain text ");
    assert_eq!(fm, "");
    assert_eq!(body, "plain text");
}

#[test]
fn test_read_config_file() {
    // The parse half of loading a configuration file; reading the bytes
    // is the caller's part.
    let yaml_content = r#"
        key1: value1
        key2: value2
        "#;

    let config = parse_config_file(yaml_content).expect("Failed to read config file");

    assert_eq!(config.get("key1").unwrap(), "value1");
    assert_eq!(config.get("key2").unwrap(), "value2");
}

#[test]
fn test_parse_config_file_rejects_bad_yaml() {
    assert!(parse_config_file("key: [unclosed").is_err());
}
