use serde_yaml::Mapping;
use serde_yaml::Value;

use zenn2press::frontmatter::parse_frontmatter;
use zenn2press::rewrite::rewrite_markdown;
use zenn2press::rewrite::RewriteOutcome;

fn rewritten_text(outcome: RewriteOutcome) -> String {
    match outcome {
        RewriteOutcome::Rewritten(t) => t,
        RewriteOutcome::Skipped => panic!("expected a rewritten document"),
    }
}

#[test]
fn test_rewrite_simple_article() {
    // The frontmatter is re-serialized between delimiters, a heading is
    // synthesized from the title, and the body follows.
    let input = "---\ntitle: Hello\n---\nBody text.";
    let out = rewritten_text(rewrite_markdown(input).unwrap());
    assert_eq!(out, "---\ntitle: Hello\n---\n# Hello\nBody text.");
}

#[test]
fn test_copy_markdown_file() {
    // The text written for a document with several frontmatter entries.
    let content = "---\ntitle: \"Test Title\"\ndescription: \"Test Description\"\n---\nThis is a test markdown file.\n";
    let out = rewritten_text(rewrite_markdown(content).unwrap());
    assert!(out.contains("# Test Title"));
    assert!(out.contains("This is a test markdown file."));
    assert!(out.contains("description: Test Description"));
}

#[test]
fn test_missing_title_is_skipped() {
    // No `title` entry: nothing is written, and it is not an error.
    let input = "---\ndescription: no heading here\n---\nBody.";
    let r = rewrite_markdown(input).unwrap();
    assert!(matches!(r, RewriteOutcome::Skipped));
}

#[test]
fn test_empty_frontmatter_is_skipped() {
    let r = rewrite_markdown("---\n---\nBody.").unwrap();
    assert!(matches!(r, RewriteOutcome::Skipped));

    let r = rewrite_markdown("No delimiters at all.").unwrap();
    assert!(matches!(r, RewriteOutcome::Skipped));
}

#[test]
fn test_non_string_title_falls_back() {
    let input = "---\ntitle: [1, 2]\n---\nBody.";
    let out = rewritten_text(rewrite_markdown(input).unwrap());
    assert!(out.contains("# Untitled\nBody."));
}

#[test]
fn test_rewrite_is_idempotent_on_inputs() {
    // Running the copy twice with identical inputs produces
    // byte-identical output.
    let input = "---\ntitle: Twice\nkind: note\n---\nSame body.";
    let first = rewritten_text(rewrite_markdown(input).unwrap());
    let second = rewritten_text(rewrite_markdown(input).unwrap());
    assert_eq!(first, second);
}

#[test]
fn test_frontmatter_round_trip() {
    // parse(serialize(frontmatter) + body) reproduces the mapping.
    let mut m = Mapping::new();
    m.insert(
        Value::String("title".to_string()),
        Value::String("Hello".to_string()),
    );
    m.insert(Value::String("count".to_string()), Value::Number(3.into()));
    m.insert(Value::String("draft".to_string()), Value::Bool(true));

    let yaml = serde_yaml::to_string(&m).unwrap();
    let document = format!("---\n{}---\nBody text.", yaml);
    let (body, parsed) = parse_frontmatter(&document).unwrap();
    assert_eq!(parsed, m);
    assert_eq!(body, "Body text.");
}

#[test]
fn test_rewrite_propagates_parse_failure() {
    let input = "---\ntitle: [broken\n---\nBody.";
    assert!(rewrite_markdown(input).is_err());
}
