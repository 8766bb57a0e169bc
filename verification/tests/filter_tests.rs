use zenn2press::filter::add_md_ext;
use zenn2press::filter::filter_markdown_files;
use zenn2press::filter::is_markdown_file;
use zenn2press::filter::path_passes_filter;

#[test]
fn test_filter_markdown_files() {
    let files: Vec<String> = vec![
        "file1.md".to_string(),
        "file2.txt".to_string(),
        "file3.md".to_string(),
        "file4.md".to_string(),
    ];

    // No name filters: every Markdown file stays, in order.
    let result = filter_markdown_files(files.clone(), None, None);
    assert_eq!(
        result,
        vec![
            "file1.md".to_string(),
            "file3.md".to_string(),
            "file4.md".to_string()
        ]
    );

    // Only the named files stay.
    let inc = Some(vec!["file1", "file3"]);
    let result = filter_markdown_files(files.clone(), inc, None);
    assert_eq!(result, vec!["file1.md".to_string(), "file3.md".to_string()]);

    // The named file is dropped.
    let exc = Some(vec!["file3"]);
    let result = filter_markdown_files(files.clone(), None, exc);
    assert_eq!(result, vec!["file1.md".to_string(), "file4.md".to_string()]);

    // Exclusion wins over inclusion.
    let inc = Some(vec!["file1", "file4"]);
    let exc = Some(vec!["file4"]);
    let result = filter_markdown_files(files, inc, exc);
    assert_eq!(result, vec!["file1.md".to_string()]);
}

#[test]
fn test_add_md_ext() {
    // Bare names get the suffix.
    let paths = vec!["file1", "file2", "file3"];
    let result = add_md_ext(paths);
    assert_eq!(
        result,
        vec![
            "file1.md".to_string(),
            "file2.md".to_string(),
            "file3.md".to_string()
        ]
    );

    // Names that already carry it are kept as they are.
    let paths = vec!["file1.md", "file2", "file3.md"];
    let result = add_md_ext(paths);
    assert_eq!(
        result,
        vec![
            "file1.md".to_string(),
            "file2.md".to_string(),
            "file3.md".to_string()
        ]
    );
}

#[test]
fn test_only_named_file_is_processed() {
    // With the name list ["a"], of a.md and b.md only a.md is kept.
    let files: Vec<String> = vec!["a.md".to_string(), "b.md".to_string()];
    let result = filter_markdown_files(files, Some(vec!["a"]), None);
    assert_eq!(result, vec!["a.md".to_string()]);
}

#[test]
fn test_markdown_name_matches_file_name_not_path() {
    // The name filter compares the file name after the last slash.
    let files: Vec<String> = vec!["articles/a.md".to_string(), "articles/b.md".to_string()];
    let result = filter_markdown_files(files, Some(vec!["a"]), None);
    assert_eq!(result, vec!["articles/a.md".to_string()]);
}

#[test]
fn test_is_markdown_file() {
    assert!(is_markdown_file("a.md"));
    assert!(is_markdown_file("dir/sub/a.md"));
    assert!(!is_markdown_file("a.txt"));
    assert!(!is_markdown_file("amd"));
    // A leading dot is not an extension.
    assert!(!is_markdown_file(".md"));
    assert!(!is_markdown_file("dir/.md"));
}

#[test]
fn test_path_filter_is_substring_based() {
    let names = |v: &[&str]| -> Vec<String> { v.iter().map(|s| s.to_string()).collect() };
    // Substring containment, not exact name equality.
    assert!(path_passes_filter("images/sub/pic.png", Some(&names(&["pic"])), None));
    assert!(!path_passes_filter("images/sub/pic.png", Some(&names(&["other"])), None));
    assert!(!path_passes_filter("images/sub/pic.png", None, Some(&names(&["sub"]))));
    assert!(path_passes_filter("images/sub/pic.png", None, Some(&names(&["zzz"]))));
    // Exclusion wins over inclusion.
    assert!(!path_passes_filter(
        "images/sub/pic.png",
        Some(&names(&["pic"])),
        Some(&names(&["sub"]))
    ));
    // Empty lists do not filter.
    assert!(path_passes_filter("anything", Some(&names(&[])), Some(&names(&[]))));
}
