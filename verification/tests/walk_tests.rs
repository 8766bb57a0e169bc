use zenn2press::walk::walk_tree;
use zenn2press::walk::FsTree;

fn file(name: &str) -> FsTree {
    FsTree::File { name: name.to_string() }
}

fn dir(name: &str, entries: Vec<FsTree>) -> FsTree {
    FsTree::Dir { name: name.to_string(), entries }
}

fn names(v: &[&str]) -> Vec<String> {
    v.iter().map(|s| s.to_string()).collect()
}

#[test]
fn test_walk_collects_all_files() {
    let entries = vec![file("file1.jpg"), dir("subdir", vec![file("file2.png")])];
    let paths = walk_tree("root", &entries, None, None);
    assert_eq!(paths, vec!["root/file1.jpg".to_string(), "root/subdir/file2.png".to_string()]);
}

#[test]
fn test_walk_with_name_substring() {
    let entries = vec![file("file1.jpg"), dir("subdir", vec![file("file2.png")])];

    let inc = names(&["file1"]);
    let paths = walk_tree("root", &entries, Some(&inc), None);
    assert_eq!(paths, vec!["root/file1.jpg".to_string()]);

    let exc = names(&["file1"]);
    let paths = walk_tree("root", &entries, None, Some(&exc));
    assert_eq!(paths, vec!["root/subdir/file2.png".to_string()]);
}

#[test]
fn test_walk_prunes_rejected_directory() {
    // A directory whose path fails the filter is never descended into:
    // nothing under `skipped` appears, and the other file stays.
    let entries = vec![
        dir("skipped", vec![file("inner.png"), dir("deeper", vec![file("more.png")])]),
        file("kept.png"),
    ];
    let exc = names(&["skipped"]);
    let paths = walk_tree("root", &entries, None, Some(&exc));
    assert_eq!(paths, vec!["root/kept.png".to_string()]);
}

#[test]
fn test_walk_pruning_cuts_matching_files_under_rejected_directory() {
    // With a name to match, pruning is observable: `sub` does not contain
    // `pic.png`, so the directory is pruned and the file inside it is
    // lost even though its own path would match.
    let entries = vec![dir("sub", vec![file("pic.png")])];
    let inc = names(&["pic.png"]);
    let paths = walk_tree("root", &entries, Some(&inc), None);
    assert!(paths.is_empty());
}

#[test]
fn test_walk_exclude_is_exact_on_paths() {
    // With only an exclusion list, the walk returns exactly the files
    // whose full path avoids every listed substring.
    let entries = vec![
        dir("a", vec![file("one.png"), file("two.tmp")]),
        dir("b", vec![file("three.png")]),
    ];
    let exc = names(&[".tmp", "b/"]);
    let paths = walk_tree("root", &entries, None, Some(&exc));
    assert_eq!(paths, vec!["root/a/one.png".to_string()]);
}
