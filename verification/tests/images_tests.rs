use zenn2press::images::parent_dir;
use zenn2press::images::plan_copies;
use zenn2press::images::rel_path;

#[test]
fn test_copy_files() {
    // The plan for two files directly under the source root: relative
    // structure preserved, targets under the destination root.
    let files = vec!["src/file1.txt".to_string(), "src/file2.txt".to_string()];
    let steps = plan_copies(&files, "src", "dest").unwrap();
    assert_eq!(steps.len(), 2);
    assert_eq!(steps[0].source, "src/file1.txt");
    assert_eq!(steps[0].target, "dest/file1.txt");
    assert_eq!(steps[0].target_parent.as_deref(), Some("dest"));
    assert_eq!(steps[1].target, "dest/file2.txt");
}

#[test]
fn test_copy_preserves_relative_subdirectories() {
    // images/sub/pic.png under the source root lands at
    // dest/sub/pic.png, with its parent directory planned first.
    let files = vec!["images/sub/pic.png".to_string()];
    let steps = plan_copies(&files, "images", "dest_images").unwrap();
    assert_eq!(steps.len(), 1);
    assert_eq!(steps[0].target, "dest_images/sub/pic.png");
    assert_eq!(steps[0].target_parent.as_deref(), Some("dest_images/sub"));
}

#[test]
fn test_plan_rejects_file_outside_root() {
    let files = vec!["images/a.png".to_string(), "elsewhere/b.png".to_string()];
    let err = plan_copies(&files, "images", "dest").unwrap_err();
    assert_eq!(err.index, 1);
    assert_eq!(err.path, "elsewhere/b.png");
}

#[test]
fn test_rel_path() {
    assert_eq!(rel_path("root/sub/p.png", "root").as_deref(), Some("sub/p.png"));
    assert_eq!(rel_path("root/p.png", "root").as_deref(), Some("p.png"));
    assert_eq!(rel_path("rooted/p.png", "root"), None);
    assert_eq!(rel_path("other/p.png", "root"), None);
    assert_eq!(rel_path("root", "root"), None);
}

#[test]
fn test_parent_dir() {
    assert_eq!(parent_dir("a/b/c.png").as_deref(), Some("a/b"));
    assert_eq!(parent_dir("a/b").as_deref(), Some("a"));
    assert_eq!(parent_dir("name"), None);
}
