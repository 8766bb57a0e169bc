use zenn2press::props::get_properties;
use zenn2press::props::Args;

#[test]
fn test_get_properties() {
    let args = Args {
        src_dir: "content/zenn".to_string(),
        dest_dir: "docs/articles".to_string(),
        dest_images_dir: "docs/public".to_string(),
        included: vec!["a".to_string()],
        excluded: vec![],
        config_file: Some("conf.yaml".to_string()),
    };
    let props = get_properties(args);
    assert_eq!(props.src_articles_dir, "content/zenn/articles");
    assert_eq!(props.src_images_dir, "content/zenn/images");
    assert_eq!(props.dest_articles_dir, "docs/articles");
    assert_eq!(props.dest_images_dir, "docs/public");
    assert_eq!(props.included, Some(vec!["a".to_string()]));
    assert_eq!(props.excluded, Some(vec![]));
    assert_eq!(props.config_file, Some("conf.yaml".to_string()));
}
