use sitegen::path_extension::{has_extension, get_extension, file_stem, with_extension, join_path};

#[test]
fn extension_of_simple_file() {
    assert_eq!(get_extension("index.md"), Some(String::from("md")));
    assert!(has_extension("index.md", "md"));
    assert!(!has_extension("index.md", "html"));
}

#[test]
fn extension_of_nested_path() {
    assert_eq!(get_extension("blog/post.html"), Some(String::from("html")));
    assert_eq!(get_extension("a.b/c"), None);
}

#[test]
fn extension_of_dotted_names() {
    assert_eq!(get_extension("archive.tar.gz"), Some(String::from("gz")));
    assert_eq!(get_extension(".gitignore"), None);
    assert_eq!(get_extension("trailing."), Some(String::from("")));
    assert_eq!(get_extension("plain"), None);
}

#[test]
fn stem_of_paths() {
    assert_eq!(file_stem("pages/index.md"), Some(String::from("index")));
    assert_eq!(file_stem("archive.tar.gz"), Some(String::from("archive.tar")));
    assert_eq!(file_stem(".gitignore"), Some(String::from(".gitignore")));
    assert_eq!(file_stem("plain"), Some(String::from("plain")));
    assert_eq!(file_stem(""), None);
    assert_eq!(file_stem("dir/"), None);
}

#[test]
fn with_extension_replaces_or_appends() {
    assert_eq!(with_extension("a/b.md", "html"), String::from("a/b.html"));
    assert_eq!(with_extension("a/b", "html"), String::from("a/b.html"));
    assert_eq!(with_extension("a.tar.gz", "html"), String::from("a.tar.html"));
    assert_eq!(with_extension(".gitignore", "html"), String::from(".gitignore.html"));
    assert_eq!(with_extension("dir/", "html"), String::from("dir/"));
}

#[test]
fn join_path_handles_empty_prefix() {
    assert_eq!(join_path("", "index.md"), String::from("index.md"));
    assert_eq!(join_path("blog", "post.md"), String::from("blog/post.md"));
}
