use sitegen::front_matter::{FrontMatterDeserializer, Serializer, get_front_matter_string,
    parse_front_matter_string, get_rendered, parse_page};

#[test]
fn deserializer_default_has_placeholders() {
    let d = FrontMatterDeserializer::default();
    assert_eq!(d.layout, Some(String::from("default")));
    assert_eq!(d.title, Some(String::from("undefined")));
    assert_eq!(d.permalink, Some(String::from("/404.html")));
}

#[test]
fn yaml_header_is_extracted_and_trimmed() {
    let data = String::from("---\ntitle: Hello\n---\nBody text");
    let (header, serializer) = get_front_matter_string(&data).unwrap();
    assert_eq!(header, String::from("title: Hello"));
    assert!(matches!(serializer, Serializer::Yaml));
}

#[test]
fn toml_header_is_extracted() {
    let data = String::from("+++\ntitle = \"Hello\"\n+++\nBody");
    let (header, serializer) = get_front_matter_string(&data).unwrap();
    assert_eq!(header, String::from("title = \"Hello\""));
    assert!(matches!(serializer, Serializer::Toml));
}

#[test]
fn unclosed_header_runs_to_the_end() {
    let data = String::from("---\ntitle: Hello");
    let (header, serializer) = get_front_matter_string(&data).unwrap();
    assert_eq!(header, String::from("title: Hello"));
    assert!(matches!(serializer, Serializer::Yaml));
}

#[test]
fn blank_or_missing_header_is_no_block() {
    assert!(get_front_matter_string(&String::from("---\n   \n---\nBody")).is_none());
    assert!(get_front_matter_string(&String::from("no block here")).is_none());
    assert!(get_front_matter_string(&String::from("------")).is_none());
}

#[test]
fn yaml_fields_are_parsed() {
    let data = String::from("---\ntitle: Hello\npermalink: /hi.html\n---\nBody");
    let fields = parse_front_matter_string(&data).unwrap();
    assert_eq!(fields.title, Some(String::from("Hello")));
    assert_eq!(fields.permalink, Some(String::from("/hi.html")));
    assert_eq!(fields.layout, None);
}

#[test]
fn toml_fields_are_parsed() {
    let data = String::from("+++\nlayout = \"page\"\n+++\nBody");
    let fields = parse_front_matter_string(&data).unwrap();
    assert_eq!(fields.layout, Some(String::from("page")));
    assert_eq!(fields.title, None);
    assert_eq!(fields.permalink, None);
}

#[test]
fn yaml_null_field_counts_as_absent() {
    let data = String::from("---\ntitle: ~\npermalink: /here.html\n---\nBody");
    let fields = parse_front_matter_string(&data).unwrap();
    assert_eq!(fields.title, None);
    assert_eq!(fields.permalink, Some(String::from("/here.html")));
}

#[test]
fn unparsable_header_gives_nothing() {
    let data = String::from("---\njust words, not a mapping\n---\nBody");
    assert!(parse_front_matter_string(&data).is_none());
    let toml_bad = String::from("+++\nnot toml at all ===\n+++\nBody");
    assert!(parse_front_matter_string(&toml_bad).is_none());
}

#[test]
fn markdown_body_is_converted() {
    let html = get_rendered("note.md", String::from("# Hi"));
    assert_eq!(html, String::from("<h1>Hi</h1>"));
}

#[test]
fn markup_body_drops_leading_delimited_segment() {
    let out = get_rendered("page.html", String::from("---\ntitle: x\n---\n<p>kept</p>"));
    assert_eq!(out, String::from("\n<p>kept</p>"));
    let untouched = get_rendered("page.html", String::from("<p>plain</p>"));
    assert_eq!(untouched, String::from("<p>plain</p>"));
}

#[test]
fn other_bodies_pass_through() {
    let out = get_rendered("data.txt", String::from("---\nraw\n---\nstuff"));
    assert_eq!(out, String::from("---\nraw\n---\nstuff"));
}

#[test]
fn page_without_block_gets_all_defaults() {
    let fm = parse_page("# Hi", "blog/first-post.md");
    assert_eq!(fm.title, String::from("first-post"));
    assert_eq!(fm.layout, String::from("default"));
    assert_eq!(fm.permalink, String::from("/blog/first-post.html"));
    assert_eq!(fm.content, String::from("<h1>Hi</h1>"));
}

#[test]
fn page_with_only_title_keeps_other_defaults() {
    let fm = parse_page("---\ntitle: Welcome\n---\n# Hi", "index.md");
    assert_eq!(fm.title, String::from("Welcome"));
    assert_eq!(fm.layout, String::from("default"));
    assert_eq!(fm.permalink, String::from("/index.html"));
    assert_eq!(fm.content, String::from("<h1>Hi</h1>"));
}

#[test]
fn page_with_full_block_uses_its_fields() {
    let fm = parse_page(
        "---\nlayout: post\ntitle: T\npermalink: /elsewhere/p.html\n---\n# Hi",
        "src-dir/file.md",
    );
    assert_eq!(fm.layout, String::from("post"));
    assert_eq!(fm.title, String::from("T"));
    assert_eq!(fm.permalink, String::from("/elsewhere/p.html"));
    assert_eq!(fm.content, String::from("<h1>Hi</h1>"));
}

#[test]
fn failed_block_parse_keeps_remainder_as_body() {
    let fm = parse_page("---\nnot a mapping\n---\n# Hi", "index.md");
    assert_eq!(fm.title, String::from("index"));
    assert_eq!(fm.layout, String::from("default"));
    assert_eq!(fm.permalink, String::from("/index.html"));
    // the text after the closing delimiter, verbatim, with no transform
    assert_eq!(fm.content, String::from("\n# Hi"));
}

#[test]
fn failed_parse_of_unclosed_block_keeps_whole_content() {
    let fm = parse_page("---\nnot a mapping", "index.md");
    assert_eq!(fm.layout, String::from("default"));
    assert_eq!(fm.content, String::from("---\nnot a mapping"));
}

#[test]
fn non_markdown_page_keeps_block_in_body() {
    let fm = parse_page("---\ntitle: T\n---\npayload", "notes.txt");
    assert_eq!(fm.title, String::from("T"));
    assert_eq!(fm.content, String::from("---\ntitle: T\n---\npayload"));
}
