use sitegen::output::OutputFile;
use sitegen::pipeline::{BuildInput, build};
use sitegen::report::BuildLogEntry;
use sitegen::tree::Entry;

fn bin_file(name: &str, content: &[u8]) -> Entry<Vec<u8>> {
    Entry::File { name: String::from(name), content: content.to_vec() }
}

fn bin_dir(name: &str, entries: Vec<Entry<Vec<u8>>>) -> Entry<Vec<u8>> {
    Entry::Dir { name: String::from(name), entries }
}

fn asset_input(assets: Entry<Vec<u8>>) -> BuildInput {
    BuildInput {
        pages: Entry::Dir { name: String::from("pages"), entries: vec![] },
        templates: None,
        scripts: None,
        assets: Some(assets),
    }
}

#[test]
fn css_is_minified_in_place() {
    let out = build(&asset_input(bin_dir(
        "assets",
        vec![bin_file("style.css", b"a {x}  \n c")],
    )));
    assert_eq!(out.writes.len(), 1);
    match &out.writes[0] {
        OutputFile::Text { path, data } => {
            assert_eq!(path, "style.css");
            assert_eq!(data, "a {x} c");
        },
        OutputFile::Binary { .. } => panic!("stylesheet came back as bytes"),
    }
}

#[test]
fn scss_compiles_to_css_with_new_extension() {
    let out = build(&asset_input(bin_dir(
        "assets",
        vec![bin_file("style.scss", b"$c: red;\nbody { color: $c; }\n")],
    )));
    assert_eq!(out.writes.len(), 1);
    match &out.writes[0] {
        OutputFile::Text { path, data } => {
            assert_eq!(path, "style.css");
            assert!(!data.is_empty());
            assert!(data.contains("color: red"));
            assert!(!data.contains('$'));
        },
        OutputFile::Binary { .. } => panic!("stylesheet came back as bytes"),
    }
    assert!(out.report.is_empty());
}

#[test]
fn other_files_are_copied_byte_for_byte() {
    let payload: &[u8] = &[0u8, 159, 146, 150];
    let out = build(&asset_input(bin_dir(
        "assets",
        vec![bin_dir("img", vec![bin_file("logo.png", payload)])],
    )));
    assert_eq!(out.writes.len(), 1);
    match &out.writes[0] {
        OutputFile::Binary { path, data } => {
            assert_eq!(path, "img/logo.png");
            assert_eq!(data.as_slice(), payload);
        },
        OutputFile::Text { .. } => panic!("binary came back as text"),
    }
}

#[test]
fn empty_minified_stylesheet_is_dropped_silently() {
    let out = build(&asset_input(bin_dir("assets", vec![bin_file("empty.css", b"")])));
    assert!(out.writes.is_empty());
    assert!(out.report.is_empty());
}

#[test]
fn file_without_extension_is_copied_byte_for_byte() {
    let out = build(&asset_input(bin_dir("assets", vec![bin_file("LICENSE", b"text")])));
    assert_eq!(out.writes.len(), 1);
    match &out.writes[0] {
        OutputFile::Binary { path, data } => {
            assert_eq!(path, "LICENSE");
            assert_eq!(data.as_slice(), b"text");
        },
        OutputFile::Text { .. } => panic!("copy came back as text"),
    }
    assert!(out.report.is_empty());
}

#[test]
fn unreadable_stylesheet_is_reported() {
    let out = build(&asset_input(bin_dir(
        "assets",
        vec![bin_file("bad.css", &[0xff, 0xfe, 0x00])],
    )));
    assert!(out.writes.is_empty());
    assert_eq!(out.report.len(), 1);
    assert!(matches!(&out.report[0], BuildLogEntry::AssetUnreadable { path } if path == "bad.css"));
}

#[test]
fn broken_stylesheet_is_reported() {
    let out = build(&asset_input(bin_dir(
        "assets",
        vec![bin_file("broken.scss", b"body { color: ")],
    )));
    assert!(out.writes.is_empty());
    assert_eq!(out.report.len(), 1);
    assert!(
        matches!(&out.report[0], BuildLogEntry::StylesheetRejected { path } if path == "broken.scss")
    );
}

#[test]
fn stylesheet_imports_are_never_resolved() {
    let out = build(&asset_input(bin_dir(
        "assets",
        vec![bin_file("with_import.scss", b"@use \"other\";\nbody { color: red; }")],
    )));
    assert!(out.writes.is_empty());
    assert_eq!(out.report.len(), 1);
    assert!(
        matches!(&out.report[0], BuildLogEntry::StylesheetRejected { path } if path == "with_import.scss")
    );
}

#[test]
fn sass_files_use_the_indented_syntax() {
    let out = build(&asset_input(bin_dir(
        "assets",
        vec![bin_file("plain.sass", b"body\n  color: blue\n")],
    )));
    assert_eq!(out.writes.len(), 1);
    match &out.writes[0] {
        OutputFile::Text { path, data } => {
            assert_eq!(path, "plain.css");
            assert!(data.contains("color: blue"));
        },
        OutputFile::Binary { .. } => panic!("stylesheet came back as bytes"),
    }
}

#[test]
fn assets_and_pages_combine_in_one_build() {
    let input = BuildInput {
        pages: Entry::Dir {
            name: String::from("pages"),
            entries: vec![Entry::File {
                name: String::from("index.md"),
                content: String::from("# Hi"),
            }],
        },
        templates: Some(Entry::Dir {
            name: String::from("templates"),
            entries: vec![Entry::File {
                name: String::from("default.hbs"),
                content: String::from("{{{content}}}"),
            }],
        }),
        scripts: None,
        assets: Some(bin_dir("assets", vec![bin_file("a.css", b"p {x}")])),
    };
    let out = build(&input);
    assert_eq!(out.writes.len(), 2);
    match &out.writes[0] {
        OutputFile::Text { path, .. } => assert_eq!(path, "a.css"),
        OutputFile::Binary { .. } => panic!("asset came back as bytes"),
    }
    match &out.writes[1] {
        OutputFile::Text { path, data } => {
            assert_eq!(path, "index.html");
            assert_eq!(data, "<h1>Hi</h1>");
        },
        OutputFile::Binary { .. } => panic!("page came back as bytes"),
    }
}
