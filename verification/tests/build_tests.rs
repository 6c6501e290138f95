use sitegen::collections::get_collections;
use sitegen::output::OutputFile;
use sitegen::pipeline::{BuildInput, BuildOutput, build};
use sitegen::report::BuildLogEntry;
use sitegen::tree::Entry;

fn file(name: &str, content: &str) -> Entry<String> {
    Entry::File { name: String::from(name), content: String::from(content) }
}

fn dir(name: &str, entries: Vec<Entry<String>>) -> Entry<String> {
    Entry::Dir { name: String::from(name), entries }
}

fn input_with(pages: Entry<String>, templates: Option<Entry<String>>) -> BuildInput {
    BuildInput { pages, templates, scripts: None, assets: None }
}

fn text_writes(out: &BuildOutput) -> Vec<(String, String)> {
    out.writes
        .iter()
        .filter_map(|w| match w {
            OutputFile::Text { path, data } => Some((path.clone(), data.clone())),
            OutputFile::Binary { .. } => None,
        })
        .collect()
}

#[test]
fn markdown_page_renders_through_default_template() {
    let input = input_with(
        dir("pages", vec![file("index.md", "# Hi")]),
        Some(dir("templates", vec![file("default.hbs", "<html>{{{content}}}</html>")])),
    );
    let out = build(&input);
    let writes = text_writes(&out);
    assert_eq!(writes.len(), 1);
    assert_eq!(writes[0].0, String::from("index.html"));
    assert_eq!(writes[0].1, String::from("<html><h1>Hi</h1></html>"));
    assert!(out.report.is_empty());
}

#[test]
fn escaping_template_escapes_markup() {
    let input = input_with(
        dir("pages", vec![file("index.md", "# Hi")]),
        Some(dir("templates", vec![file("default.hbs", "{{content}}")])),
    );
    let out = build(&input);
    let writes = text_writes(&out);
    assert_eq!(writes[0].1, String::from("&lt;h1&gt;Hi&lt;/h1&gt;"));
}

#[test]
fn unknown_layout_skips_the_page_and_keeps_siblings() {
    let input = input_with(
        dir(
            "pages",
            vec![
                file("broken.md", "---\nlayout: missing\n---\n# A"),
                file("ok.md", "# B"),
            ],
        ),
        Some(dir("templates", vec![file("default.hbs", "{{{content}}}")])),
    );
    let out = build(&input);
    let writes = text_writes(&out);
    assert_eq!(writes.len(), 1);
    assert_eq!(writes[0].0, String::from("ok.html"));
    assert_eq!(writes[0].1, String::from("<h1>B</h1>"));
    assert_eq!(out.report.len(), 1);
    match &out.report[0] {
        BuildLogEntry::RenderFailed { path } => assert_eq!(path, "broken.md"),
        other => panic!("unexpected report entry {:?}", log_kind(other)),
    }
}

#[test]
fn permalink_names_the_destination_not_the_source() {
    let input = input_with(
        dir(
            "pages",
            vec![dir(
                "deep",
                vec![file("moved.md", "---\npermalink: /top-level\n---\n# M")],
            )],
        ),
        Some(dir("templates", vec![file("default.hbs", "{{{content}}}")])),
    );
    let out = build(&input);
    let writes = text_writes(&out);
    assert_eq!(writes.len(), 1);
    assert_eq!(writes[0].0, String::from("top-level.html"));
}

#[test]
fn nested_pages_render_to_mirrored_paths_by_default() {
    let input = input_with(
        dir("pages", vec![dir("blog", vec![file("post.md", "# P")])]),
        Some(dir("templates", vec![file("default.hbs", "{{{content}}}")])),
    );
    let out = build(&input);
    let writes = text_writes(&out);
    assert_eq!(writes.len(), 1);
    assert_eq!(writes[0].0, String::from("blog/post.html"));
}

#[test]
fn template_context_offers_title_and_permalink() {
    let input = input_with(
        dir("pages", vec![file("about.md", "---\ntitle: About us\n---\nx")]),
        Some(dir("templates", vec![file("default.hbs", "{{title}}|{{permalink}}")])),
    );
    let out = build(&input);
    let writes = text_writes(&out);
    assert_eq!(writes[0].1, String::from("About us|/about.html"));
}

#[test]
fn template_context_offers_collections() {
    let input = input_with(
        dir(
            "pages",
            vec![
                file("a.md", "---\ntitle: A\n---\nx"),
                file("b.md", "---\ntitle: B\n---\nx"),
            ],
        ),
        Some(dir(
            "templates",
            vec![file("default.hbs", "{{#each collections.pages}}{{title}};{{/each}}")],
        )),
    );
    let out = build(&input);
    let writes = text_writes(&out);
    assert_eq!(writes.len(), 2);
    assert_eq!(writes[0].1, String::from("A;B;"));
    assert_eq!(writes[1].1, String::from("A;B;"));
}

#[test]
fn bad_template_is_reported_and_skipped() {
    let input = input_with(
        dir("pages", vec![file("index.md", "# Hi")]),
        Some(dir(
            "templates",
            vec![
                file("broken.hbs", "{{#if x}}no closing"),
                file("default.hbs", "{{{content}}}"),
            ],
        )),
    );
    let out = build(&input);
    let writes = text_writes(&out);
    assert_eq!(writes.len(), 1);
    assert_eq!(writes[0].1, String::from("<h1>Hi</h1>"));
    assert_eq!(out.report.len(), 1);
    assert!(matches!(&out.report[0], BuildLogEntry::TemplateRejected { name } if name == "broken"));
}

#[test]
fn non_template_files_are_ignored_with_a_note() {
    let input = input_with(
        dir("pages", vec![file("index.md", "# Hi")]),
        Some(dir(
            "templates",
            vec![file("README.txt", "docs"), file("default.hbs", "{{{content}}}")],
        )),
    );
    let out = build(&input);
    assert_eq!(out.report.len(), 1);
    assert!(matches!(&out.report[0], BuildLogEntry::FileIgnored { name } if name == "README.txt"));
}

#[test]
fn helper_scripts_load_and_bad_ones_are_reported() {
    let input = BuildInput {
        pages: dir("pages", vec![file("index.md", "# Hi")]),
        templates: Some(dir("templates", vec![file("default.hbs", "{{{content}}}")])),
        scripts: Some(dir(
            "scripts",
            vec![file("fine.rhai", "40 + 2"), file("broken.rhai", "fn (")],
        )),
        assets: None,
    };
    let out = build(&input);
    assert_eq!(out.report.len(), 1);
    assert!(matches!(&out.report[0], BuildLogEntry::HelperRejected { name } if name == "broken"));
    assert_eq!(text_writes(&out).len(), 1);
}

#[test]
fn script_helpers_run_during_rendering() {
    let input = BuildInput {
        pages: dir("pages", vec![file("index.md", "x")]),
        templates: Some(dir("templates", vec![file("default.hbs", "answer={{answer}}")])),
        scripts: Some(dir("scripts", vec![file("answer.rhai", "40 + 2")])),
        assets: None,
    };
    let out = build(&input);
    let writes = text_writes(&out);
    assert_eq!(writes.len(), 1);
    assert_eq!(writes[0].1, String::from("answer=42"));
    assert!(out.report.is_empty());
}

#[test]
fn unknown_layout_fails_even_with_script_helpers() {
    let input = BuildInput {
        pages: dir(
            "pages",
            vec![file("broken.md", "---\nlayout: missing\n---\nx"), file("ok.md", "x")],
        ),
        templates: Some(dir("templates", vec![file("default.hbs", "{{{content}}}")])),
        scripts: Some(dir("scripts", vec![file("fine.rhai", "40 + 2")])),
        assets: None,
    };
    let out = build(&input);
    let writes = text_writes(&out);
    assert_eq!(writes.len(), 1);
    assert_eq!(writes[0].0, String::from("ok.html"));
    assert_eq!(out.report.len(), 1);
    assert!(matches!(&out.report[0], BuildLogEntry::RenderFailed { path } if path == "broken.md"));
}

#[test]
fn missing_template_directory_renders_nothing() {
    let input = input_with(dir("pages", vec![file("index.md", "# Hi")]), None);
    let out = build(&input);
    assert!(text_writes(&out).is_empty());
    assert_eq!(out.report.len(), 1);
    assert!(matches!(&out.report[0], BuildLogEntry::RenderFailed { path } if path == "index.md"));
}

#[test]
fn rebuilding_unchanged_input_gives_identical_output() {
    let make = || {
        BuildInput {
            pages: dir(
                "pages",
                vec![
                    file("index.md", "---\ntitle: Home\n---\n# Hi"),
                    dir("blog", vec![file("a.md", "# A"), file("b.md", "# B")]),
                ],
            ),
            templates: Some(dir(
                "templates",
                vec![file("default.hbs", "{{title}}:{{{content}}}")],
            )),
            scripts: None,
            assets: None,
        }
    };
    let first = build(&make());
    let second = build(&make());
    assert_eq!(text_writes(&first), text_writes(&second));
    assert_eq!(first.writes.len(), second.writes.len());
    assert_eq!(first.report.len(), second.report.len());
}

#[test]
fn collections_hold_root_and_immediate_subdirectories_only() {
    let root = dir(
        "pages",
        vec![
            file("index.md", "# root page"),
            dir(
                "blog",
                vec![
                    file("a.md", "# A"),
                    dir("deep", vec![file("x.md", "# X")]),
                ],
            ),
            dir("docs", vec![file("d.md", "# D")]),
        ],
    );
    let collections = get_collections(&root);
    let names: Vec<String> = collections.entries.iter().map(|e| e.name.clone()).collect();
    assert_eq!(
        names,
        vec![String::from("pages"), String::from("blog"), String::from("docs")]
    );
    assert_eq!(collections.entries[0].pages.len(), 1);
    assert_eq!(collections.entries[0].pages[0].title, String::from("index"));
    // the nested directory is not summarized, and its file is not listed
    // under its parent either
    assert_eq!(collections.entries[1].pages.len(), 1);
    assert_eq!(collections.entries[1].pages[0].title, String::from("a"));
    assert_eq!(collections.entries[2].pages.len(), 1);
}

#[test]
fn subdirectory_named_like_the_root_wins_the_context_key() {
    let input = input_with(
        dir(
            "pages",
            vec![
                file("root.md", "---\ntitle: RootPage\n---\nx"),
                dir("pages", vec![file("inner.md", "---\ntitle: InnerPage\n---\nx")]),
            ],
        ),
        Some(dir(
            "templates",
            vec![file("default.hbs", "{{#each collections.pages}}{{title}};{{/each}}")],
        )),
    );
    let out = build(&input);
    let writes = text_writes(&out);
    assert_eq!(writes.len(), 2);
    // the index still holds both entries, but the context object keyed by
    // name keeps the later one
    assert_eq!(writes[0].1, String::from("InnerPage;"));
}

#[test]
fn get_entries_lists_one_directory_under_its_prefix() {
    let blog = dir("blog", vec![file("a.md", "# A"), dir("deep", vec![file("x.md", "# X")])]);
    let entry = sitegen::collections::get_entries(&blog, "blog");
    assert_eq!(entry.name, String::from("blog"));
    assert_eq!(entry.pages.len(), 1);
    assert_eq!(entry.pages[0].title, String::from("a"));
    assert_eq!(entry.pages[0].permalink, String::from("/blog/a.html"));
}

fn log_kind(e: &BuildLogEntry) -> &'static str {
    match e {
        BuildLogEntry::TemplateRejected { .. } => "template rejected",
        BuildLogEntry::HelperRejected { .. } => "helper rejected",
        BuildLogEntry::FileIgnored { .. } => "file ignored",
        BuildLogEntry::RenderFailed { .. } => "render failed",
        BuildLogEntry::AssetUnreadable { .. } => "asset unreadable",
        BuildLogEntry::StylesheetRejected { .. } => "stylesheet rejected",
    }
}
