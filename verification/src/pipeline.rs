//! The build: load templates and helper scripts, index the collections,
//! mirror the assets, then render every page — in that order, with the
//! collection index built once and shared read-only by the render pass.

use vstd::prelude::*;
use crate::assets::{asset_writes_list, asset_report_list, copy_assets, lemma_asset_walk_congr_list};
use crate::collections::{collections_spec, get_collections, lemma_collections_congr};
use crate::output::{OutputFile, OutputFileV, outputs_view};
use crate::registry::{no_sources, templates_of, scripts_of, register_templates_spec,
    register_helpers_spec, template_report_spec, helper_report_spec, new_registry,
    register_templates, register_helpers, lemma_register_templates_congr,
    lemma_register_helpers_congr};
use crate::render::{page_writes_list, page_failures_list, render_pages,
    lemma_page_walk_congr_list, unknown_layout_in_list, write_from_list};
use crate::report::{BuildLogEntry, BuildLogV, report_view};
use crate::tree::{Entry, wf_entry, dir_entries, same_tree, lemma_same_tree_parts};

verus! {

/// Everything a build reads: the content tree (required), and the
/// template, helper-script and asset trees (each optional).
pub struct BuildInput {
    pub pages: Entry<String>,
    pub templates: Option<Entry<String>>,
    pub scripts: Option<Entry<String>>,
    pub assets: Option<Entry<Vec<u8>>>,
}

/// Everything a build yields: the files to write under the output root,
/// in order, and the report of everything that failed or was ignored.
pub struct BuildOutput {
    pub writes: Vec<OutputFile>,
    pub report: Vec<BuildLogEntry>,
}

/// A well-formed build input: each present tree is a directory of
/// well-formed entries.
pub open spec fn wf_input(b: BuildInput) -> bool {
    &&& b.pages is Dir
    &&& wf_entry(b.pages)
    &&& match b.templates {
        Option::Some(t) => t is Dir && wf_entry(t),
        Option::None => true,
    }
    &&& match b.scripts {
        Option::Some(s) => s is Dir && wf_entry(s),
        Option::None => true,
    }
    &&& match b.assets {
        Option::Some(a) => a is Dir && wf_entry(a),
        Option::None => true,
    }
}

/// The templates the build registers: those of the template directory,
/// when it is present.
pub open spec fn build_templates_spec(b: BuildInput) -> Map<Seq<char>, Seq<char>> {
    match b.templates {
        Option::Some(t) => register_templates_spec(no_sources(), dir_entries(t)),
        Option::None => no_sources(),
    }
}

/// The script helpers the build registers: those of the script directory,
/// when it is present.
pub open spec fn build_scripts_spec(b: BuildInput) -> Map<Seq<char>, Seq<char>> {
    match b.scripts {
        Option::Some(s) => register_helpers_spec(no_sources(), dir_entries(s)),
        Option::None => no_sources(),
    }
}

/// The files the asset pass writes, in order.
pub open spec fn build_asset_writes_spec(b: BuildInput) -> Seq<OutputFileV> {
    match b.assets {
        Option::Some(a) => asset_writes_list(Seq::empty(), dir_entries(a)),
        Option::None => Seq::empty(),
    }
}

/// Every file a build without script helpers writes, in order: the
/// mirrored assets first, then the rendered pages.
pub open spec fn build_writes_spec(b: BuildInput) -> Seq<OutputFileV> {
    build_asset_writes_spec(b) + page_writes_list(
        build_templates_spec(b),
        collections_spec(b.pages),
        Seq::empty(),
        dir_entries(b.pages),
    )
}

/// What the build reports before any page is rendered, in order: template
/// loading, helper loading, then the asset pass.
pub open spec fn build_preamble_report_spec(b: BuildInput) -> Seq<BuildLogV> {
    let template_report = match b.templates {
        Option::Some(t) => template_report_spec(dir_entries(t)),
        Option::None => Seq::empty(),
    };
    let helper_report = match b.scripts {
        Option::Some(s) => helper_report_spec(dir_entries(s)),
        Option::None => Seq::empty(),
    };
    let asset_report = match b.assets {
        Option::Some(a) => asset_report_list(Seq::empty(), dir_entries(a)),
        Option::None => Seq::empty(),
    };
    template_report + helper_report + asset_report
}

/// Everything a build without script helpers reports, in order: the
/// preamble, then the page pass.
pub open spec fn build_report_spec(b: BuildInput) -> Seq<BuildLogV> {
    build_preamble_report_spec(b) + page_failures_list(
        build_templates_spec(b),
        collections_spec(b.pages),
        Seq::empty(),
        dir_entries(b.pages),
    )
}

/// Runs one build over in-memory trees: templates and helpers are loaded
/// best-effort, the collection index is built once from the content root,
/// the assets are mirrored, and every page is rendered with the shared
/// index in context. The writes and the report come back in order; no
/// single file's failure aborts the build. Loading, indexing and the asset
/// pass are pinned exactly; so is the page pass when the build registered
/// no script helper, while a registered script may read the clock or the
/// filesystem during rendering, which no contract can fix.
pub fn build(input: &BuildInput) -> (out: BuildOutput)
    requires
        wf_input(*input),
    ensures
        build_asset_writes_spec(*input).is_prefix_of(outputs_view(out.writes@)),
        build_preamble_report_spec(*input).is_prefix_of(report_view(out.report@)),
        forall|rel: Seq<char>| #[trigger] unknown_layout_in_list(
            build_templates_spec(*input),
            Seq::empty(),
            dir_entries(input.pages),
            rel,
        ) ==> report_view(out.report@).contains((BuildLogV::RenderFailed { path: rel })),
        forall|k: int|
            build_asset_writes_spec(*input).len() <= k < outputs_view(out.writes@).len()
                ==> write_from_list(
                build_templates_spec(*input),
                Seq::empty(),
                dir_entries(input.pages),
                #[trigger] outputs_view(out.writes@)[k],
            ),
        build_scripts_spec(*input) == no_sources() ==> outputs_view(out.writes@)
            == build_writes_spec(*input),
        build_scripts_spec(*input) == no_sources() ==> report_view(out.report@)
            == build_report_spec(*input),
{
    let mut reg = new_registry();
    let mut writes: Vec<OutputFile> = Vec::new();
    let mut report: Vec<BuildLogEntry> = Vec::new();
    proof {
        reveal_strlit("");
        assert(""@ =~= Seq::<char>::empty());
        assert(outputs_view(writes@) =~= Seq::<OutputFileV>::empty());
        assert(report_view(report@) =~= Seq::<BuildLogV>::empty());
    }
    match &input.templates {
        Some(t) => register_templates(&mut reg, t, &mut report),
        None => {},
    }
    proof {
        assert(templates_of(reg) == build_templates_spec(*input));
        assert(scripts_of(reg) == no_sources());
    }
    match &input.scripts {
        Some(s) => register_helpers(&mut reg, s, &mut report),
        None => {},
    }
    proof {
        assert(templates_of(reg) == build_templates_spec(*input));
        assert(scripts_of(reg) == build_scripts_spec(*input));
    }
    let collections = get_collections(&input.pages);
    match &input.assets {
        Some(a) => copy_assets(a, "", &mut writes, &mut report),
        None => {},
    }
    proof {
        assert(outputs_view(writes@) =~= build_asset_writes_spec(*input));
        assert(report_view(report@) =~= build_preamble_report_spec(*input));
    }
    render_pages(&reg, &input.pages, "", &collections, &mut writes, &mut report);
    proof {
        if build_scripts_spec(*input) == no_sources() {
            assert(outputs_view(writes@) =~= build_writes_spec(*input));
            assert(report_view(report@) =~= build_report_spec(*input));
        }
    }
    BuildOutput { writes, report }
}

/// Whether two build inputs read the same trees: what two scans of an
/// unchanged input, listed in the same deterministic order, give.
pub open spec fn same_input(a: BuildInput, b: BuildInput) -> bool {
    &&& same_tree(a.pages, b.pages)
    &&& match (a.templates, b.templates) {
        (Option::Some(t1), Option::Some(t2)) => same_tree(t1, t2),
        (Option::None, Option::None) => true,
        _ => false,
    }
    &&& match (a.scripts, b.scripts) {
        (Option::Some(s1), Option::Some(s2)) => same_tree(s1, s2),
        (Option::None, Option::None) => true,
        _ => false,
    }
    &&& match (a.assets, b.assets) {
        (Option::Some(x1), Option::Some(x2)) => same_tree(x1, x2),
        (Option::None, Option::None) => true,
        _ => false,
    }
}

/// A build that registers no script helper is a function of the input
/// trees alone: two such builds over an unchanged input, read in the same
/// deterministic order, write a byte-identical output tree and give the
/// same report. The restriction is the truth of the system, not a proof
/// convenience: a registered script may read the clock or the filesystem
/// while rendering, so with one present byte-identical rebuilds are
/// genuinely not guaranteed.
pub proof fn lemma_build_idempotent(a: BuildInput, b: BuildInput)
    requires
        wf_input(a),
        same_input(a, b),
        build_scripts_spec(a) == no_sources(),
    ensures
        build_scripts_spec(b) == no_sources(),
        build_writes_spec(a) == build_writes_spec(b),
        build_report_spec(a) == build_report_spec(b),
{
    lemma_same_tree_parts(a.pages, b.pages);
    lemma_collections_congr(a.pages, b.pages);
    match (a.templates, b.templates) {
        (Option::Some(t1), Option::Some(t2)) => {
            lemma_same_tree_parts(t1, t2);
            lemma_register_templates_congr(no_sources(), dir_entries(t1), dir_entries(t2));
        },
        _ => {},
    }
    match (a.scripts, b.scripts) {
        (Option::Some(s1), Option::Some(s2)) => {
            lemma_same_tree_parts(s1, s2);
            lemma_register_helpers_congr(no_sources(), dir_entries(s1), dir_entries(s2));
        },
        _ => {},
    }
    match (a.assets, b.assets) {
        (Option::Some(x1), Option::Some(x2)) => {
            lemma_same_tree_parts(x1, x2);
            lemma_asset_walk_congr_list(Seq::empty(), dir_entries(x1), dir_entries(x2));
        },
        _ => {},
    }
    lemma_page_walk_congr_list(
        build_templates_spec(a),
        collections_spec(a.pages),
        Seq::empty(),
        dir_entries(a.pages),
        dir_entries(b.pages),
    );
}

} // verus!
