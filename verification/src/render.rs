//! The page pipeline: a depth-first walk of the content tree that parses
//! each file, renders it through its layout template with the shared
//! collection index in context, minifies the result and records the write
//! at the destination its permalink names. One page's failure never stops
//! the walk.

use vstd::prelude::*;
use crate::collections::{Collections, CollectionEntryV};
use crate::front_matter::{parse_page, parse_page_spec};
use crate::json_value::{page_context_json, build_page_context};
use crate::minifier::{minified_of, minify_css};
use crate::output::{OutputFile, OutputFileV, outputs_view};
use crate::path_extension::{with_extension_spec, with_extension, join_under, join_path,
    lemma_join_under_file_name};
use crate::registry::{templates_of, scripts_of, render_of, no_sources, render_with_layout};
use crate::report::{BuildLogEntry, BuildLogV, report_view};
use crate::text::substring;
use crate::tree::{Entry, wf_entry, dir_entries, entry_name, same_tree, same_trees,
    lemma_same_tree_parts, lemma_same_trees_drop_first};

verus! {

/// The destination of a page, relative to the output root: its permalink
/// without the leading `/`, with the extension forced to `.html`. The
/// permalink, not the source path, names the destination.
pub open spec fn destination_spec(permalink: Seq<char>) -> Seq<char> {
    let stripped = if permalink.len() > 0 && permalink[0] == '/' {
        permalink.skip(1)
    } else {
        permalink
    };
    with_extension_spec(stripped, "html"@)
}

/// Computes the destination of a page from its permalink.
pub fn destination_of(permalink: &str) -> (r: String)
    ensures
        r@ == destination_spec(permalink@),
{
    let len = permalink.unicode_len();
    let stripped = if len > 0 && permalink.get_char(0) == '/' {
        substring(permalink, 1, len)
    } else {
        permalink.to_owned()
    };
    with_extension(stripped.as_str(), "html")
}

/// What processing one page yields: the write at its destination, or a
/// failure.
#[verifier::ext_equal]
pub ghost enum PageOutcomeV {
    Written { path: Seq<char>, data: Seq<char> },
    Failed { path: Seq<char> },
}

/// The outcome of one page rendered through a registry without script
/// helpers: its metadata is parsed from the content, the page is rendered
/// through its layout template over the context of its fields and the
/// collection index, and the minified result goes to the destination its
/// permalink names; a layout with no registered template, or a failed
/// evaluation, fails the page.
pub open spec fn page_outcome_spec(
    templates: Map<Seq<char>, Seq<char>>,
    colls: Seq<CollectionEntryV>,
    rel: Seq<char>,
    content: Seq<char>,
) -> PageOutcomeV {
    let fm = parse_page_spec(content, rel);
    if !templates.dom().contains(fm.layout) {
        PageOutcomeV::Failed { path: rel }
    } else {
        match render_of(templates, fm.layout, page_context_json(fm, colls)) {
            Option::Some(html) => PageOutcomeV::Written {
                path: destination_spec(fm.permalink),
                data: minified_of(html),
            },
            Option::None => PageOutcomeV::Failed { path: rel },
        }
    }
}

/// The writes one tree entry contributes, in depth-first order, under a
/// registry without script helpers.
pub open spec fn page_writes_entry(
    templates: Map<Seq<char>, Seq<char>>,
    colls: Seq<CollectionEntryV>,
    prefix: Seq<char>,
    e: Entry<String>,
) -> Seq<OutputFileV>
    decreases e,
{
    match e {
        Entry::File { name, content } => {
            match page_outcome_spec(templates, colls, join_under(prefix, name@), content@) {
                PageOutcomeV::Written { path, data } => seq![OutputFileV::Text { path, data }],
                PageOutcomeV::Failed { .. } => Seq::empty(),
            }
        },
        Entry::Dir { name, entries } => page_writes_list(
            templates,
            colls,
            join_under(prefix, name@),
            entries@,
        ),
    }
}

/// The writes a list of tree entries contributes, in order.
pub open spec fn page_writes_list(
    templates: Map<Seq<char>, Seq<char>>,
    colls: Seq<CollectionEntryV>,
    prefix: Seq<char>,
    es: Seq<Entry<String>>,
) -> Seq<OutputFileV>
    decreases es,
{
    if es.len() == 0 {
        Seq::empty()
    } else {
        page_writes_entry(templates, colls, prefix, es[0]) + page_writes_list(
            templates,
            colls,
            prefix,
            es.drop_first(),
        )
    }
}

/// The failures one tree entry contributes, in depth-first order, under a
/// registry without script helpers.
pub open spec fn page_failures_entry(
    templates: Map<Seq<char>, Seq<char>>,
    colls: Seq<CollectionEntryV>,
    prefix: Seq<char>,
    e: Entry<String>,
) -> Seq<BuildLogV>
    decreases e,
{
    match e {
        Entry::File { name, content } => {
            match page_outcome_spec(templates, colls, join_under(prefix, name@), content@) {
                PageOutcomeV::Written { .. } => Seq::empty(),
                PageOutcomeV::Failed { path } => seq![BuildLogV::RenderFailed { path }],
            }
        },
        Entry::Dir { name, entries } => page_failures_list(
            templates,
            colls,
            join_under(prefix, name@),
            entries@,
        ),
    }
}

/// The failures a list of tree entries contributes, in order.
pub open spec fn page_failures_list(
    templates: Map<Seq<char>, Seq<char>>,
    colls: Seq<CollectionEntryV>,
    prefix: Seq<char>,
    es: Seq<Entry<String>>,
) -> Seq<BuildLogV>
    decreases es,
{
    if es.len() == 0 {
        Seq::empty()
    } else {
        page_failures_entry(templates, colls, prefix, es[0]) + page_failures_list(
            templates,
            colls,
            prefix,
            es.drop_first(),
        )
    }
}

/// Whether `rel` is the root-relative path of a file under `e` (reached
/// from `prefix`) whose parsed layout names no registered template.
pub open spec fn unknown_layout_in_entry(
    templates: Map<Seq<char>, Seq<char>>,
    prefix: Seq<char>,
    e: Entry<String>,
    rel: Seq<char>,
) -> bool
    decreases e,
{
    match e {
        Entry::File { name, content } => join_under(prefix, name@) == rel
            && !templates.dom().contains(parse_page_spec(content@, rel).layout),
        Entry::Dir { name, entries } => unknown_layout_in_list(
            templates,
            join_under(prefix, name@),
            entries@,
            rel,
        ),
    }
}

/// Whether `rel` is such a path for a file under one of `es`.
pub open spec fn unknown_layout_in_list(
    templates: Map<Seq<char>, Seq<char>>,
    prefix: Seq<char>,
    es: Seq<Entry<String>>,
    rel: Seq<char>,
) -> bool
    decreases es,
{
    exists|i: int|
        0 <= i < es.len() && unknown_layout_in_entry(templates, prefix, #[trigger] es[i], rel)
}

/// Whether `w` is a write some page under `e` (reached from `prefix`)
/// could contribute: a text file at the permalink-derived destination of a
/// file whose layout is registered.
pub open spec fn write_from_entry(
    templates: Map<Seq<char>, Seq<char>>,
    prefix: Seq<char>,
    e: Entry<String>,
    w: OutputFileV,
) -> bool
    decreases e,
{
    match e {
        Entry::File { name, content } => {
            let fm = parse_page_spec(content@, join_under(prefix, name@));
            &&& templates.dom().contains(fm.layout)
            &&& w is Text
            &&& w->Text_path == destination_spec(fm.permalink)
        },
        Entry::Dir { name, entries } => write_from_list(
            templates,
            join_under(prefix, name@),
            entries@,
            w,
        ),
    }
}

/// Whether `w` is a write some page under one of `es` could contribute.
pub open spec fn write_from_list(
    templates: Map<Seq<char>, Seq<char>>,
    prefix: Seq<char>,
    es: Seq<Entry<String>>,
    w: OutputFileV,
) -> bool
    decreases es,
{
    exists|i: int| 0 <= i < es.len() && write_from_entry(templates, prefix, #[trigger] es[i], w)
}

proof fn lemma_unknown_take_step(
    templates: Map<Seq<char>, Seq<char>>,
    prefix: Seq<char>,
    es: Seq<Entry<String>>,
    i: int,
    rel: Seq<char>,
)
    requires
        0 <= i < es.len(),
    ensures
        unknown_layout_in_list(templates, prefix, es.take(i + 1), rel) <==> (
        unknown_layout_in_list(templates, prefix, es.take(i), rel) || unknown_layout_in_entry(
            templates,
            prefix,
            es[i],
            rel,
        )),
{
    let t1 = es.take(i + 1);
    let t0 = es.take(i);
    if unknown_layout_in_list(templates, prefix, t1, rel) {
        let j = choose|j: int|
            0 <= j < t1.len() && unknown_layout_in_entry(templates, prefix, #[trigger] t1[j], rel);
        assert(t1[j] == es[j]);
        if j < i {
            assert(t0[j] == es[j]);
            assert(unknown_layout_in_entry(templates, prefix, t0[j], rel));
        }
    }
    if unknown_layout_in_list(templates, prefix, t0, rel) {
        let j = choose|j: int|
            0 <= j < t0.len() && unknown_layout_in_entry(templates, prefix, #[trigger] t0[j], rel);
        assert(t0[j] == es[j]);
        assert(t1[j] == es[j]);
        assert(unknown_layout_in_entry(templates, prefix, t1[j], rel));
    }
    if unknown_layout_in_entry(templates, prefix, es[i], rel) {
        assert(t1[i] == es[i]);
        assert(unknown_layout_in_entry(templates, prefix, t1[i], rel));
    }
}

proof fn lemma_snoc_prefix<A>(a: Seq<A>, b: Seq<A>)
    requires
        b.len() == a.len() + 1,
        b.subrange(0, a.len() as int) == a,
    ensures
        a.is_prefix_of(b),
{
}

proof fn lemma_contains_after_grow<A>(a: Seq<A>, b: Seq<A>, x: A)
    requires
        a.is_prefix_of(b),
        a.contains(x),
    ensures
        b.contains(x),
{
    let i = choose|i: int| 0 <= i < a.len() && a[i] == x;
    assert(b[i] == b.subrange(0, a.len() as int)[i]);
    assert(b[i] == x);
}

/// Walks the content tree under `dir` depth-first and renders every file:
/// each page is parsed, rendered through its layout with the shared
/// collection index, minified and recorded as a write at the destination
/// its permalink names; a page whose layout is unknown or whose rendering
/// fails is reported and skipped, and the walk continues. The walk only
/// ever appends; on a registry without script helpers what it appends is
/// pinned exactly, while a registered script may read the clock or the
/// filesystem, so there no stronger claim is possible.
pub fn render_pages(
    reg: &handlebars::Handlebars<'static>,
    dir: &Entry<String>,
    prefix: &str,
    collections: &Collections,
    writes: &mut Vec<OutputFile>,
    report: &mut Vec<BuildLogEntry>,
)
    requires
        dir is Dir,
        wf_entry(*dir),
    ensures
        outputs_view(old(writes)@).is_prefix_of(outputs_view(final(writes)@)),
        report_view(old(report)@).is_prefix_of(report_view(final(report)@)),
        forall|rel: Seq<char>| #[trigger] unknown_layout_in_list(
            templates_of(*reg),
            prefix@,
            dir_entries(*dir),
            rel,
        ) ==> report_view(final(report)@).contains((BuildLogV::RenderFailed { path: rel })),
        forall|k: int|
            outputs_view(old(writes)@).len() <= k < outputs_view(final(writes)@).len()
                ==> write_from_list(
                templates_of(*reg),
                prefix@,
                dir_entries(*dir),
                #[trigger] outputs_view(final(writes)@)[k],
            ),
        scripts_of(*reg) == no_sources() ==> outputs_view(final(writes)@) == outputs_view(
            old(writes)@,
        ) + page_writes_list(templates_of(*reg), collections@, prefix@, dir_entries(*dir)),
        scripts_of(*reg) == no_sources() ==> report_view(final(report)@) == report_view(
            old(report)@,
        ) + page_failures_list(templates_of(*reg), collections@, prefix@, dir_entries(*dir)),
    decreases *dir,
{
    let ghost templates = templates_of(*reg);
    match dir {
        Entry::Dir { entries, .. } => {
            let n = entries.len();
            let mut i: usize = 0;
            proof {
                assert(entries@.skip(0) =~= entries@);
                assert(outputs_view(writes@).subrange(0, outputs_view(writes@).len() as int)
                    =~= outputs_view(writes@));
                assert(report_view(report@).subrange(0, report_view(report@).len() as int)
                    =~= report_view(report@));
                assert(outputs_view(writes@).is_prefix_of(outputs_view(writes@)));
                assert(report_view(report@).is_prefix_of(report_view(report@)));
                assert(outputs_view(old(writes)@) + page_writes_list(
                    templates,
                    collections@,
                    prefix@,
                    entries@,
                ) =~= outputs_view(writes@) + page_writes_list(
                    templates,
                    collections@,
                    prefix@,
                    entries@.skip(0),
                ));
                assert(report_view(old(report)@) + page_failures_list(
                    templates,
                    collections@,
                    prefix@,
                    entries@,
                ) =~= report_view(report@) + page_failures_list(
                    templates,
                    collections@,
                    prefix@,
                    entries@.skip(0),
                ));
            }
            while i < n
                invariant
                    n == entries@.len(),
                    0 <= i <= n,
                    dir is Dir,
                    entries@ == dir_entries(*dir),
                    forall|j: int| 0 <= j < n ==> wf_entry(#[trigger] entries@[j]),
                    templates == templates_of(*reg),
                    outputs_view(old(writes)@).is_prefix_of(outputs_view(writes@)),
                    report_view(old(report)@).is_prefix_of(report_view(report@)),
                    forall|rel: Seq<char>| #[trigger] unknown_layout_in_list(
                        templates,
                        prefix@,
                        entries@.take(i as int),
                        rel,
                    ) ==> report_view(report@).contains(
                        (BuildLogV::RenderFailed { path: rel }),
                    ),
                    forall|k: int|
                        outputs_view(old(writes)@).len() <= k < outputs_view(writes@).len()
                            ==> write_from_list(
                            templates,
                            prefix@,
                            entries@,
                            #[trigger] outputs_view(writes@)[k],
                        ),
                    scripts_of(*reg) == no_sources() ==> outputs_view(old(writes)@)
                        + page_writes_list(templates, collections@, prefix@, entries@)
                        =~= outputs_view(writes@) + page_writes_list(
                        templates,
                        collections@,
                        prefix@,
                        entries@.skip(i as int),
                    ),
                    scripts_of(*reg) == no_sources() ==> report_view(old(report)@)
                        + page_failures_list(templates, collections@, prefix@, entries@)
                        =~= report_view(report@) + page_failures_list(
                        templates,
                        collections@,
                        prefix@,
                        entries@.skip(i as int),
                    ),
                decreases n - i,
            {
                proof {
                    assert(entries@.skip(i as int).drop_first() =~= entries@.skip(i + 1));
                    assert(entries@.skip(i as int)[0] == entries@[i as int]);
                }
                match &entries[i] {
                    Entry::File { name, content } => {
                        proof {
                            lemma_join_under_file_name(prefix@, name@);
                        }
                        let rel = join_path(prefix, name.as_str());
                        let fm = parse_page(content.as_str(), rel.as_str());
                        let ctx = build_page_context(&fm, collections);
                        let ghost outcome = page_outcome_spec(
                            templates,
                            collections@,
                            rel@,
                            content@,
                        );
                        match render_with_layout(reg, fm.layout.as_str(), &ctx) {
                            Some(html) => {
                                let data = minify_css(html);
                                let dest = destination_of(fm.permalink.as_str());
                                let ghost old_writes = writes@;
                                writes.push(OutputFile::Text { path: dest, data });
                                proof {
                                    old_writes.lemma_push_map_commute(
                                        |o: OutputFile| o@,
                                        writes@.last(),
                                    );
                                    assert(outputs_view(writes@).subrange(
                                        0,
                                        outputs_view(old_writes).len() as int,
                                    ) =~= outputs_view(old_writes));
                                    lemma_prefix_snoc(
                                        outputs_view(old(writes)@),
                                        outputs_view(old_writes),
                                        outputs_view(writes@),
                                    );
                                    if scripts_of(*reg) == no_sources() {
                                        assert(outcome == (PageOutcomeV::Written {
                                            path: destination_spec(fm@.permalink),
                                            data: minified_of(html@),
                                        }));
                                        assert(page_writes_entry(
                                            templates,
                                            collections@,
                                            prefix@,
                                            entries@[i as int],
                                        ) =~= seq![writes@.last()@]);
                                        assert(page_failures_entry(
                                            templates,
                                            collections@,
                                            prefix@,
                                            entries@[i as int],
                                        ) =~= Seq::<BuildLogV>::empty());
                                    }
                                    assert(templates.dom().contains(fm@.layout));
                                    assert(write_from_entry(
                                        templates,
                                        prefix@,
                                        entries@[i as int],
                                        writes@.last()@,
                                    ));
                                    assert forall|k: int|
                                        outputs_view(old(writes)@).len() <= k < outputs_view(
                                            writes@,
                                        ).len() implies write_from_list(
                                        templates,
                                        prefix@,
                                        entries@,
                                        #[trigger] outputs_view(writes@)[k],
                                    ) by {
                                        if k < outputs_view(old_writes).len() {
                                            assert(outputs_view(writes@)[k] == outputs_view(
                                                old_writes,
                                            )[k]);
                                        } else {
                                            assert(outputs_view(writes@)[k] == writes@.last()@);
                                        }
                                    }
                                    assert forall|rel2: Seq<char>| #[trigger] unknown_layout_in_list(
                                        templates,
                                        prefix@,
                                        entries@.take(i + 1),
                                        rel2,
                                    ) implies report_view(report@).contains(
                                        (BuildLogV::RenderFailed { path: rel2 }),
                                    ) by {
                                        lemma_unknown_take_step(
                                            templates,
                                            prefix@,
                                            entries@,
                                            i as int,
                                            rel2,
                                        );
                                    }
                                }
                            },
                            None => {
                                let ghost old_report = report@;
                                report.push(BuildLogEntry::RenderFailed { path: rel });
                                proof {
                                    old_report.lemma_push_map_commute(
                                        |e: BuildLogEntry| e@,
                                        report@.last(),
                                    );
                                    assert(report_view(report@).subrange(
                                        0,
                                        report_view(old_report).len() as int,
                                    ) =~= report_view(old_report));
                                    lemma_prefix_snoc(
                                        report_view(old(report)@),
                                        report_view(old_report),
                                        report_view(report@),
                                    );
                                    if scripts_of(*reg) == no_sources() {
                                        assert(outcome == (PageOutcomeV::Failed { path: rel@ }));
                                        assert(page_writes_entry(
                                            templates,
                                            collections@,
                                            prefix@,
                                            entries@[i as int],
                                        ) =~= Seq::<OutputFileV>::empty());
                                        assert(page_failures_entry(
                                            templates,
                                            collections@,
                                            prefix@,
                                            entries@[i as int],
                                        ) =~= seq![report@.last()@]);
                                    }
                                    lemma_snoc_prefix(
                                        report_view(old_report),
                                        report_view(report@),
                                    );
                                    assert(report_view(report@)[report_view(report@).len() - 1]
                                        == (BuildLogV::RenderFailed { path: rel@ }));
                                    assert forall|rel2: Seq<char>| #[trigger] unknown_layout_in_list(
                                        templates,
                                        prefix@,
                                        entries@.take(i + 1),
                                        rel2,
                                    ) implies report_view(report@).contains(
                                        (BuildLogV::RenderFailed { path: rel2 }),
                                    ) by {
                                        lemma_unknown_take_step(
                                            templates,
                                            prefix@,
                                            entries@,
                                            i as int,
                                            rel2,
                                        );
                                        if unknown_layout_in_list(
                                            templates,
                                            prefix@,
                                            entries@.take(i as int),
                                            rel2,
                                        ) {
                                            lemma_contains_after_grow(
                                                report_view(old_report),
                                                report_view(report@),
                                                (BuildLogV::RenderFailed { path: rel2 }),
                                            );
                                        } else {
                                            assert(rel2 == rel@);
                                        }
                                    }
                                }
                            },
                        }
                    },
                    Entry::Dir { name, .. } => {
                        proof {
                            assert((*dir)->Dir_entries@ == entries@);
                            assert(decreases_to!(*dir => (*dir)->Dir_entries));
                            assert(decreases_to!((*dir)->Dir_entries => (*dir)->Dir_entries@));
                            assert(decreases_to!((*dir)->Dir_entries@ => (*dir)->Dir_entries@[
                                i as int
                            ]));
                            assert(decreases_to!(*dir => entries@[i as int]));
                        }
                        let sub_prefix = join_path(prefix, name.as_str());
                        let ghost writes_before = writes@;
                        let ghost report_before = report@;
                        render_pages(
                            reg,
                            &entries[i],
                            sub_prefix.as_str(),
                            collections,
                            writes,
                            report,
                        );
                        proof {
                            lemma_prefix_trans(
                                outputs_view(old(writes)@),
                                outputs_view(writes_before),
                                outputs_view(writes@),
                            );
                            lemma_prefix_trans(
                                report_view(old(report)@),
                                report_view(report_before),
                                report_view(report@),
                            );
                            if scripts_of(*reg) == no_sources() {
                                assert(page_writes_entry(
                                    templates,
                                    collections@,
                                    prefix@,
                                    entries@[i as int],
                                ) == page_writes_list(
                                    templates,
                                    collections@,
                                    join_under(prefix@, name@),
                                    dir_entries(entries@[i as int]),
                                ));
                                assert(page_failures_entry(
                                    templates,
                                    collections@,
                                    prefix@,
                                    entries@[i as int],
                                ) == page_failures_list(
                                    templates,
                                    collections@,
                                    join_under(prefix@, name@),
                                    dir_entries(entries@[i as int]),
                                ));
                            }
                            assert forall|k: int|
                                outputs_view(old(writes)@).len() <= k < outputs_view(
                                    writes@,
                                ).len() implies write_from_list(
                                templates,
                                prefix@,
                                entries@,
                                #[trigger] outputs_view(writes@)[k],
                            ) by {
                                if k < outputs_view(writes_before).len() {
                                    assert(outputs_view(writes_before) =~= outputs_view(
                                        writes@,
                                    ).subrange(0, outputs_view(writes_before).len() as int));
                                    assert(outputs_view(writes@)[k] == outputs_view(
                                        writes@,
                                    ).subrange(0, outputs_view(writes_before).len() as int)[k]);
                                } else {
                                    assert(write_from_list(
                                        templates,
                                        join_under(prefix@, name@),
                                        dir_entries(entries@[i as int]),
                                        outputs_view(writes@)[k],
                                    ));
                                    assert(write_from_entry(
                                        templates,
                                        prefix@,
                                        entries@[i as int],
                                        outputs_view(writes@)[k],
                                    ));
                                }
                            }
                            assert forall|rel: Seq<char>| #[trigger] unknown_layout_in_list(
                                templates,
                                prefix@,
                                entries@.take(i + 1),
                                rel,
                            ) implies report_view(report@).contains(
                                (BuildLogV::RenderFailed { path: rel }),
                            ) by {
                                lemma_unknown_take_step(templates, prefix@, entries@, i as int, rel);
                                if unknown_layout_in_list(
                                    templates,
                                    prefix@,
                                    entries@.take(i as int),
                                    rel,
                                ) {
                                    lemma_contains_after_grow(
                                        report_view(report_before),
                                        report_view(report@),
                                        (BuildLogV::RenderFailed { path: rel }),
                                    );
                                } else {
                                    assert(unknown_layout_in_list(
                                        templates,
                                        join_under(prefix@, name@),
                                        dir_entries(entries@[i as int]),
                                        rel,
                                    ));
                                }
                            }
                        }
                    },
                }
                proof {
                    if scripts_of(*reg) == no_sources() {
                        assert(outputs_view(old(writes)@) + page_writes_list(
                            templates,
                            collections@,
                            prefix@,
                            entries@,
                        ) =~= outputs_view(writes@) + page_writes_list(
                            templates,
                            collections@,
                            prefix@,
                            entries@.skip(i + 1),
                        ));
                        assert(report_view(old(report)@) + page_failures_list(
                            templates,
                            collections@,
                            prefix@,
                            entries@,
                        ) =~= report_view(report@) + page_failures_list(
                            templates,
                            collections@,
                            prefix@,
                            entries@.skip(i + 1),
                        ));
                    }
                }
                i += 1;
            }
            proof {
                assert(entries@.skip(n as int) =~= Seq::<Entry<String>>::empty());
                assert(entries@.take(n as int) =~= entries@);
                if scripts_of(*reg) == no_sources() {
                    assert(outputs_view(final(writes)@) =~= outputs_view(old(writes)@)
                        + page_writes_list(templates, collections@, prefix@, entries@));
                    assert(report_view(final(report)@) =~= report_view(old(report)@)
                        + page_failures_list(templates, collections@, prefix@, entries@));
                }
            }
        },
        Entry::File { .. } => {
            proof {
                assert(false);
            }
        },
    }
}

proof fn lemma_prefix_snoc<A>(base: Seq<A>, mid: Seq<A>, whole: Seq<A>)
    requires
        base.is_prefix_of(mid),
        mid.len() + 1 == whole.len(),
        whole.subrange(0, mid.len() as int) == mid,
    ensures
        base.is_prefix_of(whole),
{
    assert(whole.subrange(0, base.len() as int) =~= base);
}

proof fn lemma_prefix_trans<A>(a: Seq<A>, b: Seq<A>, c: Seq<A>)
    requires
        a.is_prefix_of(b),
        b.is_prefix_of(c),
    ensures
        a.is_prefix_of(c),
{
    assert(c.subrange(0, a.len() as int) =~= a);
}

/// The same content trees yield the same writes and failures.
pub(crate) proof fn lemma_page_walk_congr_entry(
    templates: Map<Seq<char>, Seq<char>>,
    colls: Seq<CollectionEntryV>,
    prefix: Seq<char>,
    a: Entry<String>,
    b: Entry<String>,
)
    requires
        same_tree(a, b),
    ensures
        page_writes_entry(templates, colls, prefix, a) == page_writes_entry(
            templates,
            colls,
            prefix,
            b,
        ),
        page_failures_entry(templates, colls, prefix, a) == page_failures_entry(
            templates,
            colls,
            prefix,
            b,
        ),
    decreases a,
{
    lemma_same_tree_parts(a, b);
    if a is Dir {
        lemma_page_walk_congr_list(
            templates,
            colls,
            join_under(prefix, entry_name(a)),
            dir_entries(a),
            dir_entries(b),
        );
    }
}

pub(crate) proof fn lemma_page_walk_congr_list(
    templates: Map<Seq<char>, Seq<char>>,
    colls: Seq<CollectionEntryV>,
    prefix: Seq<char>,
    a: Seq<Entry<String>>,
    b: Seq<Entry<String>>,
)
    requires
        same_trees(a, b),
    ensures
        page_writes_list(templates, colls, prefix, a) == page_writes_list(
            templates,
            colls,
            prefix,
            b,
        ),
        page_failures_list(templates, colls, prefix, a) == page_failures_list(
            templates,
            colls,
            prefix,
            b,
        ),
    decreases a,
{
    if a.len() > 0 {
        lemma_same_trees_drop_first(a, b);
        lemma_page_walk_congr_entry(templates, colls, prefix, a[0], b[0]);
        lemma_page_walk_congr_list(templates, colls, prefix, a.drop_first(), b.drop_first());
    }
}

/// A page whose layout names no registered template fails: it is reported
/// and contributes no write, whatever the engine would do; pages are
/// processed independently, so its siblings are unaffected.
pub proof fn lemma_unknown_layout(
    templates: Map<Seq<char>, Seq<char>>,
    colls: Seq<CollectionEntryV>,
    rel: Seq<char>,
    content: Seq<char>,
)
    requires
        !templates.dom().contains(parse_page_spec(content, rel).layout),
    ensures
        page_outcome_spec(templates, colls, rel, content) == (PageOutcomeV::Failed { path: rel }),
{
}

} // verus!
