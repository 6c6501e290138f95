//! The asset pipeline: a depth-first mirror of the asset tree into the
//! output tree. Stylesheets are minified (a preprocessed stylesheet is
//! compiled to CSS first, and its destination extension becomes `css`),
//! anything else is copied byte for byte; a minified stylesheet that comes
//! out empty is silently dropped. One asset's failure never stops the walk.

use vstd::prelude::*;
use vstd::utf8::{valid_utf8, decode_utf8};
use crate::minifier::{minified_of, minify_css};
use crate::output::{OutputFile, OutputFileV, outputs_view};
use crate::path_extension::{extension_spec, with_extension_spec, get_extension, with_extension,
    join_under, join_path, lemma_join_under_file_name};
use crate::report::{BuildLogEntry, BuildLogV, report_view};
use crate::text::{view_opt, str_eq};
use crate::tree::{Entry, wf_entry, dir_entries, entry_name, same_tree, same_trees,
    lemma_same_tree_parts, lemma_same_trees_drop_first};

verus! {

/// What compiling a preprocessed stylesheet yields, when it compiles: a
/// function of the source text and its syntax (block or indented) alone —
/// imports are never resolved here.
pub uninterp spec fn scss_css_of(src: Seq<char>, indented: bool) -> Option<Seq<char>>;

/// Relies on grass::from_string, given an empty filesystem and a silent
/// logger: with no files to import, the result depends on the stylesheet
/// text and the chosen syntax alone.
#[verifier::external_body]
fn compile_scss(src: &str, indented: bool) -> (r: Option<String>)
    ensures
        view_opt(r) == scss_css_of(src@, indented),
{
    let syntax = if indented { grass::InputSyntax::Sass } else { grass::InputSyntax::Scss };
    let options = grass::Options::default().fs(&grass::NullFs).logger(
        &grass::NullLogger,
    ).input_syntax(syntax);
    grass::from_string(src.to_string(), &options).ok()
}

/// Relies on String::from_utf8: it succeeds exactly on valid UTF-8 and
/// decodes it.
#[verifier::external_body]
fn bytes_to_text(b: &Vec<u8>) -> (r: Option<String>)
    ensures
        r is Some <==> valid_utf8(b@),
        r matches Some(s) ==> s@ == decode_utf8(b@),
{
    String::from_utf8(b.clone()).ok()
}

/// The writes one asset file yields, by extension: a stylesheet is decoded,
/// compiled when preprocessed, and minified, and is dropped entirely when
/// the minified text is empty; anything else — another extension or none —
/// is copied byte for byte. A file whose text cannot be decoded, or whose
/// stylesheet does not compile, yields nothing.
pub open spec fn asset_writes_file(rel: Seq<char>, content: Seq<u8>) -> Seq<OutputFileV> {
    let e = extension_spec(rel);
    if e == Option::Some("css"@) {
        if !valid_utf8(content) {
            Seq::empty()
        } else {
            let m = minified_of(decode_utf8(content));
            if m.len() == 0 {
                Seq::empty()
            } else {
                seq![OutputFileV::Text { path: rel, data: m }]
            }
        }
    } else if e == Option::Some("scss"@) || e == Option::Some("sass"@) {
        if !valid_utf8(content) {
            Seq::empty()
        } else {
            match scss_css_of(decode_utf8(content), e == Option::Some("sass"@)) {
                Option::Some(css) => {
                    let m = minified_of(css);
                    if m.len() == 0 {
                        Seq::empty()
                    } else {
                        seq![
                            OutputFileV::Text {
                                path: with_extension_spec(rel, "css"@),
                                data: m,
                            },
                        ]
                    }
                },
                Option::None => Seq::empty(),
            }
        }
    } else {
        seq![OutputFileV::Binary { path: rel, data: content }]
    }
}

/// What one asset file reports: an unreadable stylesheet or one that does
/// not compile; an empty minified stylesheet is dropped without a word.
pub open spec fn asset_report_file(rel: Seq<char>, content: Seq<u8>) -> Seq<BuildLogV> {
    let e = extension_spec(rel);
    if e == Option::Some("css"@) {
        if !valid_utf8(content) {
            seq![BuildLogV::AssetUnreadable { path: rel }]
        } else {
            Seq::empty()
        }
    } else if e == Option::Some("scss"@) || e == Option::Some("sass"@) {
        if !valid_utf8(content) {
            seq![BuildLogV::AssetUnreadable { path: rel }]
        } else if scss_css_of(decode_utf8(content), e == Option::Some("sass"@)) is None {
            seq![BuildLogV::StylesheetRejected { path: rel }]
        } else {
            Seq::empty()
        }
    } else {
        Seq::empty()
    }
}

/// Handles one asset file of the given extension: the write it yields, if
/// any, and what it reports.
pub fn handle_asset(
    extension: &str,
    rel: &str,
    content: &Vec<u8>,
    writes: &mut Vec<OutputFile>,
    report: &mut Vec<BuildLogEntry>,
)
    requires
        extension_spec(rel@) == Option::Some(extension@),
    ensures
        outputs_view(final(writes)@) == outputs_view(old(writes)@) + asset_writes_file(
            rel@,
            content@,
        ),
        report_view(final(report)@) == report_view(old(report)@) + asset_report_file(
            rel@,
            content@,
        ),
{
    let ghost old_writes = writes@;
    let ghost old_report = report@;
    if str_eq(extension, "css") {
        match bytes_to_text(content) {
            Some(text) => {
                let minified = minify_css(text);
                if minified.as_str().unicode_len() != 0 {
                    writes.push(OutputFile::Text { path: rel.to_owned(), data: minified });
                    proof {
                        old_writes.lemma_push_map_commute(|o: OutputFile| o@, writes@.last());
                    }
                }
            },
            None => {
                report.push(BuildLogEntry::AssetUnreadable { path: rel.to_owned() });
                proof {
                    old_report.lemma_push_map_commute(|e: BuildLogEntry| e@, report@.last());
                }
            },
        }
    } else if str_eq(extension, "scss") || str_eq(extension, "sass") {
        let indented = str_eq(extension, "sass");
        match bytes_to_text(content) {
            Some(text) => {
                match compile_scss(text.as_str(), indented) {
                    Some(css) => {
                        let minified = minify_css(css);
                        if minified.as_str().unicode_len() != 0 {
                            let dest = with_extension(rel, "css");
                            writes.push(OutputFile::Text { path: dest, data: minified });
                            proof {
                                old_writes.lemma_push_map_commute(
                                    |o: OutputFile| o@,
                                    writes@.last(),
                                );
                            }
                        }
                    },
                    None => {
                        report.push(BuildLogEntry::StylesheetRejected { path: rel.to_owned() });
                        proof {
                            old_report.lemma_push_map_commute(
                                |e: BuildLogEntry| e@,
                                report@.last(),
                            );
                        }
                    },
                }
            },
            None => {
                report.push(BuildLogEntry::AssetUnreadable { path: rel.to_owned() });
                proof {
                    old_report.lemma_push_map_commute(|e: BuildLogEntry| e@, report@.last());
                }
            },
        }
    } else {
        writes.push(OutputFile::Binary { path: rel.to_owned(), data: content.clone() });
        proof {
            old_writes.lemma_push_map_commute(|o: OutputFile| o@, writes@.last());
        }
    }
    proof {
        assert(outputs_view(writes@) =~= outputs_view(old_writes) + asset_writes_file(
            rel@,
            content@,
        ));
        assert(report_view(report@) =~= report_view(old_report) + asset_report_file(
            rel@,
            content@,
        ));
    }
}

/// The writes one asset tree entry contributes, in depth-first order.
pub open spec fn asset_writes_entry(prefix: Seq<char>, e: Entry<Vec<u8>>) -> Seq<OutputFileV>
    decreases e,
{
    match e {
        Entry::File { name, content } => asset_writes_file(join_under(prefix, name@), content@),
        Entry::Dir { name, entries } => asset_writes_list(join_under(prefix, name@), entries@),
    }
}

/// The writes a list of asset tree entries contributes, in order.
pub open spec fn asset_writes_list(prefix: Seq<char>, es: Seq<Entry<Vec<u8>>>) -> Seq<OutputFileV>
    decreases es,
{
    if es.len() == 0 {
        Seq::empty()
    } else {
        asset_writes_entry(prefix, es[0]) + asset_writes_list(prefix, es.drop_first())
    }
}

/// The failures one asset tree entry contributes, in depth-first order.
pub open spec fn asset_report_entry(prefix: Seq<char>, e: Entry<Vec<u8>>) -> Seq<BuildLogV>
    decreases e,
{
    match e {
        Entry::File { name, content } => asset_report_file(join_under(prefix, name@), content@),
        Entry::Dir { name, entries } => asset_report_list(join_under(prefix, name@), entries@),
    }
}

/// The failures a list of asset tree entries contributes, in order.
pub open spec fn asset_report_list(prefix: Seq<char>, es: Seq<Entry<Vec<u8>>>) -> Seq<BuildLogV>
    decreases es,
{
    if es.len() == 0 {
        Seq::empty()
    } else {
        asset_report_entry(prefix, es[0]) + asset_report_list(prefix, es.drop_first())
    }
}

/// The same asset trees yield the same writes and failures.
pub(crate) proof fn lemma_asset_walk_congr_entry(
    prefix: Seq<char>,
    a: Entry<Vec<u8>>,
    b: Entry<Vec<u8>>,
)
    requires
        same_tree(a, b),
    ensures
        asset_writes_entry(prefix, a) == asset_writes_entry(prefix, b),
        asset_report_entry(prefix, a) == asset_report_entry(prefix, b),
    decreases a,
{
    lemma_same_tree_parts(a, b);
    if a is Dir {
        lemma_asset_walk_congr_list(
            join_under(prefix, entry_name(a)),
            dir_entries(a),
            dir_entries(b),
        );
    }
}

pub(crate) proof fn lemma_asset_walk_congr_list(
    prefix: Seq<char>,
    a: Seq<Entry<Vec<u8>>>,
    b: Seq<Entry<Vec<u8>>>,
)
    requires
        same_trees(a, b),
    ensures
        asset_writes_list(prefix, a) == asset_writes_list(prefix, b),
        asset_report_list(prefix, a) == asset_report_list(prefix, b),
    decreases a,
{
    if a.len() > 0 {
        lemma_same_trees_drop_first(a, b);
        lemma_asset_walk_congr_entry(prefix, a[0], b[0]);
        lemma_asset_walk_congr_list(prefix, a.drop_first(), b.drop_first());
    }
}

/// Mirrors the asset tree under `dir` into the output tree, depth-first:
/// each file is handled by its extension, and one without an extension is
/// copied byte for byte; a failed asset is reported and skipped, and the
/// walk continues.
pub fn copy_assets(
    dir: &Entry<Vec<u8>>,
    prefix: &str,
    writes: &mut Vec<OutputFile>,
    report: &mut Vec<BuildLogEntry>,
)
    requires
        dir is Dir,
        wf_entry(*dir),
    ensures
        outputs_view(final(writes)@) == outputs_view(old(writes)@) + asset_writes_list(
            prefix@,
            dir_entries(*dir),
        ),
        report_view(final(report)@) == report_view(old(report)@) + asset_report_list(
            prefix@,
            dir_entries(*dir),
        ),
    decreases *dir,
{
    match dir {
        Entry::Dir { entries, .. } => {
            let n = entries.len();
            let mut i: usize = 0;
            proof {
                assert(entries@.skip(0) =~= entries@);
                assert(outputs_view(old(writes)@) + asset_writes_list(prefix@, entries@)
                    =~= outputs_view(writes@) + asset_writes_list(prefix@, entries@.skip(0)));
                assert(report_view(old(report)@) + asset_report_list(prefix@, entries@)
                    =~= report_view(report@) + asset_report_list(prefix@, entries@.skip(0)));
            }
            while i < n
                invariant
                    n == entries@.len(),
                    0 <= i <= n,
                    dir is Dir,
                    entries@ == dir_entries(*dir),
                    forall|j: int| 0 <= j < n ==> wf_entry(#[trigger] entries@[j]),
                    outputs_view(old(writes)@) + asset_writes_list(prefix@, entries@)
                        =~= outputs_view(writes@) + asset_writes_list(
                        prefix@,
                        entries@.skip(i as int),
                    ),
                    report_view(old(report)@) + asset_report_list(prefix@, entries@)
                        =~= report_view(report@) + asset_report_list(
                        prefix@,
                        entries@.skip(i as int),
                    ),
                decreases n - i,
            {
                proof {
                    assert(entries@.skip(i as int).drop_first() =~= entries@.skip(i + 1));
                    assert(entries@.skip(i as int)[0] == entries@[i as int]);
                }
                match &entries[i] {
                    Entry::File { name, content } => {
                        proof {
                            lemma_join_under_file_name(prefix@, name@);
                        }
                        let rel = join_path(prefix, name.as_str());
                        match get_extension(rel.as_str()) {
                            Some(extension) => {
                                handle_asset(
                                    extension.as_str(),
                                    rel.as_str(),
                                    content,
                                    writes,
                                    report,
                                );
                            },
                            None => {
                                let ghost old_writes = writes@;
                                writes.push(
                                    OutputFile::Binary { path: rel, data: content.clone() },
                                );
                                proof {
                                    old_writes.lemma_push_map_commute(
                                        |o: OutputFile| o@,
                                        writes@.last(),
                                    );
                                    assert(outputs_view(writes@) =~= outputs_view(old_writes)
                                        + asset_writes_file(writes@.last()->Binary_path@, content@));
                                    assert(asset_report_file(writes@.last()->Binary_path@, content@)
                                        =~= Seq::<BuildLogV>::empty());
                                }
                            },
                        }
                        proof {
                            assert(asset_writes_entry(prefix@, entries@[i as int])
                                == asset_writes_file(join_under(prefix@, name@), content@));
                            assert(asset_report_entry(prefix@, entries@[i as int])
                                == asset_report_file(join_under(prefix@, name@), content@));
                        }
                    },
                    Entry::Dir { name, .. } => {
                        proof {
                            assert((*dir)->Dir_entries@ == entries@);
                            assert(decreases_to!(*dir => (*dir)->Dir_entries));
                            assert(decreases_to!((*dir)->Dir_entries => (*dir)->Dir_entries@));
                            assert(decreases_to!((*dir)->Dir_entries@ => (*dir)->Dir_entries@[
                                i as int
                            ]));
                            assert(decreases_to!(*dir => entries@[i as int]));
                        }
                        let sub_prefix = join_path(prefix, name.as_str());
                        copy_assets(&entries[i], sub_prefix.as_str(), writes, report);
                        proof {
                            assert(asset_writes_entry(prefix@, entries@[i as int])
                                == asset_writes_list(
                                join_under(prefix@, name@),
                                dir_entries(entries@[i as int]),
                            ));
                            assert(asset_report_entry(prefix@, entries@[i as int])
                                == asset_report_list(
                                join_under(prefix@, name@),
                                dir_entries(entries@[i as int]),
                            ));
                        }
                    },
                }
                proof {
                    assert(outputs_view(old(writes)@) + asset_writes_list(prefix@, entries@)
                        =~= outputs_view(writes@) + asset_writes_list(
                        prefix@,
                        entries@.skip(i + 1),
                    ));
                    assert(report_view(old(report)@) + asset_report_list(prefix@, entries@)
                        =~= report_view(report@) + asset_report_list(
                        prefix@,
                        entries@.skip(i + 1),
                    ));
                }
                i += 1;
            }
            proof {
                assert(entries@.skip(n as int) =~= Seq::<Entry<Vec<u8>>>::empty());
                assert(outputs_view(final(writes)@) =~= outputs_view(old(writes)@)
                    + asset_writes_list(prefix@, entries@));
                assert(report_view(final(report)@) =~= report_view(old(report)@)
                    + asset_report_list(prefix@, entries@));
            }
        },
        Entry::File { .. } => {
            proof {
                assert(false);
            }
        },
    }
}

} // verus!
