//! The template registry: named templates and named script helpers loaded
//! into the render engine, and rendering through it.
//!
//! The contracts here speak of registries as [`new_registry`] builds them,
//! with the engine's default settings (strict mode and development mode
//! off, the stock escape function); a registry configured elsewhere — in
//! particular with development mode reloading templates from disk — is
//! outside them. Rendering may also fail to return at all: the engine
//! guards a template against including itself directly, but two templates
//! that include each other recurse without bound, and no clause here
//! claims anything of a call that does not return.

use vstd::prelude::*;
use crate::json_value::{json_of, JsonV};
use crate::path_extension::{extension_spec, file_stem_spec, file_stem, has_extension};
use crate::report::{BuildLogEntry, BuildLogV, report_view};
use crate::text::view_opt;
use crate::tree::{Entry, wf_entry, dir_entries, same_trees, lemma_same_tree_parts,
    lemma_same_trees_drop_first};

verus! {

#[verifier::external_type_specification]
#[verifier::external_body]
pub struct ExHandlebars<'reg>(handlebars::Handlebars<'reg>);

/// The templates a registry holds, each name mapped to the template source
/// it was registered from.
pub uninterp spec fn templates_of(r: handlebars::Handlebars<'static>) -> Map<Seq<char>, Seq<char>>;

/// The script helpers a registry holds, each name mapped to the script
/// source it was registered from.
pub uninterp spec fn scripts_of(r: handlebars::Handlebars<'static>) -> Map<Seq<char>, Seq<char>>;

/// Whether a template source compiles; a function of the source alone.
pub uninterp spec fn template_compiles(tpl: Seq<char>) -> bool;

/// Whether a helper script compiles; a function of the source alone.
pub uninterp spec fn script_compiles(script: Seq<char>) -> bool;

/// What rendering through a registry without script helpers yields: a
/// function of the registry's templates, the requested template name and
/// the context data; and nothing at all when the name is unknown or
/// evaluation fails. No such function exists once a script helper is
/// registered: a script runs on an engine that offers it the clock and
/// file imports, so its output need not be determined by the registry's
/// contents at all.
pub uninterp spec fn render_of(
    templates: Map<Seq<char>, Seq<char>>,
    name: Seq<char>,
    data: JsonV,
) -> Option<Seq<char>>;

/// A source map with nothing registered.
pub open spec fn no_sources() -> Map<Seq<char>, Seq<char>> {
    Map::empty()
}

/// Relies on handlebars::Handlebars::new: a fresh registry has no
/// templates and no script helpers registered.
#[verifier::external_body]
pub fn new_registry() -> (r: handlebars::Handlebars<'static>)
    ensures
        templates_of(r) == no_sources(),
        scripts_of(r) == no_sources(),
{
    handlebars::Handlebars::new()
}

/// Relies on handlebars::Handlebars::register_template_string: whether the
/// template compiles is a function of its source alone; on success it is
/// added under the name, replacing any template already there, and nothing
/// else changes; on a compile error the registry is left unchanged.
#[verifier::external_body]
fn register_template_source(
    r: &mut handlebars::Handlebars<'static>,
    name: &str,
    tpl: &str,
) -> (ok: bool)
    ensures
        ok == template_compiles(tpl@),
        ok ==> templates_of(*final(r)) == templates_of(*old(r)).insert(name@, tpl@)
            && scripts_of(*final(r)) == scripts_of(*old(r)),
        !ok ==> templates_of(*final(r)) == templates_of(*old(r)) && scripts_of(*final(r))
            == scripts_of(*old(r)),
{
    r.register_template_string(name, tpl).is_ok()
}

/// Relies on handlebars::Handlebars::register_script_helper: whether the
/// script compiles is a function of its source alone; on success it is
/// added under the name, replacing any script helper already there, and
/// nothing else changes; on a compile error the registry is left unchanged.
#[verifier::external_body]
fn register_script_source(
    r: &mut handlebars::Handlebars<'static>,
    name: &str,
    script: &str,
) -> (ok: bool)
    ensures
        ok == script_compiles(script@),
        ok ==> scripts_of(*final(r)) == scripts_of(*old(r)).insert(name@, script@)
            && templates_of(*final(r)) == templates_of(*old(r)),
        !ok ==> templates_of(*final(r)) == templates_of(*old(r)) && scripts_of(*final(r))
            == scripts_of(*old(r)),
{
    r.register_script_helper(name, script).is_ok()
}

/// Relies on handlebars::Handlebars::render: a name with no registered
/// template always fails, and on a registry without script helpers the
/// result is a function of the templates, the name and the context data.
/// With a script helper registered nothing more is promised: the script
/// may consult the clock or the filesystem, so two renders over equal
/// contents can differ.
#[verifier::external_body]
fn render_value(
    r: &handlebars::Handlebars<'static>,
    name: &str,
    data: &serde_json::Value,
) -> (out: Option<String>)
    ensures
        !templates_of(*r).dom().contains(name@) ==> out is None,
        scripts_of(*r) == no_sources() ==> view_opt(out) == render_of(
            templates_of(*r),
            name@,
            json_of(*data),
        ),
{
    r.render(name, data).ok()
}

/// The registration name of a template or script file: its stem.
pub open spec fn registered_name(name: Seq<char>) -> Seq<char> {
    file_stem_spec(name).unwrap()
}

/// The templates map after one directory entry is offered to the registry
/// holding `t`: a template file that compiles is added under its stem;
/// anything else changes nothing.
pub open spec fn register_one_template_spec(
    t: Map<Seq<char>, Seq<char>>,
    e: Entry<String>,
) -> Map<Seq<char>, Seq<char>> {
    match e {
        Entry::File { name, content } => if extension_spec(name@) == Option::Some("hbs"@)
            && template_compiles(content@) {
            t.insert(registered_name(name@), content@)
        } else {
            t
        },
        Entry::Dir { .. } => t,
    }
}

/// The templates map after every entry is offered in order, starting from
/// `t`.
pub open spec fn register_templates_spec(
    t: Map<Seq<char>, Seq<char>>,
    entries: Seq<Entry<String>>,
) -> Map<Seq<char>, Seq<char>>
    decreases entries.len(),
{
    if entries.len() == 0 {
        t
    } else {
        register_templates_spec(register_one_template_spec(t, entries[0]), entries.drop_first())
    }
}

/// What loading one directory entry as a template reports: nothing on
/// success, a rejection for a template that does not compile, and an
/// ignored file for anything that is not a template file.
pub open spec fn template_report_one(e: Entry<String>) -> Seq<BuildLogV> {
    match e {
        Entry::File { name, content } => if extension_spec(name@) == Option::Some("hbs"@) {
            if template_compiles(content@) {
                Seq::empty()
            } else {
                seq![BuildLogV::TemplateRejected { name: registered_name(name@) }]
            }
        } else {
            seq![BuildLogV::FileIgnored { name: name@ }]
        },
        Entry::Dir { name, .. } => seq![BuildLogV::FileIgnored { name: name@ }],
    }
}

/// What loading every entry as a template reports, in order.
pub open spec fn template_report_spec(entries: Seq<Entry<String>>) -> Seq<BuildLogV>
    decreases entries.len(),
{
    if entries.len() == 0 {
        Seq::empty()
    } else {
        template_report_one(entries[0]) + template_report_spec(entries.drop_first())
    }
}

/// Loads every template file of a flat directory into the registry: each
/// file with the template extension is registered under its stem; a file
/// that fails to compile is reported and skipped, a file of another kind
/// or a nested directory is reported as ignored; no failure stops the scan.
pub fn register_templates(
    reg: &mut handlebars::Handlebars<'static>,
    dir: &Entry<String>,
    report: &mut Vec<BuildLogEntry>,
)
    requires
        dir is Dir,
        wf_entry(*dir),
    ensures
        templates_of(*final(reg)) == register_templates_spec(
            templates_of(*old(reg)),
            dir_entries(*dir),
        ),
        scripts_of(*final(reg)) == scripts_of(*old(reg)),
        report_view(final(report)@) == report_view(old(report)@) + template_report_spec(
            dir_entries(*dir),
        ),
{
    match dir {
        Entry::Dir { entries, .. } => {
            let n = entries.len();
            let mut i: usize = 0;
            proof {
                assert(entries@.skip(0) =~= entries@);
                assert(report_view(report@) + template_report_spec(entries@) =~= report_view(
                    old(report)@,
                ) + template_report_spec(entries@));
            }
            while i < n
                invariant
                    n == entries@.len(),
                    0 <= i <= n,
                    forall|j: int| 0 <= j < n ==> wf_entry(#[trigger] entries@[j]),
                    scripts_of(*reg) == scripts_of(*old(reg)),
                    register_templates_spec(templates_of(*old(reg)), entries@)
                        == register_templates_spec(templates_of(*reg), entries@.skip(i as int)),
                    report_view(old(report)@) + template_report_spec(entries@) =~= report_view(
                        report@,
                    ) + template_report_spec(entries@.skip(i as int)),
                decreases n - i,
            {
                proof {
                    assert(entries@.skip(i as int).drop_first() =~= entries@.skip(i + 1));
                    assert(entries@.skip(i as int)[0] == entries@[i as int]);
                }
                match &entries[i] {
                    Entry::File { name, content } => {
                        if has_extension(name.as_str(), "hbs") {
                            let stem = match file_stem(name.as_str()) {
                                Some(s) => s,
                                None => unreached(),
                            };
                            let ok = register_template_source(
                                reg,
                                stem.as_str(),
                                content.as_str(),
                            );
                            if !ok {
                                let ghost old_report = report@;
                                report.push(BuildLogEntry::TemplateRejected { name: stem });
                                proof {
                                    lemma_report_push(old_report, report@);
                                }
                            }
                        } else {
                            let ghost old_report = report@;
                            report.push(BuildLogEntry::FileIgnored { name: name.clone() });
                            proof {
                                lemma_report_push(old_report, report@);
                            }
                        }
                    },
                    Entry::Dir { name, .. } => {
                        let ghost old_report = report@;
                        report.push(BuildLogEntry::FileIgnored { name: name.clone() });
                        proof {
                            lemma_report_push(old_report, report@);
                        }
                    },
                }
                proof {
                    assert(report_view(old(report)@) + template_report_spec(entries@)
                        =~= report_view(report@) + template_report_spec(entries@.skip(i + 1)));
                }
                i += 1;
            }
            proof {
                assert(entries@.skip(n as int) =~= Seq::<Entry<String>>::empty());
                assert(report_view(final(report)@) =~= report_view(old(report)@)
                    + template_report_spec(entries@));
            }
        },
        Entry::File { .. } => {
            proof {
                assert(false);
            }
        },
    }
}

/// The script-helper map after one directory entry is offered to the
/// registry holding `s`: a script file that compiles is added under its
/// stem; anything else changes nothing.
pub open spec fn register_one_script_spec(
    s: Map<Seq<char>, Seq<char>>,
    e: Entry<String>,
) -> Map<Seq<char>, Seq<char>> {
    match e {
        Entry::File { name, content } => if extension_spec(name@) == Option::Some("rhai"@)
            && script_compiles(content@) {
            s.insert(registered_name(name@), content@)
        } else {
            s
        },
        Entry::Dir { .. } => s,
    }
}

/// The script-helper map after every entry is offered in order, starting
/// from `s`.
pub open spec fn register_helpers_spec(
    s: Map<Seq<char>, Seq<char>>,
    entries: Seq<Entry<String>>,
) -> Map<Seq<char>, Seq<char>>
    decreases entries.len(),
{
    if entries.len() == 0 {
        s
    } else {
        register_helpers_spec(register_one_script_spec(s, entries[0]), entries.drop_first())
    }
}

/// What loading one directory entry as a script helper reports.
pub open spec fn helper_report_one(e: Entry<String>) -> Seq<BuildLogV> {
    match e {
        Entry::File { name, content } => if extension_spec(name@) == Option::Some("rhai"@) {
            if script_compiles(content@) {
                Seq::empty()
            } else {
                seq![BuildLogV::HelperRejected { name: registered_name(name@) }]
            }
        } else {
            seq![BuildLogV::FileIgnored { name: name@ }]
        },
        Entry::Dir { name, .. } => seq![BuildLogV::FileIgnored { name: name@ }],
    }
}

/// What loading every entry as a script helper reports, in order.
pub open spec fn helper_report_spec(entries: Seq<Entry<String>>) -> Seq<BuildLogV>
    decreases entries.len(),
{
    if entries.len() == 0 {
        Seq::empty()
    } else {
        helper_report_one(entries[0]) + helper_report_spec(entries.drop_first())
    }
}

/// Loads every helper script of a flat directory into the registry: each
/// file with the script extension is registered under its stem; a script
/// that fails to compile is reported and skipped, anything else is
/// reported as ignored; no failure stops the scan.
pub fn register_helpers(
    reg: &mut handlebars::Handlebars<'static>,
    dir: &Entry<String>,
    report: &mut Vec<BuildLogEntry>,
)
    requires
        dir is Dir,
        wf_entry(*dir),
    ensures
        scripts_of(*final(reg)) == register_helpers_spec(
            scripts_of(*old(reg)),
            dir_entries(*dir),
        ),
        templates_of(*final(reg)) == templates_of(*old(reg)),
        report_view(final(report)@) == report_view(old(report)@) + helper_report_spec(
            dir_entries(*dir),
        ),
{
    match dir {
        Entry::Dir { entries, .. } => {
            let n = entries.len();
            let mut i: usize = 0;
            proof {
                assert(entries@.skip(0) =~= entries@);
                assert(report_view(report@) + helper_report_spec(entries@) =~= report_view(
                    old(report)@,
                ) + helper_report_spec(entries@));
            }
            while i < n
                invariant
                    n == entries@.len(),
                    0 <= i <= n,
                    forall|j: int| 0 <= j < n ==> wf_entry(#[trigger] entries@[j]),
                    templates_of(*reg) == templates_of(*old(reg)),
                    register_helpers_spec(scripts_of(*old(reg)), entries@)
                        == register_helpers_spec(scripts_of(*reg), entries@.skip(i as int)),
                    report_view(old(report)@) + helper_report_spec(entries@) =~= report_view(
                        report@,
                    ) + helper_report_spec(entries@.skip(i as int)),
                decreases n - i,
            {
                proof {
                    assert(entries@.skip(i as int).drop_first() =~= entries@.skip(i + 1));
                    assert(entries@.skip(i as int)[0] == entries@[i as int]);
                }
                match &entries[i] {
                    Entry::File { name, content } => {
                        if has_extension(name.as_str(), "rhai") {
                            let stem = match file_stem(name.as_str()) {
                                Some(s) => s,
                                None => unreached(),
                            };
                            let ok = register_script_source(reg, stem.as_str(), content.as_str());
                            if !ok {
                                let ghost old_report = report@;
                                report.push(BuildLogEntry::HelperRejected { name: stem });
                                proof {
                                    lemma_report_push(old_report, report@);
                                }
                            }
                        } else {
                            let ghost old_report = report@;
                            report.push(BuildLogEntry::FileIgnored { name: name.clone() });
                            proof {
                                lemma_report_push(old_report, report@);
                            }
                        }
                    },
                    Entry::Dir { name, .. } => {
                        let ghost old_report = report@;
                        report.push(BuildLogEntry::FileIgnored { name: name.clone() });
                        proof {
                            lemma_report_push(old_report, report@);
                        }
                    },
                }
                proof {
                    assert(report_view(old(report)@) + helper_report_spec(entries@)
                        =~= report_view(report@) + helper_report_spec(entries@.skip(i + 1)));
                }
                i += 1;
            }
            proof {
                assert(entries@.skip(n as int) =~= Seq::<Entry<String>>::empty());
                assert(report_view(final(report)@) =~= report_view(old(report)@)
                    + helper_report_spec(entries@));
            }
        },
        Entry::File { .. } => {
            proof {
                assert(false);
            }
        },
    }
}

/// Renders one page through its layout template, or reports that it
/// cannot be: a layout with no registered template always fails, and on a
/// registry without script helpers the outcome is a function of the
/// templates, the layout name and the context.
pub fn render_with_layout(
    reg: &handlebars::Handlebars<'static>,
    layout: &str,
    data: &serde_json::Value,
) -> (out: Option<String>)
    ensures
        !templates_of(*reg).dom().contains(layout@) ==> out is None,
        scripts_of(*reg) == no_sources() ==> view_opt(out) == render_of(
            templates_of(*reg),
            layout@,
            json_of(*data),
        ),
{
    render_value(reg, layout, data)
}

/// The same template files register the same templates.
pub(crate) proof fn lemma_register_templates_congr(
    t: Map<Seq<char>, Seq<char>>,
    a: Seq<Entry<String>>,
    b: Seq<Entry<String>>,
)
    requires
        same_trees(a, b),
    ensures
        register_templates_spec(t, a) == register_templates_spec(t, b),
        template_report_spec(a) == template_report_spec(b),
    decreases a.len(),
{
    if a.len() > 0 {
        lemma_same_trees_drop_first(a, b);
        lemma_same_tree_parts(a[0], b[0]);
        lemma_register_templates_congr(
            register_one_template_spec(t, a[0]),
            a.drop_first(),
            b.drop_first(),
        );
    }
}

/// The same script files register the same helpers.
pub(crate) proof fn lemma_register_helpers_congr(
    s: Map<Seq<char>, Seq<char>>,
    a: Seq<Entry<String>>,
    b: Seq<Entry<String>>,
)
    requires
        same_trees(a, b),
    ensures
        register_helpers_spec(s, a) == register_helpers_spec(s, b),
        helper_report_spec(a) == helper_report_spec(b),
    decreases a.len(),
{
    if a.len() > 0 {
        lemma_same_trees_drop_first(a, b);
        lemma_same_tree_parts(a[0], b[0]);
        lemma_register_helpers_congr(
            register_one_script_spec(s, a[0]),
            a.drop_first(),
            b.drop_first(),
        );
    }
}

proof fn lemma_report_push(before: Seq<BuildLogEntry>, after: Seq<BuildLogEntry>)
    requires
        after == before.push(after.last()),
        after.len() == before.len() + 1,
    ensures
        report_view(after) =~= report_view(before) + seq![after.last()@],
{
    before.lemma_push_map_commute(|e: BuildLogEntry| e@, after.last());
}

} // verus!
