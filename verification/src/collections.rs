//! Collections: an ordered index of page metadata, with one entry for the
//! content root itself and one per immediate subdirectory, each listing the
//! parsed metadata of that directory's immediate files in listing order.

use vstd::prelude::*;
use crate::front_matter::{FrontMatter, FrontMatterV, parse_page, parse_page_spec};
use crate::path_extension::{join_under, join_path, lemma_join_under_file_name};
use crate::tree::{Entry, wf_entry, entry_name, dir_entries, get_name, same_tree, same_trees,
    lemma_same_tree_parts, lemma_same_trees_drop_first};

verus! {

/// One collection: a directory's name and the metadata of its immediate
/// files.
pub struct CollectionEntry {
    pub name: String,
    pub pages: Vec<FrontMatter>,
}

/// The view of [`CollectionEntry`].
#[verifier::ext_equal]
pub ghost struct CollectionEntryV {
    pub name: Seq<char>,
    pub pages: Seq<FrontMatterV>,
}

impl View for CollectionEntry {
    type V = CollectionEntryV;

    open spec fn view(&self) -> CollectionEntryV {
        CollectionEntryV {
            name: self.name@,
            pages: self.pages@.map_values(|p: FrontMatter| p@),
        }
    }
}

/// The full collection index, in construction order: the root entry first,
/// then one entry per immediate subdirectory.
pub struct Collections {
    pub entries: Vec<CollectionEntry>,
}

impl View for Collections {
    type V = Seq<CollectionEntryV>;

    open spec fn view(&self) -> Seq<CollectionEntryV> {
        self.entries@.map_values(|e: CollectionEntry| e@)
    }
}

/// The metadata of the files among `entries`, each parsed against its path
/// under `prefix`, in order; directories contribute nothing.
pub open spec fn dir_files_spec(entries: Seq<Entry<String>>, prefix: Seq<char>) -> Seq<
    FrontMatterV,
>
    decreases entries.len(),
{
    if entries.len() == 0 {
        Seq::empty()
    } else {
        let rest = dir_files_spec(entries.drop_first(), prefix);
        match entries[0] {
            Entry::File { name, content } => seq![
                parse_page_spec(content@, join_under(prefix, name@)),
            ] + rest,
            Entry::Dir { .. } => rest,
        }
    }
}

/// The collection a directory yields: its own name, and its immediate
/// files parsed in order.
pub open spec fn get_entries_spec(dir: Entry<String>, prefix: Seq<char>) -> CollectionEntryV {
    CollectionEntryV { name: entry_name(dir), pages: dir_files_spec(dir_entries(dir), prefix) }
}

/// The collections of a content root: the root's own entry first, then one
/// entry per immediate subdirectory, in listing order.
pub open spec fn collections_spec(root: Entry<String>) -> Seq<CollectionEntryV> {
    seq![get_entries_spec(root, Seq::empty())] + subdir_collections_spec(dir_entries(root))
}

/// The collections contributed by the immediate subdirectories among
/// `entries`.
pub open spec fn subdir_collections_spec(entries: Seq<Entry<String>>) -> Seq<CollectionEntryV>
    decreases entries.len(),
{
    if entries.len() == 0 {
        Seq::empty()
    } else {
        let rest = subdir_collections_spec(entries.drop_first());
        if entries[0] is Dir {
            seq![get_entries_spec(entries[0], entry_name(entries[0]))] + rest
        } else {
            rest
        }
    }
}

/// Builds the collection of one directory: its immediate files, parsed
/// against their paths under `prefix`.
pub fn get_entries(dir: &Entry<String>, prefix: &str) -> (r: CollectionEntry)
    requires
        dir is Dir,
        wf_entry(*dir),
    ensures
        r@ == get_entries_spec(*dir, prefix@),
{
    let name = get_name(dir).clone();
    let mut pages: Vec<FrontMatter> = Vec::new();
    match dir {
        Entry::Dir { entries, .. } => {
            let n = entries.len();
            let mut i: usize = 0;
            proof {
                assert(entries@.skip(0) =~= entries@);
                assert(pages@.map_values(|p: FrontMatter| p@) =~= Seq::<FrontMatterV>::empty());
                assert(Seq::<FrontMatterV>::empty() + dir_files_spec(entries@, prefix@)
                    =~= dir_files_spec(entries@, prefix@));
            }
            while i < n
                invariant
                    n == entries@.len(),
                    0 <= i <= n,
                    forall|j: int| 0 <= j < n ==> wf_entry(#[trigger] entries@[j]),
                    dir_files_spec(entries@, prefix@) == pages@.map_values(|p: FrontMatter| p@)
                        + dir_files_spec(entries@.skip(i as int), prefix@),
                decreases n - i,
            {
                proof {
                    assert(entries@.skip(i as int).drop_first() =~= entries@.skip(i + 1));
                    assert(entries@.skip(i as int)[0] == entries@[i as int]);
                }
                match &entries[i] {
                    Entry::File { name: fname, content } => {
                        proof {
                            lemma_join_under_file_name(prefix@, fname@);
                        }
                        let rel = join_path(prefix, fname.as_str());
                        let fm = parse_page(content.as_str(), rel.as_str());
                        let ghost old_pages = pages@;
                        pages.push(fm);
                        proof {
                            assert(pages@.map_values(|p: FrontMatter| p@) =~= old_pages.map_values(
                                |p: FrontMatter| p@,
                            ) + seq![parse_page_spec(content@, join_under(prefix@, fname@))]);
                        }
                    },
                    Entry::Dir { .. } => {},
                }
                i += 1;
            }
            proof {
                assert(entries@.skip(n as int) =~= Seq::<Entry<String>>::empty());
                assert(dir_files_spec(entries@, prefix@) =~= pages@.map_values(
                    |p: FrontMatter| p@,
                ));
            }
        },
        Entry::File { .. } => {
            proof {
                assert(false);
            }
        },
    }
    let r = CollectionEntry { name, pages };
    proof {
        assert(r@ =~= get_entries_spec(*dir, prefix@));
    }
    r
}

/// Builds the full collection index of a content root.
pub fn get_collections(root: &Entry<String>) -> (c: Collections)
    requires
        root is Dir,
        wf_entry(*root),
    ensures
        c@ == collections_spec(*root),
{
    let mut out: Vec<CollectionEntry> = Vec::new();
    let root_entry = get_entries(root, "");
    proof {
        reveal_strlit("");
        assert(""@ =~= Seq::<char>::empty());
    }
    out.push(root_entry);
    match root {
        Entry::Dir { entries, .. } => {
            let n = entries.len();
            let mut i: usize = 0;
            while i < n
                invariant
                    n == entries@.len(),
                    0 <= i <= n,
                    root is Dir && wf_entry(*root),
                    entries@ == dir_entries(*root),
                    out@.map_values(|e: CollectionEntry| e@) =~= seq![
                        get_entries_spec(*root, Seq::empty()),
                    ] + take_subdir_collections(entries@, i as int),
                decreases n - i,
            {
                proof {
                    assert(entries@.skip(i as int).drop_first() =~= entries@.skip(i + 1));
                    assert(entries@.skip(i as int)[0] == entries@[i as int]);
                }
                match &entries[i] {
                    Entry::Dir { name, .. } => {
                        let sub = get_entries(&entries[i], name.as_str());
                        let ghost old_out = out@;
                        out.push(sub);
                        proof {
                            assert(out@.map_values(|e: CollectionEntry| e@) =~= old_out.map_values(
                                |e: CollectionEntry| e@,
                            ) + seq![get_entries_spec(entries@[i as int], entry_name(entries@[i as int]))]);
                            lemma_take_subdir_step(entries@, i as int);
                        }
                    },
                    Entry::File { .. } => {
                        proof {
                            lemma_take_subdir_step(entries@, i as int);
                        }
                    },
                }
                i += 1;
            }
            proof {
                lemma_take_subdir_all(entries@, n as int);
                assert(entries@.take(n as int) =~= entries@);
                assert(out@.map_values(|e: CollectionEntry| e@) =~= seq![
                    get_entries_spec(*root, Seq::empty()),
                ] + subdir_collections_spec(dir_entries(*root)));
            }
        },
        Entry::File { .. } => {
            proof {
                assert(false);
            }
        },
    }
    let c = Collections { entries: out };
    proof {
        assert(c@ =~= collections_spec(*root));
    }
    c
}

/// The collections contributed by the subdirectories among the first `i`
/// of `entries`.
spec fn take_subdir_collections(entries: Seq<Entry<String>>, i: int) -> Seq<
    CollectionEntryV,
>
    decreases i,
{
    if i <= 0 {
        Seq::empty()
    } else {
        let rest = take_subdir_collections(entries, i - 1);
        if 0 <= i - 1 < entries.len() && entries[i - 1] is Dir {
            rest + seq![get_entries_spec(entries[i - 1], entry_name(entries[i - 1]))]
        } else {
            rest
        }
    }
}

proof fn lemma_take_subdir_step(entries: Seq<Entry<String>>, i: int)
    requires
        0 <= i < entries.len(),
    ensures
        entries[i] is Dir ==> take_subdir_collections(entries, i + 1)
            == take_subdir_collections(entries, i) + seq![
            get_entries_spec(entries[i], entry_name(entries[i])),
        ],
        !(entries[i] is Dir) ==> take_subdir_collections(entries, i + 1)
            == take_subdir_collections(entries, i),
{
}

proof fn lemma_take_subdir_all(entries: Seq<Entry<String>>, i: int)
    requires
        0 <= i <= entries.len(),
    ensures
        take_subdir_collections(entries, i) =~= subdir_collections_spec(entries.take(i)),
    decreases i,
{
    if i > 0 {
        lemma_take_subdir_all(entries, i - 1);
        lemma_subdir_collections_snoc(entries.take(i - 1), entries[i - 1]);
        assert(entries.take(i - 1).push(entries[i - 1]) =~= entries.take(i));
    }
    if i == entries.len() {
        assert(entries.take(i) =~= entries);
    }
}

/// The names of the collections built from a content root, in order.
pub open spec fn collection_names(root: Entry<String>) -> Seq<Seq<char>> {
    collections_spec(root).map_values(|ce: CollectionEntryV| ce.name)
}

/// The names of the immediate subdirectories among `entries`, in order.
pub open spec fn dir_names(entries: Seq<Entry<String>>) -> Seq<Seq<char>>
    decreases entries.len(),
{
    if entries.len() == 0 {
        Seq::empty()
    } else {
        let rest = dir_names(entries.drop_first());
        if entries[0] is Dir {
            seq![entry_name(entries[0])] + rest
        } else {
            rest
        }
    }
}

/// The collection index holds exactly one entry for the content root
/// itself, first, followed by exactly one entry per immediate subdirectory
/// of the root, in listing order; no directory nested deeper contributes an
/// entry.
pub proof fn lemma_collections_entries(root: Entry<String>)
    requires
        root is Dir,
    ensures
        collections_spec(root).len() == 1 + dir_names(dir_entries(root)).len(),
        collections_spec(root)[0] == get_entries_spec(root, Seq::empty()),
        collection_names(root) =~= seq![entry_name(root)] + dir_names(dir_entries(root)),
{
    lemma_subdir_names(dir_entries(root));
}

proof fn lemma_subdir_names(entries: Seq<Entry<String>>)
    ensures
        subdir_collections_spec(entries).map_values(|ce: CollectionEntryV| ce.name) =~= dir_names(
            entries,
        ),
        subdir_collections_spec(entries).len() == dir_names(entries).len(),
    decreases entries.len(),
{
    if entries.len() > 0 {
        lemma_subdir_names(entries.drop_first());
    }
}

/// The same files give the same parsed metadata, entry list for entry
/// list.
pub(crate) proof fn lemma_dir_files_congr(
    a: Seq<Entry<String>>,
    b: Seq<Entry<String>>,
    prefix: Seq<char>,
)
    requires
        same_trees(a, b),
    ensures
        dir_files_spec(a, prefix) == dir_files_spec(b, prefix),
    decreases a.len(),
{
    if a.len() > 0 {
        lemma_same_trees_drop_first(a, b);
        lemma_dir_files_congr(a.drop_first(), b.drop_first(), prefix);
    }
}

/// The same trees give the same collections.
pub(crate) proof fn lemma_collections_congr(a: Entry<String>, b: Entry<String>)
    requires
        same_tree(a, b),
        a is Dir,
    ensures
        collections_spec(a) == collections_spec(b),
{
    lemma_same_tree_parts(a, b);
    lemma_dir_files_congr(dir_entries(a), dir_entries(b), Seq::empty());
    lemma_subdir_collections_congr(dir_entries(a), dir_entries(b));
}

proof fn lemma_subdir_collections_congr(a: Seq<Entry<String>>, b: Seq<Entry<String>>)
    requires
        same_trees(a, b),
    ensures
        subdir_collections_spec(a) == subdir_collections_spec(b),
    decreases a.len(),
{
    if a.len() > 0 {
        lemma_same_trees_drop_first(a, b);
        lemma_same_tree_parts(a[0], b[0]);
        if a[0] is Dir {
            lemma_dir_files_congr(dir_entries(a[0]), dir_entries(b[0]), entry_name(a[0]));
        }
        lemma_subdir_collections_congr(a.drop_first(), b.drop_first());
    }
}

proof fn lemma_subdir_collections_snoc(entries: Seq<Entry<String>>, e: Entry<String>)
    ensures
        subdir_collections_spec(entries.push(e)) =~= if e is Dir {
            subdir_collections_spec(entries) + seq![get_entries_spec(e, entry_name(e))]
        } else {
            subdir_collections_spec(entries)
        },
    decreases entries.len(),
{
    if entries.len() == 0 {
        assert(entries.push(e).drop_first() =~= Seq::<Entry<String>>::empty());
        assert(entries.push(e)[0] == e);
        assert(subdir_collections_spec(Seq::<Entry<String>>::empty())
            =~= Seq::<CollectionEntryV>::empty());
    } else {
        assert(entries.push(e).drop_first() =~= entries.drop_first().push(e));
        assert(entries.push(e)[0] == entries[0]);
        lemma_subdir_collections_snoc(entries.drop_first(), e);
        assert(subdir_collections_spec(entries) == if entries[0] is Dir {
            seq![get_entries_spec(entries[0], entry_name(entries[0]))]
                + subdir_collections_spec(entries.drop_first())
        } else {
            subdir_collections_spec(entries.drop_first())
        });
    }
}

} // verus!
