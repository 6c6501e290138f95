//! An in-memory directory tree. The build pipelines walk such trees: the
//! content tree carries text, the asset tree raw bytes.

use vstd::prelude::*;

verus! {

/// One entry of a directory tree: a file with its content, or a directory
/// with its entries in listing order.
#[verifier::reject_recursive_types(C)]
pub enum Entry<C> {
    File { name: String, content: C },
    Dir { name: String, entries: Vec<Entry<C>> },
}

/// Whether `n` can be the name of one tree entry: non-empty and without
/// any path separator.
pub open spec fn valid_name(n: Seq<char>) -> bool {
    n.len() > 0 && forall|i: int| 0 <= i < n.len() ==> n[i] != '/'
}

/// The name of a tree entry.
pub open spec fn entry_name<C>(e: Entry<C>) -> Seq<char> {
    match e {
        Entry::File { name, .. } => name@,
        Entry::Dir { name, .. } => name@,
    }
}

/// The entries of a directory node.
pub open spec fn dir_entries<C>(e: Entry<C>) -> Seq<Entry<C>>
    recommends
        e is Dir,
{
    match e {
        Entry::Dir { entries, .. } => entries@,
        Entry::File { .. } => Seq::empty(),
    }
}

/// Every entry of a well-formed tree has a valid name.
pub open spec fn wf_entry<C>(e: Entry<C>) -> bool
    decreases e,
{
    match e {
        Entry::File { name, .. } => valid_name(name@),
        Entry::Dir { name, entries } => valid_name(name@) && (forall|i: int|
            0 <= i < entries@.len() ==> wf_entry(#[trigger] entries@[i])),
    }
}

/// Whether two trees hold the same directories, files and contents: the
/// shape in which a tree read twice from an unchanged input, in the same
/// order, comes back.
pub open spec fn same_tree<C: View>(a: Entry<C>, b: Entry<C>) -> bool
    decreases a,
{
    match (a, b) {
        (Entry::File { name: n1, content: c1 }, Entry::File { name: n2, content: c2 }) => n1@
            == n2@ && c1@ == c2@,
        (Entry::Dir { name: n1, entries: e1 }, Entry::Dir { name: n2, entries: e2 }) => n1@ == n2@
            && e1@.len() == e2@.len() && (forall|i: int|
            0 <= i < e1@.len() ==> same_tree(#[trigger] e1@[i], e2@[i])),
        _ => false,
    }
}

/// Whether two entry lists are the same, entry by entry.
pub open spec fn same_trees<C: View>(a: Seq<Entry<C>>, b: Seq<Entry<C>>) -> bool {
    a.len() == b.len() && forall|i: int| 0 <= i < a.len() ==> same_tree(#[trigger] a[i], b[i])
}

/// The same tree has the same name, the same kind, and entry-by-entry the
/// same entries.
pub proof fn lemma_same_tree_parts<C: View>(a: Entry<C>, b: Entry<C>)
    requires
        same_tree(a, b),
    ensures
        entry_name(a) == entry_name(b),
        a is Dir <==> b is Dir,
        a is Dir ==> same_trees(dir_entries(a), dir_entries(b)),
{
}

/// Entry lists that are the same stay the same without their first
/// entries.
pub proof fn lemma_same_trees_drop_first<C: View>(a: Seq<Entry<C>>, b: Seq<Entry<C>>)
    requires
        same_trees(a, b),
        a.len() > 0,
    ensures
        same_tree(a[0], b[0]),
        same_trees(a.drop_first(), b.drop_first()),
{
    assert forall|i: int| 0 <= i < a.drop_first().len() implies same_tree(
        #[trigger] a.drop_first()[i],
        b.drop_first()[i],
    ) by {
        assert(a.drop_first()[i] == a[i + 1]);
        assert(b.drop_first()[i] == b[i + 1]);
    }
}

/// Returns the name of a tree entry.
pub fn get_name<C>(e: &Entry<C>) -> (r: &String)
    ensures
        r@ == entry_name(*e),
{
    match e {
        Entry::File { name, .. } => name,
        Entry::Dir { name, .. } => name,
    }
}

} // verus!
