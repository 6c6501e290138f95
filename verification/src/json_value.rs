//! The render context handed to the template engine, built as a JSON value
//! whose shape is tracked exactly: an object with the page's layout, title,
//! permalink and body, plus the full collection index.

use vstd::prelude::*;
use crate::collections::{Collections, CollectionEntryV};
use crate::front_matter::{FrontMatter, FrontMatterV};

verus! {

/// The shape of a JSON value built here.
#[verifier::ext_equal]
pub ghost enum JsonV {
    Str(Seq<char>),
    Arr(Seq<JsonV>),
    Obj(Map<Seq<char>, JsonV>),
}

#[verifier::external_type_specification]
#[verifier::external_body]
pub struct ExValue(serde_json::Value);

/// The shape of a JSON value.
pub uninterp spec fn json_of(v: serde_json::Value) -> JsonV;

/// The object members a list of key/value pairs yields: each pair added in
/// order, a later pair replacing an earlier one under the same key.
pub open spec fn pairs_map(pairs: Seq<(String, serde_json::Value)>) -> Map<Seq<char>, JsonV>
    decreases pairs.len(),
{
    if pairs.len() == 0 {
        Map::empty()
    } else {
        pairs_map(pairs.drop_last()).insert(pairs.last().0@, json_of(pairs.last().1))
    }
}

/// Relies on serde_json::Value::String holding exactly the given text.
#[verifier::external_body]
fn jv_string(s: &str) -> (v: serde_json::Value)
    ensures
        json_of(v) == JsonV::Str(s@),
{
    serde_json::Value::String(s.to_string())
}

/// Relies on serde_json::Value::Array holding exactly the given items in
/// order.
#[verifier::external_body]
fn jv_array(items: Vec<serde_json::Value>) -> (v: serde_json::Value)
    ensures
        json_of(v) == JsonV::Arr(items@.map_values(|x: serde_json::Value| json_of(x))),
{
    serde_json::Value::Array(items)
}

/// Relies on serde_json::Value::Object and serde_json::Map's FromIterator:
/// the object holds the given members, a later pair replacing an earlier
/// one under the same key.
#[verifier::external_body]
fn jv_object_from(pairs: Vec<(String, serde_json::Value)>) -> (v: serde_json::Value)
    ensures
        json_of(v) == JsonV::Obj(pairs_map(pairs@)),
{
    serde_json::Value::Object(pairs.into_iter().collect())
}

/// The context object one page's metadata contributes: its layout, title,
/// permalink and transformed body.
pub open spec fn page_fields_json(fm: FrontMatterV) -> JsonV {
    JsonV::Obj(
        Map::<Seq<char>, JsonV>::empty().insert("layout"@, JsonV::Str(fm.layout)).insert(
            "title"@,
            JsonV::Str(fm.title),
        ).insert("permalink"@, JsonV::Str(fm.permalink)).insert(
            "content"@,
            JsonV::Str(fm.content),
        ),
    )
}

/// The JSON shape of the collection index: each collection name mapped to
/// the array of its pages' context objects. A later collection under the
/// same name replaces an earlier one, as a keyed mapping holds one member
/// per key.
pub open spec fn collections_json(entries: Seq<CollectionEntryV>) -> JsonV {
    JsonV::Obj(collections_jmap(entries))
}

/// The members of the collection-index object for `entries`.
pub open spec fn collections_jmap(entries: Seq<CollectionEntryV>) -> Map<Seq<char>, JsonV>
    decreases entries.len(),
{
    if entries.len() == 0 {
        Map::empty()
    } else {
        collections_jmap(entries.drop_last()).insert(
            entries.last().name,
            JsonV::Arr(entries.last().pages.map_values(|p: FrontMatterV| page_fields_json(p))),
        )
    }
}

/// The full render context of one page: its own fields and the collection
/// index.
pub open spec fn page_context_json(fm: FrontMatterV, colls: Seq<CollectionEntryV>) -> JsonV {
    JsonV::Obj(
        Map::<Seq<char>, JsonV>::empty().insert("layout"@, JsonV::Str(fm.layout)).insert(
            "title"@,
            JsonV::Str(fm.title),
        ).insert("permalink"@, JsonV::Str(fm.permalink)).insert(
            "content"@,
            JsonV::Str(fm.content),
        ).insert("collections"@, collections_json(colls)),
    )
}

/// Pushes one key/value pair, with the effect on the members it will yield.
fn push_pair(
    pairs: &mut Vec<(String, serde_json::Value)>,
    k: &str,
    v: serde_json::Value,
)
    ensures
        final(pairs)@.len() == old(pairs)@.len() + 1,
        pairs_map(final(pairs)@) == pairs_map(old(pairs)@).insert(k@, json_of(v)),
{
    let ghost before = pairs@;
    pairs.push((k.to_owned(), v));
    proof {
        assert(pairs@.drop_last() =~= before);
    }
}

/// Builds the context object of one page's fields.
fn build_page_fields(fm: &FrontMatter) -> (v: serde_json::Value)
    ensures
        json_of(v) == page_fields_json(fm@),
{
    let mut pairs: Vec<(String, serde_json::Value)> = Vec::new();
    proof {
        assert(pairs@ =~= Seq::<(String, serde_json::Value)>::empty());
    }
    push_pair(&mut pairs, "layout", jv_string(fm.layout.as_str()));
    push_pair(&mut pairs, "title", jv_string(fm.title.as_str()));
    push_pair(&mut pairs, "permalink", jv_string(fm.permalink.as_str()));
    push_pair(&mut pairs, "content", jv_string(fm.content.as_str()));
    let v = jv_object_from(pairs);
    proof {
        assert(json_of(v) =~= page_fields_json(fm@));
    }
    v
}

/// Builds the JSON value of the collection index.
fn build_collections_value(colls: &Collections) -> (v: serde_json::Value)
    ensures
        json_of(v) == collections_json(colls@),
{
    let mut pairs: Vec<(String, serde_json::Value)> = Vec::new();
    let n = colls.entries.len();
    let mut i: usize = 0;
    proof {
        assert(colls@.take(0) =~= Seq::<CollectionEntryV>::empty());
        assert(pairs@ =~= Seq::<(String, serde_json::Value)>::empty());
    }
    while i < n
        invariant
            n == colls.entries@.len(),
            0 <= i <= n,
            pairs_map(pairs@) == collections_jmap(colls@.take(i as int)),
        decreases n - i,
    {
        let ce = &colls.entries[i];
        let mut items: Vec<serde_json::Value> = Vec::new();
        let pn = ce.pages.len();
        let mut j: usize = 0;
        while j < pn
            invariant
                pn == ce.pages@.len(),
                0 <= j <= pn,
                items@.map_values(|x: serde_json::Value| json_of(x)) =~= ce.pages@.take(
                    j as int,
                ).map_values(|p: FrontMatter| p@).map_values(
                    |p: FrontMatterV| page_fields_json(p),
                ),
            decreases pn - j,
        {
            let pv = build_page_fields(&ce.pages[j]);
            let ghost old_items = items@;
            items.push(pv);
            proof {
                assert(items@ =~= old_items.push(pv));
                assert(json_of(pv) == page_fields_json(ce.pages@[j as int]@));
                old_items.lemma_push_map_commute(|x: serde_json::Value| json_of(x), pv);
                ce.pages@.lemma_map_take_succ(|p: FrontMatter| p@, j as int);
                ce.pages@.take(j as int).map_values(|p: FrontMatter| p@).lemma_push_map_commute(
                    |p: FrontMatterV| page_fields_json(p),
                    ce.pages@[j as int]@,
                );
                assert(items@.map_values(|x: serde_json::Value| json_of(x)) =~= ce.pages@.take(
                    j + 1,
                ).map_values(|p: FrontMatter| p@).map_values(
                    |p: FrontMatterV| page_fields_json(p),
                ));
            }
            j += 1;
        }
        proof {
            assert(ce.pages@.take(pn as int) =~= ce.pages@);
        }
        let arr = jv_array(items);
        push_pair(&mut pairs, ce.name.as_str(), arr);
        proof {
            assert(colls@.take(i + 1) =~= colls@.take(i as int).push(colls@[i as int]));
            assert(colls@.take(i + 1).drop_last() =~= colls@.take(i as int));
            assert(colls@[i as int] == colls.entries@[i as int]@);
            assert(colls@[i as int].pages =~= colls.entries@[i as int].pages@.map_values(
                |p: FrontMatter| p@,
            ));
            assert(pairs_map(pairs@) =~= collections_jmap(colls@.take(i + 1)));
        }
        i += 1;
    }
    proof {
        assert(colls@.take(n as int) =~= colls@);
    }
    jv_object_from(pairs)
}

/// Builds the full render context of one page.
pub fn build_page_context(fm: &FrontMatter, colls: &Collections) -> (v: serde_json::Value)
    ensures
        json_of(v) == page_context_json(fm@, colls@),
{
    let mut pairs: Vec<(String, serde_json::Value)> = Vec::new();
    proof {
        assert(pairs@ =~= Seq::<(String, serde_json::Value)>::empty());
    }
    push_pair(&mut pairs, "layout", jv_string(fm.layout.as_str()));
    push_pair(&mut pairs, "title", jv_string(fm.title.as_str()));
    push_pair(&mut pairs, "permalink", jv_string(fm.permalink.as_str()));
    push_pair(&mut pairs, "content", jv_string(fm.content.as_str()));
    let cv = build_collections_value(colls);
    push_pair(&mut pairs, "collections", cv);
    let v = jv_object_from(pairs);
    proof {
        assert(json_of(v) =~= page_context_json(fm@, colls@));
    }
    v
}

} // verus!
