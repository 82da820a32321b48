//! Reading typed values from JSON trees.
use vstd::prelude::*;
use vstd::string::*;

use crate::json;
use crate::json::{entry_models, list_model, member, models, object_model, Json, JsonView};
use crate::text;
use crate::text::texts;

verus! {

/// The text that a tree is.
pub open spec fn tree_text(tree: JsonView) -> Option<Seq<char>> {
    match tree {
        JsonView::Text(value) => Some(value),
        _ => None,
    }
}

/// The number of 32 bits that a tree is.
pub open spec fn tree_u32(tree: JsonView) -> Option<u32> {
    match tree {
        JsonView::Unsigned(value) => if value <= u32::MAX {
            Some(value as u32)
        } else {
            None
        },
        _ => None,
    }
}

/// The list of texts that a tree is.
pub open spec fn tree_texts(tree: JsonView) -> Option<Seq<Seq<char>>> {
    match tree {
        JsonView::List(items) => if forall|i: int| 0 <= i < items.len() ==> (#[trigger] items[i]) is Text {
            Some(items.map_values(|item: JsonView| item->Text_0))
        } else {
            None
        },
        _ => None,
    }
}

/// The list of texts that a value is.
pub fn json_texts(value: &Json) -> (r: Option<Vec<String>>)
    ensures
        match tree_texts(value.model()) {
            Some(items) => r matches Some(result) && texts(result@) == items,
            None => r is None,
        },
{
    match value {
        Json::List(items) => {
            proof {
                list_model(*items);
            }
            let ghost trees = models(items@);
            let mut r: Vec<String> = Vec::new();
            let mut i: usize = 0;
            while i < items.len()
                invariant
                    i <= items.len(),
                    trees == models(items@),
                    value.model() == JsonView::List(trees),
                    r@.len() == i,
                    forall|k: int| 0 <= k < i ==> (#[trigger] trees[k]) is Text && r@[k]@ == trees[k]->Text_0,
                decreases items.len() - i,
            {
                assert(trees[i as int] == items@[i as int].model());
                match &items[i] {
                    Json::Text(item) => {
                        r.push(item.clone());
                    },
                    _ => {
                        proof {
                            let inner = value.model()->List_0;
                            assert(!(inner[i as int] is Text));
                        }
                        return None;
                    },
                }
                i = i + 1;
            }
            proof {
                assert(texts(r@) =~= trees.map_values(|item: JsonView| item->Text_0));
            }
            Some(r)
        },
        _ => None,
    }
}

/// The number of 32 bits that a value is.
pub fn json_u32(value: &Json) -> (r: Option<u32>)
    ensures
        r == tree_u32(value.model()),
{
    match value {
        Json::Unsigned(n) => if *n <= u32::MAX as u64 {
            Some(*n as u32)
        } else {
            None
        },
        _ => None,
    }
}

/// The text that a value is.
pub fn json_text(value: &Json) -> (r: Option<String>)
    ensures
        text::opt_text(r) == tree_text(value.model()),
{
    match value {
        Json::Text(item) => Some(item.clone()),
        _ => None,
    }
}

/// The texts of a list of literals.
pub open spec fn literals(items: Seq<&str>) -> Seq<Seq<char>> {
    items.map_values(|item: &str| item@)
}

/// The values that a tree gives to the named fields of a structure: an object whose keys are all
/// among the names, or a list of the first fields in order. A field may be absent.
pub open spec fn struct_fields(tree: JsonView, names: Seq<Seq<char>>) -> Option<Seq<Option<JsonView>>> {
    match tree {
        JsonView::Object(entries) => if forall|i: int| 0 <= i < entries.len() ==> names.contains((#[trigger] entries[i]).0) {
            Some(names.map_values(|name: Seq<char>| member(tree, name)))
        } else {
            None
        },
        JsonView::List(items) => if items.len() <= names.len() {
            Some(
                Seq::new(
                    names.len(),
                    |i: int|
                        if i < items.len() {
                            Some(items[i])
                        } else {
                            None
                        },
                ),
            )
        } else {
            None
        },
        _ => None,
    }
}

/// The trees of optional values.
pub open spec fn opt_models(items: Seq<Option<&Json>>) -> Seq<Option<JsonView>> {
    items.map_values(
        |item: Option<&Json>|
            match item {
                Some(value) => Some(value.model()),
                None => None,
            },
    )
}

/// The values that are there have no key twice.
pub open spec fn all_sound(items: Seq<Option<&Json>>) -> bool {
    forall|i: int| 0 <= i < items.len() && (#[trigger] items[i]) is Some ==> items[i]->Some_0.model().sound()
}

/// Decides whether a list of literals holds a text.
pub fn among(names: &[&'static str], wanted: &str) -> (r: bool)
    ensures
        r == literals(names@).contains(wanted@),
{
    let mut i: usize = 0;
    while i < names.len()
        invariant
            i <= names.len(),
            forall|k: int| 0 <= k < i ==> (#[trigger] literals(names@)[k]) != wanted@,
        decreases names.len() - i,
    {
        assert(literals(names@)[i as int] == names@[i as int]@);
        if text::same(names[i], wanted) {
            return true;
        }
        i = i + 1;
    }
    false
}

/// Reads the fields of a structure.
pub fn read_struct<'a>(value: &'a Json, names: &[&'static str]) -> (r: Option<Vec<Option<&'a Json>>>)
    requires
        value.model().sound(),
    ensures
        match struct_fields(value.model(), literals(names@)) {
            Some(fields) => r matches Some(found) && opt_models(found@) == fields && all_sound(found@),
            None => r is None,
        },
{
    match value {
        Json::Object(entries) => {
            proof {
                object_model(*entries);
            }
            let ghost trees = entry_models(entries@);
            let mut i: usize = 0;
            while i < entries.len()
                invariant
                    i <= entries.len(),
                    trees == entry_models(entries@),
                    value.model() == JsonView::Object(trees),
                    forall|k: int| 0 <= k < i ==> literals(names@).contains((#[trigger] trees[k]).0),
                decreases entries.len() - i,
            {
                assert(trees[i as int].0 == entries@[i as int].0@);
                if !among(names, entries[i].0.as_str()) {
                    proof {
                        let inner = value.model()->Object_0;
                        assert(!literals(names@).contains(inner[i as int].0));
                    }
                    return None;
                }
                i = i + 1;
            }
            let mut found: Vec<Option<&'a Json>> = Vec::new();
            let mut j: usize = 0;
            while j < names.len()
                invariant
                    j <= names.len(),
                    value.model().sound(),
                    found@.len() == j,
                    all_sound(found@),
                    forall|k: int|
                        0 <= k < j ==> (#[trigger] opt_models(found@)[k]) == member(value.model(), literals(names@)[k]),
                decreases names.len() - j,
            {
                assert(literals(names@)[j as int] == names@[j as int]@);
                let ghost before = found@;
                let item = json::get(value, names[j]);
                found.push(item);
                assert forall|k: int| 0 <= k < j + 1 implies (#[trigger] opt_models(found@)[k]) == member(
                    value.model(),
                    literals(names@)[k],
                ) by {
                    if k < j {
                        assert(opt_models(before)[k] == opt_models(found@)[k]);
                    }
                }
                j = j + 1;
            }
            proof {
                assert(opt_models(found@) =~= literals(names@).map_values(|name: Seq<char>| member(value.model(), name)));
            }
            Some(found)
        },
        Json::List(items) => {
            proof {
                list_model(*items);
            }
            let ghost trees = models(items@);
            if items.len() > names.len() {
                return None;
            }
            let mut found: Vec<Option<&'a Json>> = Vec::new();
            let mut j: usize = 0;
            while j < names.len()
                invariant
                    j <= names.len(),
                    items.len() <= names.len(),
                    value.model().sound(),
                    trees == models(items@),
                    value.model() == JsonView::List(trees),
                    found@.len() == j,
                    all_sound(found@),
                    forall|k: int|
                        0 <= k < j ==> (#[trigger] opt_models(found@)[k]) == if k < trees.len() {
                            Some(trees[k])
                        } else {
                            None
                        },
                decreases names.len() - j,
            {
                let ghost before = found@;
                if j < items.len() {
                    proof {
                        assert(trees[j as int] == items@[j as int].model());
                        let inner = value.model()->List_0;
                        assert(inner[j as int].distinct_keys() && inner[j as int].signed_below_zero());
                    }
                    found.push(Some(&items[j]));
                } else {
                    found.push(None);
                }
                assert forall|k: int| 0 <= k < j + 1 implies (#[trigger] opt_models(found@)[k]) == if k < trees.len() {
                    Some(trees[k])
                } else {
                    None
                } by {
                    if k < j {
                        assert(opt_models(before)[k] == opt_models(found@)[k]);
                    }
                }
                j = j + 1;
            }
            proof {
                assert(opt_models(found@) =~= struct_fields(value.model(), literals(names@))->Some_0);
            }
            Some(found)
        },
        _ => None,
    }
}


/// A structure is read by its keys where it is an object, and by its order where it is a list. A key
/// that is no field is refused, and so is a value too many.
pub proof fn a_structure_is_read_by_its_keys_or_its_order(tree: JsonView, names: Seq<Seq<char>>, i: int)
    requires
        0 <= i < names.len(),
    ensures
        tree matches JsonView::Object(entries) ==> (struct_fields(tree, names) is Some <==> forall|k: int|
            0 <= k < entries.len() ==> names.contains((#[trigger] entries[k]).0)),
        tree is Object && struct_fields(tree, names) is Some ==> struct_fields(tree, names)->Some_0.len() == names.len() && struct_fields(tree, names)->Some_0[i]
            == member(tree, names[i]),
        tree matches JsonView::List(items) ==> (struct_fields(tree, names) is Some <==> items.len() <= names.len()),
        tree is List && struct_fields(tree, names) is Some && i < tree->List_0.len() ==> struct_fields(tree, names)->Some_0[i] == Some(tree->List_0[i]),
        tree is List && struct_fields(tree, names) is Some && i >= tree->List_0.len() ==> struct_fields(tree, names)->Some_0[i] is None,
        !(tree is Object) && !(tree is List) ==> struct_fields(tree, names) is None,
{
}

/// A number of 32 bits is read from an unsigned number that fits, and texts from a list of nothing else.
pub proof fn a_value_is_read_as_it_is_written(tree: JsonView, i: int)
    ensures
        tree_u32(tree) matches Some(n) ==> tree == JsonView::Unsigned(n as u64),
        tree matches JsonView::Unsigned(n) ==> (tree_u32(tree) is Some <==> n <= u32::MAX),
        tree_text(tree) matches Some(text) ==> tree == JsonView::Text(text),
        tree is Text ==> tree_text(tree) is Some,
        tree_texts(tree) is Some ==> tree is List && tree_texts(tree)->Some_0.len() == tree->List_0.len(),
        tree_texts(tree) is Some && 0 <= i < tree->List_0.len() ==> tree->List_0[i] == JsonView::Text(tree_texts(tree)->Some_0[i]),
        tree is List && (forall|k: int| 0 <= k < tree->List_0.len() ==> (#[trigger] tree->List_0[k]) is Text) ==> tree_texts(tree) is Some,
{
}
} // verus!
