//! Authority documents: strict JSON with a canonical content identity.
use vstd::prelude::*;
use vstd::string::*;

use crate::digest::{digest_of, digest_syntax, sha256_digest};
use crate::error::{ControlPlaneError, ErrorView};
use crate::json;
use crate::json::{canonical, compact_json, fault, fault_text, models, read_json, reads_as, Json, JsonView, Wording};
use crate::text::{opt_text, texts};

verus! {

/// A typed authority value with its JSON form.
pub trait Document: Sized {
    /// The JSON tree of the value, its fields in declaration order.
    spec fn tree(&self) -> JsonView;

    /// Builds the JSON tree of the value.
    fn to_json(&self) -> (r: Json)
        ensures
            r.model() == self.tree(),
    ;
}

/// One strict JSON authority document and its canonical content identity.
#[derive(Debug)]
pub struct CanonicalDocument<T: Document> {
    value: T,
    bytes: Vec<u8>,
    digest: String,
}

/// The canonical bytes of an authority value: compact JSON with ordered keys.
pub open spec fn content(tree: JsonView) -> Seq<u8> {
    compact_json(canonical(tree))
}

/// Why a tree cannot be an authority document.
pub open spec fn document_fault(tree: JsonView) -> Option<Seq<char>> {
    if !tree.authority_numbers() {
        Some("authority numbers must be non-negative integers"@)
    } else {
        match fault(tree) {
            Some(found) => Some(fault_text(found, Wording::Authority)),
            None => None,
        }
    }
}

/// Two values whose trees differ only in the order of their fields, at any depth, have the same
/// content identity.
pub proof fn identity_ignores_field_order(tree: JsonView, other: JsonView)
    requires
        json::reordered(tree, other),
    ensures
        content(tree) == content(other),
        digest_of(content(tree)) == digest_of(content(other)),
{
    json::canonical_ignores_field_order(tree, other);
}

/// What a document is written as reads back as strict JSON, and a value that is read from it, with
/// its fields in whatever order, is a document with the same bytes and the same identity.
pub proof fn a_written_document_reads_back<T: Document>(value: T, again: T)
    requires
        value.tree().strict(),
        canonical(value.tree()).readable(),
        reads_as(content(value.tree()), canonical(value.tree())),
        read_json(content(value.tree())) matches Ok(tree) ==> json::reordered(tree, again.tree()),
    ensures
        read_json(content(value.tree())) matches Ok(tree) && fault(tree) is None,
        again.tree().strict(),
        content(again.tree()) == content(value.tree()),
        digest_of(content(again.tree())) == digest_of(content(value.tree())),
{
    let tree = canonical(value.tree());
    json::canonical_only_reorders(value.tree());
    json::reordered_is_strict(value.tree(), tree);
    json::faultless_is_strict(tree);
    json::reordered_is_strict(tree, again.tree());
    json::canonical_ignores_field_order(value.tree(), tree);
    json::canonical_ignores_field_order(tree, again.tree());
}

impl<T: Document> CanonicalDocument<T> {
    /// The typed value.
    pub closed spec fn typed(self) -> T {
        self.value
    }

    /// The canonical bytes.
    pub closed spec fn raw(self) -> Seq<u8> {
        self.bytes@
    }

    /// The content identity.
    pub closed spec fn identity(self) -> Seq<char> {
        self.digest@
    }

    #[verifier::type_invariant]
    spec fn closed_content(self) -> bool {
        &&& self.value.tree().strict()
        &&& self.bytes@ == content(self.value.tree())
        &&& self.digest@ == digest_of(self.bytes@)
        &&& digest_syntax(self.digest@)
        &&& reads_as(self.bytes@, canonical(self.value.tree()))
    }

    /// Constructs a canonical document from an already typed value.
    pub fn from_value(kind: &'static str, value: T) -> (r: Result<Self, ControlPlaneError>)
        ensures
            r is Ok <==> value.tree().strict(),
            match r {
                Ok(document) => document.typed() == value && document.raw() == content(value.tree())
                    && document.identity() == digest_of(content(value.tree())),
                Err(error) => document_fault(value.tree()) matches Some(detail)
                    && error@ == (ErrorView::InvalidDocument { kind: kind@, detail }),
            },
    {
        let tree = value.to_json();
        proof {
            json::faultless_is_strict(value.tree());
        }
        if !json::has_authority_numbers(&tree) {
            return Err(
                ControlPlaneError::InvalidDocument {
                    kind,
                    detail: "authority numbers must be non-negative integers".to_owned(),
                },
            );
        }
        match json::find_fault(&tree, Wording::Authority) {
            Some(detail) => return Err(ControlPlaneError::InvalidDocument { kind, detail }),
            None => {},
        }
        let ordered = json::canonicalize(tree);
        proof {
            json::canonical_is_sound(value.tree());
        }
        let bytes = json::to_compact(&ordered);
        let digest = sha256_digest(bytes.as_slice());
        Ok(CanonicalDocument { value, bytes, digest })
    }

    /// Canonicalizes a value that was read from strict JSON.
    pub fn parse(kind: &'static str, typed: Result<T, String>) -> (r: Result<Self, ControlPlaneError>)
        ensures
            match typed {
                Ok(value) => {
                    &&& r is Ok <==> value.tree().strict()
                    &&& match r {
                        Ok(document) => document.typed() == value && document.raw() == content(value.tree())
                            && document.identity() == digest_of(content(value.tree())),
                        Err(error) => document_fault(value.tree()) matches Some(detail)
                            && error@ == (ErrorView::InvalidDocument { kind: kind@, detail }),
                    }
                },
                Err(detail) => r matches Err(error) && error@ == (ErrorView::InvalidDocument {
                    kind: kind@,
                    detail: detail@,
                }),
            },
    {
        match typed {
            Ok(value) => CanonicalDocument::from_value(kind, value),
            Err(detail) => Err(ControlPlaneError::InvalidDocument { kind, detail }),
        }
    }

    /// Returns the typed authority value.
    pub fn value(&self) -> (r: &T)
        ensures
            *r == self.typed(),
    {
        &self.value
    }

    /// Returns recursively key-sorted compact JSON bytes.
    pub fn bytes(&self) -> (r: &[u8])
        ensures
            r@ == self.raw(),
            r@ == content(self.typed().tree()),
            reads_as(r@, canonical(self.typed().tree())),
    {
        proof {
            use_type_invariant(self);
        }
        self.bytes.as_slice()
    }

    /// Returns the canonical SHA-256 content identity.
    pub fn digest(&self) -> (r: &str)
        ensures
            r@ == self.identity(),
            r@ == digest_of(content(self.typed().tree())),
            digest_syntax(r@),
    {
        proof {
            use_type_invariant(self);
        }
        self.digest.as_str()
    }

    /// Consumes the document and returns its typed value.
    pub fn into_value(self) -> (r: T)
        ensures
            r == self.typed(),
    {
        self.value
    }
}

/// Admits the tree of an authority document: the first repeated key, negative or fractional
/// number in document order fails it.
pub fn strict_json(kind: &'static str, parsed: Result<Json, String>) -> (r: Result<Json, ControlPlaneError>)
    ensures
        match parsed {
            Ok(tree) => match fault(tree.model()) {
                Some(found) => r matches Err(error) && error@ == (ErrorView::InvalidDocument {
                    kind: kind@,
                    detail: fault_text(found, Wording::Authority),
                }),
                None => r == Ok::<Json, ControlPlaneError>(tree) && tree.model().strict(),
            },
            Err(detail) => r matches Err(error) && error@ == (ErrorView::InvalidDocument { kind: kind@, detail: detail@ }),
        },
{
    match parsed {
        Ok(tree) => match json::find_fault(&tree, Wording::Authority) {
            Some(detail) => Err(ControlPlaneError::InvalidDocument { kind, detail }),
            None => {
                proof {
                    json::faultless_is_strict(tree.model());
                }
                Ok(tree)
            },
        },
        Err(detail) => Err(ControlPlaneError::InvalidDocument { kind, detail }),
    }
}

/// The trees of a list of values.
pub open spec fn trees<T: Document>(items: Seq<T>) -> Seq<JsonView> {
    items.map_values(|item: T| item.tree())
}

/// The tree of a list of texts.
pub open spec fn text_list_tree(items: Seq<Seq<char>>) -> JsonView {
    JsonView::List(items.map_values(|item: Seq<char>| JsonView::Text(item)))
}

/// The tree of an optional text: the text, or null.
pub open spec fn opt_text_tree(item: Option<Seq<char>>) -> JsonView {
    match item {
        Some(value) => JsonView::Text(value),
        None => JsonView::Null,
    }
}

/// The tree of an optional value: the value, or null.
pub open spec fn opt_tree<T: Document>(item: Option<T>) -> JsonView {
    match item {
        Some(value) => value.tree(),
        None => JsonView::Null,
    }
}

/// Builds the tree of a list of values.
pub fn list_json<T: Document>(items: &Vec<T>) -> (r: Json)
    ensures
        r.model() == JsonView::List(trees(items@)),
{
    let mut list: Vec<Json> = Vec::new();
    let mut i: usize = 0;
    while i < items.len()
        invariant
            i <= items.len(),
            list@.len() == i,
            forall|k: int| 0 <= k < i ==> (#[trigger] list@[k]).model() == items@[k].tree(),
        decreases items.len() - i,
    {
        list.push(items[i].to_json());
        i = i + 1;
    }
    proof {
        json::list_model(list);
        assert(models(list@) =~= trees(items@));
    }
    Json::List(list)
}

/// Builds the tree of a list of texts.
pub fn text_list_json(items: &Vec<String>) -> (r: Json)
    ensures
        r.model() == text_list_tree(texts(items@)),
{
    let mut list: Vec<Json> = Vec::new();
    let mut i: usize = 0;
    while i < items.len()
        invariant
            i <= items.len(),
            list@.len() == i,
            forall|k: int| 0 <= k < i ==> (#[trigger] list@[k]).model() == JsonView::Text(items@[k]@),
        decreases items.len() - i,
    {
        list.push(Json::Text(items[i].clone()));
        i = i + 1;
    }
    proof {
        json::list_model(list);
        assert(models(list@) =~= text_list_tree(texts(items@))->List_0);
    }
    Json::List(list)
}

/// Builds the tree of an optional text.
pub fn opt_text_json(item: &Option<String>) -> (r: Json)
    ensures
        r.model() == opt_text_tree(opt_text(*item)),
{
    match item {
        Some(value) => Json::Text(value.clone()),
        None => Json::Null,
    }
}

/// Builds the tree of an optional value.
pub fn opt_json<T: Document>(item: &Option<T>) -> (r: Json)
    ensures
        r.model() == opt_tree(*item),
{
    match item {
        Some(value) => value.to_json(),
        None => Json::Null,
    }
}

/// The keys of an object's entries.
pub open spec fn keys_of(entries: Seq<(Seq<char>, JsonView)>) -> Seq<Seq<char>> {
    entries.map_values(|entry: (Seq<char>, JsonView)| entry.0)
}

/// An object with strict values and no key twice is strict.
pub proof fn object_is_strict(entries: Seq<(Seq<char>, JsonView)>)
    requires
        forall|i: int| 0 <= i < entries.len() ==> (#[trigger] entries[i]).1.strict(),
        keys_of(entries).no_duplicates(),
    ensures
        JsonView::Object(entries).strict(),
{
    let tree = JsonView::Object(entries);
    assert forall|i: int, j: int| 0 <= i < j < entries.len() implies (#[trigger] entries[i]).0 != (#[trigger] entries[j]).0 by {
        assert(keys_of(entries)[i] != keys_of(entries)[j]);
    }
    assert(tree->Object_0 == entries);
    assert forall|i: int| 0 <= i < entries.len() implies (#[trigger] entries[i]).1.authority_numbers() by {}
    assert forall|i: int| 0 <= i < entries.len() implies (#[trigger] entries[i]).1.distinct_keys() by {}
}

/// A list of strict values is strict.
pub proof fn list_is_strict(items: Seq<JsonView>)
    requires
        forall|i: int| 0 <= i < items.len() ==> (#[trigger] items[i]).strict(),
    ensures
        JsonView::List(items).strict(),
{
    let tree = JsonView::List(items);
    assert(tree->List_0 == items);
    assert forall|i: int| 0 <= i < items.len() implies (#[trigger] items[i]).authority_numbers() by {}
    assert forall|i: int| 0 <= i < items.len() implies (#[trigger] items[i]).distinct_keys() by {}
}

/// A list of texts is strict.
pub proof fn text_list_is_strict(items: Seq<Seq<char>>)
    ensures
        text_list_tree(items).strict(),
{
    list_is_strict(items.map_values(|item: Seq<char>| JsonView::Text(item)));
}


/// A tree can be an authority document exactly where its numbers are non-negative integers and no object
/// in it has a key twice.
pub proof fn an_authority_document_is_strict(tree: JsonView)
    ensures
        document_fault(tree) is None <==> tree.authority_numbers() && tree.distinct_keys(),
{
    json::faultless_is_strict(tree);
}
} // verus!
