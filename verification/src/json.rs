//! JSON trees: their model, strictness, canonical key order and exchange with `serde_json`.
use serde_json::Value;
use vstd::prelude::*;
use vstd::string::*;

use crate::text;

verus! {

/// The tree type of `serde_json`.
#[verifier::external_type_specification]
#[verifier::external_body]
pub struct ExValue(serde_json::Value);

/// The number type of `serde_json`.
#[verifier::external_type_specification]
#[verifier::external_body]
pub struct ExNumber(serde_json::Number);

/// The error type of `serde_json`.
#[verifier::external_type_specification]
#[verifier::external_body]
pub struct ExError(serde_json::Error);

/// A number that is not an integer of 64 bits, as it was read.
#[derive(Debug, PartialEq, Eq)]
pub struct Fraction {
    number: serde_json::Number,
}

/// A JSON tree. The entries of an object stand in document order, repeated keys included.
#[derive(Debug, PartialEq, Eq)]
pub enum Json {
    Null,
    Bool(bool),
    Unsigned(u64),
    /// An integer below zero.
    Negative(i64),
    Fraction(Fraction),
    Text(String),
    List(Vec<Json>),
    Object(Vec<(String, Json)>),
}

impl Clone for Fraction {
    /// `serde_json::Number::clone` gives the same number.
    #[verifier::external_body]
    fn clone(&self) -> (r: Self)
        ensures
            r == *self,
    {
        Fraction { number: self.number.clone() }
    }
}

/// The mathematical tree of a JSON value.
pub enum JsonView {
    Null,
    Bool(bool),
    Unsigned(u64),
    Negative(i64),
    Fraction(Fraction),
    Text(Seq<char>),
    List(Seq<JsonView>),
    Object(Seq<(Seq<char>, JsonView)>),
}

impl Json {
    /// The mathematical tree.
    pub open spec fn model(self) -> JsonView
        decreases self,
    {
        match self {
            Json::Null => JsonView::Null,
            Json::Bool(value) => JsonView::Bool(value),
            Json::Unsigned(value) => JsonView::Unsigned(value),
            Json::Negative(value) => JsonView::Negative(value),
            Json::Fraction(value) => JsonView::Fraction(value),
            Json::Text(value) => JsonView::Text(value@),
            Json::List(items) => JsonView::List(
                Seq::new(
                    items@.len(),
                    |i: int|
                        if 0 <= i < items@.len() {
                            items@[i].model()
                        } else {
                            JsonView::Null
                        },
                ),
            ),
            Json::Object(entries) => JsonView::Object(
                Seq::new(
                    entries@.len(),
                    |i: int|
                        if 0 <= i < entries@.len() {
                            (entries@[i].0@, entries@[i].1.model())
                        } else {
                            (Seq::empty(), JsonView::Null)
                        },
                ),
            ),
        }
    }
}

impl Clone for Json {
    fn clone(&self) -> (r: Self)
        ensures
            r.model() == self.model(),
    {
        copy(self)
    }
}

/// Copies a tree.
fn copy(value: &Json) -> (r: Json)
    ensures
        r.model() == value.model(),
    decreases value,
{
    match value {
        Json::Null => Json::Null,
        Json::Bool(item) => Json::Bool(*item),
        Json::Unsigned(item) => Json::Unsigned(*item),
        Json::Negative(item) => Json::Negative(*item),
        Json::Fraction(item) => Json::Fraction(item.clone()),
        Json::Text(item) => Json::Text(item.clone()),
        Json::List(items) => {
            let mut list: Vec<Json> = Vec::new();
            let mut i: usize = 0;
            while i < items.len()
                invariant
                    i <= items.len(),
                    *value == Json::List(*items),
                    list@.len() == i,
                    forall|k: int| 0 <= k < i ==> (#[trigger] list@[k]).model() == items@[k].model(),
                decreases items.len() - i,
            {
                assert(decreases_to!(value => value->List_0));
                list.push(copy(&items[i]));
                i = i + 1;
            }
            proof {
                list_model(list);
                list_model(*items);
                assert(models(list@) =~= models(items@));
            }
            Json::List(list)
        },
        Json::Object(entries) => {
            let mut list: Vec<(String, Json)> = Vec::new();
            let mut i: usize = 0;
            while i < entries.len()
                invariant
                    i <= entries.len(),
                    *value == Json::Object(*entries),
                    list@.len() == i,
                    forall|k: int| 0 <= k < i ==> (#[trigger] list@[k]).0@ == entries@[k].0@ && list@[k].1.model() == entries@[k].1.model(),
                decreases entries.len() - i,
            {
                assert(decreases_to!(value => value->Object_0));
                list.push((entries[i].0.clone(), copy(&entries[i].1)));
                i = i + 1;
            }
            proof {
                object_model(list);
                object_model(*entries);
                assert(entry_models(list@) =~= entry_models(entries@));
            }
            Json::Object(list)
        },
    }
}

/// The trees of a list of values.
pub open spec fn models(items: Seq<Json>) -> Seq<JsonView> {
    items.map_values(|item: Json| item.model())
}

/// The keys and trees of a list of entries.
pub open spec fn entry_models(entries: Seq<(String, Json)>) -> Seq<(Seq<char>, JsonView)> {
    entries.map_values(|entry: (String, Json)| (entry.0@, entry.1.model()))
}

/// The tree of a list is the list of the trees.
pub proof fn list_model(items: Vec<Json>)
    ensures
        Json::List(items).model() == JsonView::List(models(items@)),
{
    let a = Json::List(items).model()->List_0;
    assert(a =~= models(items@));
}

/// The tree of an object has the trees of its entries.
pub proof fn object_model(entries: Vec<(String, Json)>)
    ensures
        Json::Object(entries).model() == JsonView::Object(entry_models(entries@)),
{
    let a = Json::Object(entries).model()->Object_0;
    assert(a =~= entry_models(entries@));
}

impl JsonView {
    /// Every number in the tree is a non-negative integer.
    pub open spec fn authority_numbers(self) -> bool
        decreases self,
    {
        match self {
            JsonView::Negative(_) => false,
            JsonView::Fraction(_) => false,
            JsonView::List(items) => forall|i: int| 0 <= i < items.len() ==> (#[trigger] items[i]).authority_numbers(),
            JsonView::Object(entries) => forall|i: int| 0 <= i < entries.len() ==> (#[trigger] entries[i]).1.authority_numbers(),
            _ => true,
        }
    }

    /// No object in the tree repeats a key.
    pub open spec fn distinct_keys(self) -> bool
        decreases self,
    {
        match self {
            JsonView::List(items) => forall|i: int| 0 <= i < items.len() ==> (#[trigger] items[i]).distinct_keys(),
            JsonView::Object(entries) => {
                &&& forall|i: int, j: int| 0 <= i < j < entries.len() ==> (#[trigger] entries[i]).0 != (#[trigger] entries[j]).0
                &&& forall|i: int| 0 <= i < entries.len() ==> (#[trigger] entries[i]).1.distinct_keys()
            },
            _ => true,
        }
    }

    /// Every integer that is kept as negative is below zero.
    pub open spec fn signed_below_zero(self) -> bool
        decreases self,
    {
        match self {
            JsonView::Negative(value) => value < 0,
            JsonView::List(items) => forall|i: int| 0 <= i < items.len() ==> (#[trigger] items[i]).signed_below_zero(),
            JsonView::Object(entries) => forall|i: int| 0 <= i < entries.len() ==> (#[trigger] entries[i]).1.signed_below_zero(),
            _ => true,
        }
    }

    /// The tree is one that a JSON reader hands out.
    pub open spec fn sound(self) -> bool {
        self.distinct_keys() && self.signed_below_zero()
    }

    /// Lists and objects stand in each other at most so deep.
    pub open spec fn nested_within(self, depth: nat) -> bool
        decreases self,
    {
        match self {
            JsonView::List(items) => depth > 0 && forall|i: int|
                0 <= i < items.len() ==> (#[trigger] items[i]).nested_within((depth - 1) as nat),
            JsonView::Object(entries) => depth > 0 && forall|i: int|
                0 <= i < entries.len() ==> (#[trigger] entries[i]).1.nested_within((depth - 1) as nat),
            _ => true,
        }
    }

    /// Every number in the tree is an integer, and no key is the one that `serde_json` keeps for raw values.
    pub open spec fn plain(self) -> bool
        decreases self,
    {
        match self {
            JsonView::Fraction(_) => false,
            JsonView::List(items) => forall|i: int| 0 <= i < items.len() ==> (#[trigger] items[i]).plain(),
            JsonView::Object(entries) => forall|i: int|
                0 <= i < entries.len() ==> (#[trigger] entries[i]).0 != "$serde_json::private::RawValue"@ && entries[i].1.plain(),
            _ => true,
        }
    }

    /// The tree is one that `serde_json` reads back from what it writes for it.
    pub open spec fn readable(self) -> bool {
        self.nested_within(127) && self.plain()
    }

    /// The tree is strict: no repeated key, no negative and no fractional number.
    pub open spec fn strict(self) -> bool {
        self.authority_numbers() && self.distinct_keys()
    }
}

/// What makes a tree unfit to be an authority document.
pub enum Fault {
    /// An object repeats this key.
    Repeated(Seq<char>),
    /// A number is negative.
    Negative,
    /// A number is not an integer.
    Fraction,
}

/// The fault that a reader in document order meets first.
pub open spec fn fault(value: JsonView) -> Option<Fault>
    decreases value, 0nat,
{
    match value {
        JsonView::Negative(_) => Some(Fault::Negative),
        JsonView::Fraction(_) => Some(Fault::Fraction),
        JsonView::List(items) => items_fault(items, items.len()),
        JsonView::Object(entries) => entries_fault(entries, entries.len()),
        _ => None,
    }
}

/// The first fault among the first `n` items of a list.
pub open spec fn items_fault(items: Seq<JsonView>, n: nat) -> Option<Fault>
    decreases items, n,
{
    if n == 0 || n > items.len() {
        None
    } else {
        match items_fault(items, (n - 1) as nat) {
            Some(first) => Some(first),
            None => fault(items[n - 1]),
        }
    }
}

/// The first fault among the first `n` entries of an object; a key counts before its value.
pub open spec fn entries_fault(entries: Seq<(Seq<char>, JsonView)>, n: nat) -> Option<Fault>
    decreases entries, n,
{
    if n == 0 || n > entries.len() {
        None
    } else {
        match entries_fault(entries, (n - 1) as nat) {
            Some(first) => Some(first),
            None => if has_key(entries.take(n - 1), entries[n - 1].0) {
                Some(Fault::Repeated(entries[n - 1].0))
            } else {
                fault(entries[n - 1].1)
            },
        }
    }
}

/// Some entry has this key.
pub open spec fn has_key(entries: Seq<(Seq<char>, JsonView)>, key: Seq<char>) -> bool {
    exists|i: int| 0 <= i < entries.len() && (#[trigger] entries[i]).0 == key
}

/// A tree has no fault exactly when it is strict.
pub proof fn faultless_is_strict(value: JsonView)
    ensures
        fault(value) is None <==> value.strict(),
    decreases value, 0nat,
{
    match value {
        JsonView::List(items) => {
            lemma_items(items, items.len());
        },
        JsonView::Object(entries) => {
            lemma_entries(entries, entries.len());
            assert(entries.take(entries.len() as int) =~= entries);
        },
        _ => {},
    }
}

proof fn lemma_items(items: Seq<JsonView>, n: nat)
    requires
        n <= items.len(),
    ensures
        items_fault(items, n) is None <==> (forall|i: int| 0 <= i < n ==> (#[trigger] items[i]).strict()),
    decreases items, n,
{
    if n > 0 {
        lemma_items(items, (n - 1) as nat);
        faultless_is_strict(items[n - 1]);
        assert(items_fault(items, n) is None ==> items[n - 1].strict());
    }
}

proof fn lemma_entries(entries: Seq<(Seq<char>, JsonView)>, n: nat)
    requires
        n <= entries.len(),
    ensures
        entries_fault(entries, n) is None <==> {
            &&& forall|i: int, j: int| 0 <= i < j < n ==> (#[trigger] entries[i]).0 != (#[trigger] entries[j]).0
            &&& forall|i: int| 0 <= i < n ==> (#[trigger] entries[i]).1.strict()
        },
    decreases entries, n,
{
    if n > 0 {
        lemma_entries(entries, (n - 1) as nat);
        let before = entries.take(n - 1);
        let last = entries[n - 1];
        if has_key(before, last.0) {
            let i = choose|i: int| 0 <= i < before.len() && (#[trigger] before[i]).0 == last.0;
            assert(entries[i].0 == entries[n - 1].0);
        } else {
            assert forall|i: int| 0 <= i < n - 1 implies (#[trigger] entries[i]).0 != last.0 by {
                assert(before[i] == entries[i]);
            }
        }
        faultless_is_strict(last.1);
        assert(entries_fault(entries, n) is None ==> entries[n - 1].1.strict());
    }
}

/// Decides whether every number in the tree is a non-negative integer.
pub fn has_authority_numbers(value: &Json) -> (r: bool)
    ensures
        r == value.model().authority_numbers(),
    decreases value,
{
    match value {
        Json::Negative(_) => false,
        Json::Fraction(_) => false,
        Json::List(items) => {
            proof {
                list_model(*items);
            }
            let mut i: usize = 0;
            while i < items.len()
                invariant
                    i <= items.len(),
                    *value == Json::List(*items),
                    value.model() == JsonView::List(models(items@)),
                    forall|k: int| 0 <= k < i ==> (#[trigger] models(items@)[k]).authority_numbers(),
                decreases items.len() - i,
            {
                if !has_authority_numbers(&items[i]) {
                    assert(!models(items@)[i as int].authority_numbers());
                    proof {
                        lemma_item_number(models(items@), i as int);
                    }
                    return false;
                }
                i = i + 1;
            }
            true
        },
        Json::Object(entries) => {
            proof {
                object_model(*entries);
            }
            let mut i: usize = 0;
            while i < entries.len()
                invariant
                    i <= entries.len(),
                    *value == Json::Object(*entries),
                    value.model() == JsonView::Object(entry_models(entries@)),
                    forall|k: int| 0 <= k < i ==> (#[trigger] entry_models(entries@)[k]).1.authority_numbers(),
                decreases entries.len() - i,
            {
                if !has_authority_numbers(&entries[i].1) {
                    assert(!entry_models(entries@)[i as int].1.authority_numbers());
                    proof {
                        lemma_entry_number(entry_models(entries@), i as int);
                    }
                    return false;
                }
                i = i + 1;
            }
            true
        },
        _ => true,
    }
}

proof fn lemma_item_number(items: Seq<JsonView>, i: int)
    requires
        0 <= i < items.len(),
        !items[i].authority_numbers(),
    ensures
        !JsonView::List(items).authority_numbers(),
{
    let value = JsonView::List(items);
    if value.authority_numbers() {
        let inner = value->List_0;
        assert(inner[i].authority_numbers());
    }
}

proof fn lemma_entry_number(entries: Seq<(Seq<char>, JsonView)>, i: int)
    requires
        0 <= i < entries.len(),
        !entries[i].1.authority_numbers(),
    ensures
        !JsonView::Object(entries).authority_numbers(),
{
    let value = JsonView::Object(entries);
    if value.authority_numbers() {
        let inner = value->Object_0;
        assert(inner[i].1.authority_numbers());
    }
}

/// The kind of document that a fault is named for.
#[derive(Clone, Copy, Debug, PartialEq, Eq, Structural)]
pub enum Wording {
    /// A document of the control plane.
    Authority,
    /// A Plugin Manifest.
    Manifest,
}

/// The text that names a fault.
pub open spec fn fault_text(found: Fault, wording: Wording) -> Seq<char> {
    match found {
        Fault::Repeated(key) => "duplicate field `"@ + key + "`"@,
        Fault::Negative => match wording {
            Wording::Authority => "negative integers are forbidden in authority documents"@,
            Wording::Manifest => "negative integers are forbidden"@,
        },
        Fault::Fraction => match wording {
            Wording::Authority => "floating-point values are forbidden in authority documents"@,
            Wording::Manifest => "floating-point values are forbidden"@,
        },
    }
}

/// Names a key that an object has already.
pub fn repeated_key(entries: &Vec<(String, Json)>, key: &str) -> (r: Option<String>)
    ensures
        match r {
            Some(detail) => has_key(entry_models(entries@), key@) && detail@ == fault_text(Fault::Repeated(key@), Wording::Authority),
            None => !has_key(entry_models(entries@), key@),
        },
{
    let ghost trees = entry_models(entries@);
    let mut i: usize = 0;
    while i < entries.len()
        invariant
            i <= entries.len(),
            trees == entry_models(entries@),
            forall|k: int| 0 <= k < i ==> (#[trigger] trees[k]).0 != key@,
        decreases entries.len() - i,
    {
        assert(trees[i as int].0 == entries@[i as int].0@);
        if text::same(entries[i].0.as_str(), key) {
            return Some(text::around("duplicate field `", key, "`"));
        }
        i = i + 1;
    }
    None
}

/// Names the fault that a reader in document order meets first.
pub fn find_fault(value: &Json, wording: Wording) -> (r: Option<String>)
    ensures
        match fault(value.model()) {
            Some(found) => r matches Some(detail) && detail@ == fault_text(found, wording),
            None => r is None,
        },
    decreases value,
{
    match value {
        Json::Negative(_) => match wording {
            Wording::Authority => Some("negative integers are forbidden in authority documents".to_owned()),
            Wording::Manifest => Some("negative integers are forbidden".to_owned()),
        },
        Json::Fraction(_) => match wording {
            Wording::Authority => Some("floating-point values are forbidden in authority documents".to_owned()),
            Wording::Manifest => Some("floating-point values are forbidden".to_owned()),
        },
        Json::List(items) => {
            proof {
                list_model(*items);
            }
            let ghost trees = models(items@);
            let mut i: usize = 0;
            while i < items.len()
                invariant
                    i <= items.len(),
                    *value == Json::List(*items),
                    trees == models(items@),
                    value.model() == JsonView::List(trees),
                    items_fault(trees, i as nat) is None,
                decreases items.len() - i,
            {
                let found = find_fault(&items[i], wording);
                proof {
                    assert(trees[i as int] == items@[i as int].model());
                    assert(items_fault(trees, (i + 1) as nat) == fault(trees[i as int]));
                    if found is Some {
                        lemma_items_fault_stays(trees, (i + 1) as nat, trees.len());
                    }
                }
                if found.is_some() {
                    return found;
                }
                i = i + 1;
            }
            None
        },
        Json::Object(entries) => {
            proof {
                object_model(*entries);
            }
            let ghost trees = entry_models(entries@);
            let mut i: usize = 0;
            while i < entries.len()
                invariant
                    i <= entries.len(),
                    *value == Json::Object(*entries),
                    trees == entry_models(entries@),
                    value.model() == JsonView::Object(trees),
                    entries_fault(trees, i as nat) is None,
                decreases entries.len() - i,
            {
                let repeated = key_before(entries, i);
                proof {
                    assert(trees[i as int] == (entries@[i as int].0@, entries@[i as int].1.model()));
                    if repeated {
                        lemma_entries_fault_stays(trees, (i + 1) as nat, trees.len());
                    }
                }
                if repeated {
                    return Some(text::around("duplicate field `", entries[i].0.as_str(), "`"));
                }
                let found = find_fault(&entries[i].1, wording);
                proof {
                    assert(entries_fault(trees, (i + 1) as nat) == fault(trees[i as int].1));
                    if found is Some {
                        lemma_entries_fault_stays(trees, (i + 1) as nat, trees.len());
                    }
                }
                if found.is_some() {
                    return found;
                }
                i = i + 1;
            }
            None
        },
        _ => None,
    }
}

proof fn lemma_items_fault_stays(items: Seq<JsonView>, n: nat, m: nat)
    requires
        n <= m <= items.len(),
        items_fault(items, n) is Some,
    ensures
        items_fault(items, m) == items_fault(items, n),
    decreases m,
{
    if n < m {
        lemma_items_fault_stays(items, n, (m - 1) as nat);
    }
}

proof fn lemma_entries_fault_stays(entries: Seq<(Seq<char>, JsonView)>, n: nat, m: nat)
    requires
        n <= m <= entries.len(),
        entries_fault(entries, n) is Some,
    ensures
        entries_fault(entries, m) == entries_fault(entries, n),
    decreases m,
{
    if n < m {
        lemma_entries_fault_stays(entries, n, (m - 1) as nat);
    }
}

/// Decides whether the key at a position stands at an earlier position too.
fn key_before(entries: &Vec<(String, Json)>, n: usize) -> (r: bool)
    requires
        n < entries.len(),
    ensures
        r == has_key(entry_models(entries@).take(n as int), entry_models(entries@)[n as int].0),
{
    let ghost before = entry_models(entries@).take(n as int);
    let mut i: usize = 0;
    while i < n
        invariant
            i <= n,
            n < entries.len(),
            before == entry_models(entries@).take(n as int),
            forall|k: int| 0 <= k < i ==> (#[trigger] before[k]).0 != entries@[n as int].0@,
        decreases n - i,
    {
        assert(before[i as int].0 == entries@[i as int].0@);
        if text::same(entries[i].0.as_str(), entries[n].0.as_str()) {
            return true;
        }
        i = i + 1;
    }
    false
}

/// One entry put behind the entries whose keys are not after its own.
pub open spec fn placed(sorted: Seq<(Seq<char>, JsonView)>, entry: (Seq<char>, JsonView)) -> Seq<(Seq<char>, JsonView)>
    decreases sorted.len(),
{
    if sorted.len() == 0 || !text::text_lt(entry.0, sorted.last().0) {
        sorted.push(entry)
    } else {
        placed(sorted.drop_last(), entry).push(sorted.last())
    }
}

/// The entries in the order of their keys.
pub open spec fn by_key(entries: Seq<(Seq<char>, JsonView)>) -> Seq<(Seq<char>, JsonView)>
    decreases entries.len(),
{
    if entries.len() == 0 {
        Seq::empty()
    } else {
        placed(by_key(entries.drop_last()), entries.last())
    }
}

/// The keys do not decrease.
pub open spec fn keys_ordered(entries: Seq<(Seq<char>, JsonView)>) -> bool {
    forall|i: int, j: int| 0 <= i < j < entries.len() ==> !text::text_lt((#[trigger] entries[j]).0, (#[trigger] entries[i]).0)
}

proof fn lemma_placed(sorted: Seq<(Seq<char>, JsonView)>, entry: (Seq<char>, JsonView))
    requires
        keys_ordered(sorted),
    ensures
        keys_ordered(placed(sorted, entry)),
        placed(sorted, entry).len() == sorted.len() + 1,
        placed(sorted, entry).to_multiset() == sorted.to_multiset().insert(entry),
        forall|key: Seq<char>| (forall|i: int| 0 <= i < sorted.len() ==> !text::text_lt(key, (#[trigger] sorted[i]).0)) && !text::text_lt(key, entry.0)
            ==> (forall|i: int| 0 <= i < placed(sorted, entry).len() ==> !#[trigger] text::text_lt(key, placed(sorted, entry)[i].0)),
    decreases sorted.len(),
{
    broadcast use vstd::seq_lib::group_to_multiset_ensures;
    let result = placed(sorted, entry);
    if sorted.len() == 0 || !text::text_lt(entry.0, sorted.last().0) {
        assert forall|i: int, j: int| 0 <= i < j < result.len() implies !text::text_lt((#[trigger] result[j]).0, (#[trigger] result[i]).0) by {
            if j == sorted.len() {
                if text::text_lt(entry.0, sorted[i].0) {
                    let last = sorted.last().0;
                    if i < sorted.len() - 1 {
                        assert(!text::text_lt(sorted[sorted.len() - 1].0, sorted[i].0));
                    }
                    text::text_lt_strict_total(last, sorted[i].0);
                    if last != sorted[i].0 {
                        text::text_lt_transitive(entry.0, sorted[i].0, last);
                    }
                }
            }
        }
        assert(result =~= sorted.push(entry));
    } else {
        let rest = sorted.drop_last();
        let last = sorted.last();
        assert forall|i: int, j: int| 0 <= i < j < rest.len() implies !text::text_lt((#[trigger] rest[j]).0, (#[trigger] rest[i]).0) by {
            assert(!text::text_lt(sorted[j].0, sorted[i].0));
        }
        lemma_placed(rest, entry);
        let inner = placed(rest, entry);
        text::text_lt_strict_total(entry.0, last.0);
        assert forall|i: int| 0 <= i < rest.len() implies !text::text_lt(last.0, (#[trigger] rest[i]).0) by {
            assert(!text::text_lt(sorted[sorted.len() - 1].0, sorted[i].0));
        }
        assert(forall|i: int| 0 <= i < inner.len() ==> !#[trigger] text::text_lt(last.0, inner[i].0));
        assert forall|i: int, j: int| 0 <= i < j < result.len() implies !text::text_lt((#[trigger] result[j]).0, (#[trigger] result[i]).0) by {
            if j < inner.len() {
                assert(!text::text_lt(inner[j].0, inner[i].0));
            } else {
                assert(!text::text_lt(last.0, inner[i].0));
            }
        }
        assert(sorted =~= rest.push(last));
        assert(result.to_multiset() =~= sorted.to_multiset().insert(entry));
        assert forall|key: Seq<char>| (forall|i: int| 0 <= i < sorted.len() ==> !text::text_lt(key, (#[trigger] sorted[i]).0)) && !text::text_lt(key, entry.0)
            implies (forall|i: int| 0 <= i < result.len() ==> !#[trigger] text::text_lt(key, result[i].0)) by {
            assert forall|i: int| 0 <= i < rest.len() implies !text::text_lt(key, (#[trigger] rest[i]).0) by {
                assert(!text::text_lt(key, sorted[i].0));
            }
            assert(!text::text_lt(key, sorted[sorted.len() - 1].0));
            assert forall|i: int| 0 <= i < result.len() implies !#[trigger] text::text_lt(key, result[i].0) by {
                if i < inner.len() {
                    assert(!text::text_lt(key, inner[i].0));
                }
            }
        }
    }
}

/// Ordering the entries of an object by key keeps the entries and orders the keys.
pub proof fn by_key_orders(entries: Seq<(Seq<char>, JsonView)>)
    ensures
        keys_ordered(by_key(entries)),
        by_key(entries).len() == entries.len(),
        by_key(entries).to_multiset() == entries.to_multiset(),
    decreases entries.len(),
{
    broadcast use vstd::seq_lib::group_to_multiset_ensures;
    if entries.len() > 0 {
        by_key_orders(entries.drop_last());
        lemma_placed(by_key(entries.drop_last()), entries.last());
        assert(entries =~= entries.drop_last().push(entries.last()));
    }
}

/// The keys are pairwise different.
pub open spec fn keys_unique(entries: Seq<(Seq<char>, JsonView)>) -> bool {
    forall|i: int, j: int| 0 <= i < j < entries.len() ==> (#[trigger] entries[i]).0 != (#[trigger] entries[j]).0
}

proof fn lemma_ordered_unique(a: Seq<(Seq<char>, JsonView)>, b: Seq<(Seq<char>, JsonView)>)
    requires
        keys_ordered(a),
        keys_ordered(b),
        keys_unique(a),
        keys_unique(b),
        a.to_multiset() == b.to_multiset(),
    ensures
        a == b,
    decreases a.len(),
{
    broadcast use vstd::seq_lib::group_to_multiset_ensures;

    assert(a.len() == a.to_multiset().len() && b.len() == b.to_multiset().len());
    if a.len() == 0 {
        assert(a =~= b);
    } else {
        let x = a[0];
        let y = b[0];
        assert(a.contains(x) && b.contains(y));
        assert(a.to_multiset().count(x) > 0 && b.to_multiset().count(y) > 0);
        assert(b.contains(x) && a.contains(y));
        let k = choose|k: int| 0 <= k < b.len() && b[k] == x;
        let m = choose|m: int| 0 <= m < a.len() && a[m] == y;
        if k > 0 {
            assert(!text::text_lt(b[k].0, b[0].0));
            if m > 0 {
                assert(!text::text_lt(a[m].0, a[0].0));
            }
            text::text_lt_strict_total(x.0, y.0);
            assert(x.0 == y.0);
            assert(b[0].0 != b[k].0);
        }
        assert(x == y);
        let rest = a.drop_first();
        let other = b.drop_first();
        assert(a =~= seq![x] + rest && b =~= seq![x] + other);
        vstd::seq_lib::lemma_multiset_commutative(seq![x], rest);
        vstd::seq_lib::lemma_multiset_commutative(seq![x], other);
        assert(rest.to_multiset() =~= a.to_multiset().remove(x));
        assert(other.to_multiset() =~= b.to_multiset().remove(x));
        assert forall|i: int, j: int| 0 <= i < j < rest.len() implies !text::text_lt((#[trigger] rest[j]).0, (#[trigger] rest[i]).0) && rest[i].0
            != rest[j].0 by {
            assert(rest[i] == a[i + 1] && rest[j] == a[j + 1]);
        }
        assert forall|i: int, j: int| 0 <= i < j < other.len() implies !text::text_lt((#[trigger] other[j]).0, (#[trigger] other[i]).0)
            && other[i].0 != other[j].0 by {
            assert(other[i] == b[i + 1] && other[j] == b[j + 1]);
        }
        lemma_ordered_unique(rest, other);
    }
}

/// Two trees differ only in the order in which the fields of their objects are written, at any depth.
pub open spec fn reordered(value: JsonView, other: JsonView) -> bool
    decreases value,
{
    match (value, other) {
        (JsonView::List(items), JsonView::List(others)) => items.len() == others.len() && forall|i: int|
            0 <= i < items.len() ==> reordered(#[trigger] items[i], others[i]),
        (JsonView::Object(entries), JsonView::Object(others)) => {
            &&& entries.len() == others.len()
            &&& keys_unique(entries)
            &&& keys_unique(others)
            &&& forall|i: int|
                #![trigger entries[i]]
                0 <= i < entries.len() ==> exists|j: int|
                    #![trigger others[j]]
                    0 <= j < others.len() && others[j].0 == entries[i].0 && reordered(entries[i].1, others[j].1)
            &&& forall|j: int|
                #![trigger others[j]]
                0 <= j < others.len() ==> exists|i: int|
                    #![trigger entries[i]]
                    0 <= i < entries.len() && others[j].0 == entries[i].0 && reordered(entries[i].1, others[j].1)
        },
        _ => value == other,
    }
}

/// The order in which the fields of the objects in a tree are written, at any depth, does not change
/// its canonical tree.
pub proof fn canonical_ignores_field_order(value: JsonView, other: JsonView)
    requires
        reordered(value, other),
    ensures
        canonical(value) == canonical(other),
    decreases value,
{
    match (value, other) {
        (JsonView::List(items), JsonView::List(others)) => {
            let a = canonical_items(items);
            let b = canonical_items(others);
            assert forall|i: int| 0 <= i < a.len() implies a[i] == b[i] by {
                let inner = value->List_0;
                assert(reordered(inner[i], others[i]));
                canonical_ignores_field_order(items[i], others[i]);
            }
            assert(a =~= b);
        },
        (JsonView::Object(entries), JsonView::Object(others)) => {
            let a = canonical_entries(entries);
            let b = canonical_entries(others);
            assert forall|i: int, j: int| 0 <= i < j < a.len() implies (#[trigger] a[i]).0 != (#[trigger] a[j]).0 by {
                assert(entries[i].0 != entries[j].0);
            }
            assert forall|i: int, j: int| 0 <= i < j < b.len() implies (#[trigger] b[i]).0 != (#[trigger] b[j]).0 by {
                assert(others[i].0 != others[j].0);
            }
            assert forall|i: int| 0 <= i < a.len() implies b.contains(#[trigger] a[i]) by {
                let inner = value->Object_0;
                let entry = inner[i];
                let j = choose|j: int| 0 <= j < others.len() && (#[trigger] others[j]).0 == entry.0 && reordered(entry.1, others[j].1);
                canonical_ignores_field_order(entries[i].1, others[j].1);
                assert(b[j] == a[i]);
            }
            lemma_same_members(a, b);
            by_key_orders(a);
            by_key_orders(b);
            lemma_by_key_distinct(a);
            lemma_by_key_distinct(b);
            lemma_ordered_unique(by_key(a), by_key(b));
        },
        _ => {},
    }
}

proof fn lemma_same_members(a: Seq<(Seq<char>, JsonView)>, b: Seq<(Seq<char>, JsonView)>)
    requires
        keys_unique(a),
        keys_unique(b),
        a.len() == b.len(),
        forall|i: int| 0 <= i < a.len() ==> b.contains(#[trigger] a[i]),
    ensures
        a.to_multiset() == b.to_multiset(),
    decreases a.len(),
{
    broadcast use vstd::seq_lib::group_to_multiset_ensures;

    if a.len() == 0 {
        assert(a =~= b);
    } else {
        let last = a.last();
        assert(b.contains(a[a.len() - 1]));
        let k = choose|k: int| 0 <= k < b.len() && b[k] == last;
        let rest = a.drop_last();
        let shorter = b.remove(k);
        assert forall|i: int, j: int| 0 <= i < j < shorter.len() implies (#[trigger] shorter[i]).0 != (#[trigger] shorter[j]).0 by {
            let p = if i < k { i } else { i + 1 };
            let q = if j < k { j } else { j + 1 };
            assert(b[p].0 != b[q].0);
        }
        assert forall|i: int| 0 <= i < rest.len() implies shorter.contains(#[trigger] rest[i]) by {
            assert(b.contains(a[i]));
            let j = choose|j: int| 0 <= j < b.len() && b[j] == a[i];
            assert(a[i].0 != a[a.len() - 1].0);
            assert(shorter[if j < k { j } else { j - 1 }] == rest[i]);
        }
        assert forall|i: int, j: int| 0 <= i < j < rest.len() implies (#[trigger] rest[i]).0 != (#[trigger] rest[j]).0 by {
            assert(a[i].0 != a[j].0);
        }
        lemma_same_members(rest, shorter);
        assert(a =~= rest.push(last));
        vstd::seq_lib::to_multiset_remove(b, k);
        assert(b.to_multiset() =~= shorter.to_multiset().insert(last));
        assert(a.to_multiset() =~= rest.to_multiset().insert(last));
    }
}

/// A tree whose fields are written in another order is strict where the tree is.
pub proof fn reordered_is_strict(value: JsonView, other: JsonView)
    requires
        reordered(value, other),
        value.strict(),
    ensures
        other.strict(),
    decreases value,
{
    match (value, other) {
        (JsonView::List(items), JsonView::List(others)) => {
            let inner = value->List_0;
            assert forall|i: int| 0 <= i < others.len() implies (#[trigger] others[i]).authority_numbers() && others[i].distinct_keys() by {
                assert(inner[i].authority_numbers() && inner[i].distinct_keys());
                assert(reordered(inner[i], others[i]));
                reordered_is_strict(items[i], others[i]);
            }
        },
        (JsonView::Object(entries), JsonView::Object(others)) => {
            let inner = value->Object_0;
            assert forall|j: int| 0 <= j < others.len() implies (#[trigger] others[j]).1.authority_numbers() && others[j].1.distinct_keys() by {
                let entry = others[j];
                let i = choose|i: int| 0 <= i < entries.len() && (#[trigger] entries[i]).0 == entry.0 && reordered(entries[i].1, entry.1);
                assert(inner[i].1.authority_numbers() && inner[i].1.distinct_keys());
                reordered_is_strict(entries[i].1, others[j].1);
            }
        },
        _ => {},
    }
}

proof fn lemma_list_reordered(items: Seq<JsonView>, others: Seq<JsonView>)
    requires
        items.len() == others.len(),
        forall|i: int| 0 <= i < items.len() ==> reordered(#[trigger] items[i], others[i]),
    ensures
        reordered(JsonView::List(items), JsonView::List(others)),
{
    let value = JsonView::List(items);
    let inner = value->List_0;
    assert forall|i: int| 0 <= i < inner.len() implies reordered(#[trigger] inner[i], others[i]) by {
        assert(reordered(items[i], others[i]));
    }
}

proof fn lemma_object_reordered(entries: Seq<(Seq<char>, JsonView)>, mapped: Seq<(Seq<char>, JsonView)>)
    requires
        keys_unique(entries),
        mapped.len() == entries.len(),
        forall|i: int| 0 <= i < entries.len() ==> (#[trigger] mapped[i]).0 == entries[i].0 && reordered(entries[i].1, mapped[i].1),
    ensures
        reordered(JsonView::Object(entries), JsonView::Object(by_key(mapped))),
{
    assert forall|i: int, j: int| 0 <= i < j < mapped.len() implies (#[trigger] mapped[i]).0 != (#[trigger] mapped[j]).0 by {
        assert(entries[i].0 != entries[j].0);
    }
    by_key_orders(mapped);
    lemma_by_key_distinct(mapped);
    let value = JsonView::Object(entries);
    let other = JsonView::Object(by_key(mapped));
    let inner = value->Object_0;
    let outer = other->Object_0;
    assert(keys_unique(outer));
    assert forall|i: int| #![trigger inner[i]] 0 <= i < inner.len() implies exists|j: int|
        #![trigger outer[j]]
        0 <= j < outer.len() && outer[j].0 == inner[i].0 && reordered(inner[i].1, outer[j].1) by {
        broadcast use vstd::seq_lib::group_to_multiset_ensures;

        assert(mapped.contains(mapped[i]));
        assert(mapped.to_multiset().contains(mapped[i]));
        assert(outer.to_multiset().contains(mapped[i]));
        assert(outer.contains(mapped[i]));
        let j = choose|j: int| 0 <= j < outer.len() && outer[j] == mapped[i];
        assert(outer[j].0 == inner[i].0 && reordered(inner[i].1, outer[j].1));
    }
    assert forall|j: int| #![trigger outer[j]] 0 <= j < outer.len() implies exists|i: int|
        #![trigger inner[i]]
        0 <= i < inner.len() && outer[j].0 == inner[i].0 && reordered(inner[i].1, outer[j].1) by {
        let i = lemma_by_key_from(mapped, j);
        assert(outer[j].0 == inner[i].0 && reordered(inner[i].1, outer[j].1));
    }
    assert(reordered(value, other));
}

/// The canonical tree of a tree without repeated keys differs from it only in the order of fields.
pub proof fn canonical_only_reorders(value: JsonView)
    requires
        value.distinct_keys(),
    ensures
        reordered(value, canonical(value)),
    decreases value,
{
    if let JsonView::List(items) = value {
        let result = canonical_items(items);
        let inner = value->List_0;
        assert forall|i: int| 0 <= i < items.len() implies reordered(#[trigger] items[i], result[i]) by {
            assert(inner[i].distinct_keys());
            canonical_only_reorders(items[i]);
        }
        lemma_list_reordered(items, result);
    } else if let JsonView::Object(entries) = value {
        let mapped = canonical_entries(entries);
        let inner = value->Object_0;
        assert forall|i: int| 0 <= i < entries.len() implies (#[trigger] mapped[i]).0 == entries[i].0 && reordered(entries[i].1, mapped[i].1) by {
            assert(inner[i].1.distinct_keys());
            canonical_only_reorders(entries[i].1);
        }
        assert forall|i: int, j: int| 0 <= i < j < entries.len() implies (#[trigger] entries[i]).0 != (#[trigger] entries[j]).0 by {
            assert(inner[i].0 != inner[j].0);
        }
        lemma_object_reordered(entries, mapped);
    }
}

/// The tree with the entries of every object in the order of their keys.
pub open spec fn canonical(value: JsonView) -> JsonView
    decreases value,
{
    match value {
        JsonView::List(items) => JsonView::List(canonical_items(items)),
        JsonView::Object(entries) => JsonView::Object(by_key(canonical_entries(entries))),
        _ => value,
    }
}

/// The trees of a list, each in canonical order.
pub open spec fn canonical_items(items: Seq<JsonView>) -> Seq<JsonView>
    decreases items,
{
    Seq::new(
        items.len(),
        |i: int|
            if 0 <= i < items.len() {
                canonical(items[i])
            } else {
                JsonView::Null
            },
    )
}

/// The entries of an object, each value in canonical order.
pub open spec fn canonical_entries(entries: Seq<(Seq<char>, JsonView)>) -> Seq<(Seq<char>, JsonView)>
    decreases entries,
{
    Seq::new(
        entries.len(),
        |i: int|
            if 0 <= i < entries.len() {
                (entries[i].0, canonical(entries[i].1))
            } else {
                (Seq::empty(), JsonView::Null)
            },
    )
}

/// Puts one entry behind the entries whose keys are not after its own.
fn place(sorted: &mut Vec<(String, Json)>, key: String, value: Json)
    ensures
        entry_models(final(sorted)@) == placed(entry_models(old(sorted)@), (key@, value.model())),
{
    let ghost before = entry_models(sorted@);
    let ghost entry = (key@, value.model());
    let mut i: usize = sorted.len();
    let mut settled = false;
    proof {
        assert(before.take(i as int) =~= before);
        assert(placed(before, entry) =~= placed(before.take(i as int), entry) + before.skip(i as int));
    }
    while i > 0 && !settled
        invariant
            i <= sorted.len(),
            before == entry_models(sorted@),
            entry.0 == key@,
            settled ==> i > 0 && !text::text_lt(entry.0, before[i - 1].0),
            placed(before, entry) == placed(before.take(i as int), entry) + before.skip(i as int),
        decreases i + (if settled { 0int } else { 1int }),
    {
        assert(before[i - 1].0 == sorted@[i - 1].0@);
        match text::order(key.as_str(), sorted[i - 1].0.as_str()) {
            text::TextOrder::Before => {
                proof {
                    let part = before.take(i as int);
                    assert(part.last() == before[i - 1]);
                    assert(part.drop_last() =~= before.take(i - 1));
                    assert(placed(part, entry) == placed(part.drop_last(), entry).push(part.last()));
                    assert(placed(before, entry) =~= placed(before.take(i - 1), entry) + before.skip(i - 1));
                }
                i = i - 1;
            },
            _ => {
                settled = true;
            },
        }
    }
    proof {
        let part = before.take(i as int);
        if i > 0 {
            assert(part.last() == before[i - 1]);
        }
        assert(placed(part, entry) =~= part.push(entry));
    }
    sorted.insert(i, (key, value));
    proof {
        assert(entry_models(sorted@) =~= before.take(i as int).push(entry) + before.skip(i as int));
    }
}

/// Puts the entries of every object in the order of their keys.
pub fn canonicalize(value: Json) -> (r: Json)
    ensures
        r.model() == canonical(value.model()),
    decreases value,
{
    match value {
        Json::List(items) => {
            proof {
                list_model(items);
            }
            let ghost whole = items;
            let ghost trees = models(items@);
            let mut left = items;
            let mut done: Vec<Json> = Vec::new();
            while left.len() > 0
                invariant
                    whole@.len() == left@.len() + done@.len(),
                    trees == models(whole@),
                    left@ == whole@.skip(done@.len() as int),
                    value == Json::List(whole),
                    models(done@) == canonical_items(trees).take(done@.len() as int),
                decreases left.len(),
            {
                let ghost n = done@.len() as int;
                assert(left@[0] == whole@[n]);
                let item = left.remove(0);
                assert(item == whole@[n]);
                assert(decreases_to!(value => value->List_0));
                assert(decreases_to!(whole => whole@));
                assert(decreases_to!(whole@ => whole@[n]));
                done.push(canonicalize(item));
                proof {
                    assert(trees[n] == whole@[n].model());
                    assert(models(done@) =~= canonical_items(trees).take(n + 1));
                    assert(left@ =~= whole@.skip(n + 1));
                }
            }
            proof {
                assert(canonical_items(trees).take(trees.len() as int) =~= canonical_items(trees));
                list_model(done);
            }
            Json::List(done)
        },
        Json::Object(entries) => {
            proof {
                object_model(entries);
            }
            let ghost whole = entries;
            let ghost trees = canonical_entries(entry_models(entries@));
            let mut left = entries;
            let total: usize = left.len();
            let mut n: usize = 0;
            let mut done: Vec<(String, Json)> = Vec::new();
            assert(by_key(trees.take(0)) =~= entry_models(done@));
            while left.len() > 0
                invariant
                    whole@.len() == left@.len() + n,
                    whole@.len() == total,
                    trees == canonical_entries(entry_models(whole@)),
                    left@ == whole@.skip(n as int),
                    value == Json::Object(whole),
                    entry_models(done@) == by_key(trees.take(n as int)),
                decreases left.len(),
            {
                assert(left@[0] == whole@[n as int]);
                let (key, item) = left.remove(0);
                assert(item == whole@[n as int].1);
                assert(decreases_to!(value => value->Object_0));
                assert(decreases_to!(whole => whole@));
                assert(decreases_to!(whole@ => whole@[n as int]));
                assert(decreases_to!(whole@[n as int] => whole@[n as int].1));
                let value = canonicalize(item);
                place(&mut done, key, value);
                proof {
                    let part = trees.take(n + 1);
                    assert(part.drop_last() =~= trees.take(n as int));
                    assert(entry_models(whole@)[n as int] == (whole@[n as int].0@, whole@[n as int].1.model()));
                    assert(part.last() == (key@, value.model()));
                    assert(left@ =~= whole@.skip(n + 1));
                }
                n = n + 1;
            }
            proof {
                assert(trees.take(trees.len() as int) =~= trees);
                object_model(done);
            }
            Json::Object(done)
        },
        other => other,
    }
}

proof fn lemma_by_key_from(entries: Seq<(Seq<char>, JsonView)>, i: int) -> (k: int)
    requires
        0 <= i < by_key(entries).len(),
    ensures
        0 <= k < entries.len(),
        by_key(entries)[i] == entries[k],
{
    broadcast use vstd::seq_lib::group_to_multiset_ensures;
    by_key_orders(entries);
    let entry = by_key(entries)[i];
    assert(by_key(entries).contains(entry));
    assert(by_key(entries).to_multiset().contains(entry));
    assert(entries.to_multiset().contains(entry));
    assert(entries.contains(entry));
    choose|k: int| 0 <= k < entries.len() && entries[k] == entry
}

/// Distinct keys stay distinct when the entries are ordered by key.
proof fn lemma_by_key_distinct(entries: Seq<(Seq<char>, JsonView)>)
    requires
        forall|i: int, j: int| 0 <= i < j < entries.len() ==> (#[trigger] entries[i]).0 != (#[trigger] entries[j]).0,
    ensures
        forall|i: int, j: int| 0 <= i < j < by_key(entries).len() ==> (#[trigger] by_key(entries)[i]).0 != (#[trigger] by_key(entries)[j]).0,
{
    broadcast use vstd::seq_lib::group_to_multiset_ensures;
    by_key_orders(entries);
    let sorted = by_key(entries);
    assert forall|i: int, j: int| 0 <= i < j < sorted.len() implies (#[trigger] sorted[i]).0 != (#[trigger] sorted[j]).0 by {
        let a = lemma_by_key_from(entries, i);
        let b = lemma_by_key_from(entries, j);
        if sorted[i].0 == sorted[j].0 {
            assert(a == b) by {
                if a < b {
                    assert(entries[a].0 != entries[b].0);
                }
                if b < a {
                    assert(entries[b].0 != entries[a].0);
                }
            }
            assert(sorted[i] == sorted[j]);
            lemma_twice(sorted, i, j);
            lemma_once(entries, a);
        }
    }
}

proof fn lemma_twice(s: Seq<(Seq<char>, JsonView)>, i: int, j: int)
    requires
        0 <= i < j < s.len(),
        s[i] == s[j],
    ensures
        s.to_multiset().count(s[i]) >= 2,
{
    broadcast use vstd::seq_lib::group_to_multiset_ensures;
    let a = s.take(j);
    let b = s.skip(j);
    assert(s =~= a + b);
    vstd::seq_lib::lemma_multiset_commutative(a, b);
    assert(a[i] == s[i]);
    assert(b[0] == s[j]);
    assert(a.contains(s[i]));
    assert(b.contains(s[i]));
    assert(a.to_multiset().contains(s[i]));
    assert(b.to_multiset().contains(s[i]));
}

proof fn lemma_once(s: Seq<(Seq<char>, JsonView)>, a: int)
    requires
        0 <= a < s.len(),
        forall|i: int, j: int| 0 <= i < j < s.len() ==> (#[trigger] s[i]).0 != (#[trigger] s[j]).0,
    ensures
        s.to_multiset().count(s[a]) == 1,
{
    broadcast use vstd::seq_lib::group_to_multiset_ensures;
    assert forall|i: int, j: int| 0 <= i < s.len() && 0 <= j < s.len() && i != j implies s[i] != s[j] by {
        if i < j {
            assert(s[i].0 != s[j].0);
        } else {
            assert(s[j].0 != s[i].0);
        }
    }
    assert(s.no_duplicates());
    s.lemma_multiset_has_no_duplicates();
    assert(s.contains(s[a]));
    assert(s.to_multiset().contains(s[a]));
}

/// Canonical order keeps a strict tree sound.
pub proof fn canonical_is_sound(value: JsonView)
    requires
        value.strict(),
    ensures
        canonical(value).sound(),
    decreases value,
{
    match value {
        JsonView::List(items) => {
            let result = canonical_items(items);
            assert forall|i: int| 0 <= i < result.len() implies (#[trigger] result[i]).sound() by {
                let inner = value->List_0;
                assert(inner[i].authority_numbers() && inner[i].distinct_keys());
                canonical_is_sound(items[i]);
            }
        },
        JsonView::Object(entries) => {
            let mapped = canonical_entries(entries);
            let inner = value->Object_0;
            assert forall|i: int, j: int| 0 <= i < j < mapped.len() implies (#[trigger] mapped[i]).0 != (#[trigger] mapped[j]).0 by {
                assert(inner[i].0 != inner[j].0);
            }
            lemma_by_key_distinct(mapped);
            by_key_orders(mapped);
            let result = by_key(mapped);
            assert forall|i: int| 0 <= i < result.len() implies (#[trigger] result[i]).1.sound() by {
                let k = lemma_by_key_from(mapped, i);
                assert(inner[k].1.authority_numbers() && inner[k].1.distinct_keys());
                canonical_is_sound(entries[k].1);
            }
        },
        _ => {},
    }
}

/// The JSON tree that a `serde_json` value holds.
pub uninterp spec fn value_tree(value: serde_json::Value) -> JsonView;

/// The compact notation that `serde_json` writes for a tree.
pub uninterp spec fn compact_json(tree: JsonView) -> Seq<u8>;

/// What `serde_json` reads from bytes: the tree of the one JSON document that they are, or the text of
/// the error.
pub uninterp spec fn read_json(bytes: Seq<u8>) -> Result<JsonView, Seq<char>>;

/// The bytes read as a tree, wherever it is one that can be read back at all.
pub open spec fn reads_as(bytes: Seq<u8>, tree: JsonView) -> bool {
    tree.readable() ==> read_json(bytes) == Ok::<JsonView, Seq<char>>(tree)
}

/// Reads off the tree that a `serde_json::Value` holds: its variants, its numbers by
/// `as_u64` and `as_i64`, and the entries of its maps in their order. A map has no key twice.
#[verifier::external_body]
pub(crate) fn json_of(value: &serde_json::Value) -> (r: Json)
    ensures
        r.model() == value_tree(*value),
        r.model().sound(),
{
    match value {
        Value::Null => Json::Null,
        Value::Bool(flag) => Json::Bool(*flag),
        Value::Number(number) => match (number.as_u64(), number.as_i64()) {
            (Some(value), _) => Json::Unsigned(value),
            (None, Some(value)) => Json::Negative(value),
            _ => Json::Fraction(Fraction { number: number.clone() }),
        },
        Value::String(value) => Json::Text(value.clone()),
        Value::Array(items) => Json::List(items.iter().map(json_of).collect()),
        Value::Object(map) => Json::Object(map.iter().map(|(key, value)| (key.clone(), json_of(value))).collect()),
    }
}

/// Builds the `serde_json::Value` that holds a tree. The maps keep the order in which entries
/// are inserted (the `preserve_order` feature of `serde_json`).
#[verifier::external_body]
pub(crate) fn value_of(json: &Json) -> (r: serde_json::Value)
    requires
        json.model().sound(),
    ensures
        value_tree(r) == json.model(),
{
    match json {
        Json::Null => Value::Null,
        Json::Bool(flag) => Value::Bool(*flag),
        Json::Unsigned(value) => Value::from(*value),
        Json::Negative(value) => Value::from(*value),
        Json::Fraction(value) => Value::Number(value.number.clone()),
        Json::Text(value) => Value::String(value.clone()),
        Json::List(items) => Value::Array(items.iter().map(value_of).collect()),
        Json::Object(entries) => Value::Object(entries.iter().map(|(key, value)| (key.clone(), value_of(value))).collect()),
    }
}

/// `serde_json::to_vec` on a value writes its tree in compact notation. Writing a value into
/// memory does not fail: its keys are text and a byte vector accepts every write. What was written
/// reads back as the same tree, if it is nested less deep than the reader's limit of 128, has integers
/// only (a fraction can come back as a neighbouring double), and has no key that marks a raw value.
#[verifier::external_body]
pub(crate) fn value_to_vec(value: &serde_json::Value) -> (r: Result<Vec<u8>, serde_json::Error>)
    ensures
        r is Ok,
        r->Ok_0@ == compact_json(value_tree(*value)),
        reads_as(r->Ok_0@, value_tree(*value)),
{
    serde_json::to_vec(value)
}

/// `serde_json::to_string` on a value writes the same bytes as `serde_json::to_vec`, as text.
#[verifier::external_body]
pub(crate) fn value_to_string(value: &serde_json::Value) -> (r: Result<String, serde_json::Error>)
    ensures
        r is Ok,
        vstd::utf8::encode_utf8(r->Ok_0@) == compact_json(value_tree(*value)),
{
    serde_json::to_string(value)
}

/// `serde_json::from_slice` reads one JSON document into a value, or fails with an error, which is
/// given by its text.
#[verifier::external_body]
pub(crate) fn value_from_slice(bytes: &[u8]) -> (r: Result<serde_json::Value, String>)
    ensures
        r is Ok <==> read_json(bytes@) is Ok,
        r is Ok ==> read_json(bytes@) == Ok::<JsonView, Seq<char>>(value_tree(r->Ok_0)),
        r is Err ==> read_json(bytes@) == Err::<JsonView, Seq<char>>(r->Err_0@),
{
    serde_json::from_slice(bytes).map_err(|error| error.to_string())
}

/// The compact notation of a tree.
pub fn to_compact(json: &Json) -> (r: Vec<u8>)
    requires
        json.model().sound(),
    ensures
        r@ == compact_json(json.model()),
        reads_as(r@, json.model()),
{
    match value_to_vec(&value_of(json)) {
        Ok(bytes) => bytes,
        Err(_) => Vec::new(),
    }
}

/// The compact notation of a tree, as text.
pub fn to_text(json: &Json) -> (r: String)
    requires
        json.model().sound(),
    ensures
        vstd::utf8::encode_utf8(r@) == compact_json(json.model()),
{
    value_to_string(&value_of(json)).unwrap()
}

/// The position of the entry with a key, if one has it.
pub open spec fn key_position(entries: Seq<(Seq<char>, JsonView)>, key: Seq<char>) -> int {
    choose|i: int| 0 <= i < entries.len() && (#[trigger] entries[i]).0 == key
}

/// The value that an object holds under a key.
pub open spec fn member(value: JsonView, key: Seq<char>) -> Option<JsonView> {
    match value {
        JsonView::Object(entries) => if has_key(entries, key) {
            Some(entries[key_position(entries, key)].1)
        } else {
            None
        },
        _ => None,
    }
}

/// Finds the value that an object holds under a key.
pub fn get<'a>(value: &'a Json, key: &str) -> (r: Option<&'a Json>)
    requires
        value.model().distinct_keys(),
    ensures
        match r {
            Some(found) => member(value.model(), key@) == Some(found.model()) && (value.model().sound() ==> found.model().sound()),
            None => member(value.model(), key@) is None,
        },
{
    match value {
        Json::Object(entries) => {
            proof {
                object_model(*entries);
            }
            let ghost trees = entry_models(entries@);
            let mut i: usize = 0;
            while i < entries.len()
                invariant
                    i <= entries.len(),
                    trees == entry_models(entries@),
                    value.model() == JsonView::Object(trees),
                    value.model().distinct_keys(),
                    forall|k: int| 0 <= k < i ==> (#[trigger] trees[k]).0 != key@,
                decreases entries.len() - i,
            {
                assert(trees[i as int] == (entries@[i as int].0@, entries@[i as int].1.model()));
                if text::same(entries[i].0.as_str(), key) {
                    proof {
                        let inner = value.model()->Object_0;
                        assert(inner[i as int].0 == key@);
                        let p = key_position(trees, key@);
                        assert(trees[p].0 == key@);
                        if p < i {
                            assert(inner[p].0 != inner[i as int].0);
                        } else if i < p {
                            assert(inner[i as int].0 != inner[p].0);
                        }
                        if value.model().sound() {
                            assert(inner[i as int].1.distinct_keys() && inner[i as int].1.signed_below_zero());
                        }
                    }
                    return Some(&entries[i].1);
                }
                i = i + 1;
            }
            None
        },
        _ => None,
    }
}

/// Reads one JSON document, or tells why the bytes are none.
pub fn from_bytes(bytes: &[u8]) -> (r: Result<Json, String>)
    ensures
        match r {
            Ok(json) => read_json(bytes@) == Ok::<JsonView, Seq<char>>(json.model()) && json.model().sound(),
            Err(detail) => read_json(bytes@) == Err::<JsonView, Seq<char>>(detail@),
        },
{
    match value_from_slice(bytes) {
        Ok(value) => Ok(json_of(&value)),
        Err(detail) => Err(detail),
    }
}

} // verus!
