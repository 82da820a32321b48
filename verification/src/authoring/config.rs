//! Configuration Schemas derived from typed fields, and package defaults checked against a Schema.
use vstd::prelude::*;
use vstd::string::*;

use crate::authoring::shape::{single_argument, single_type_argument, TypeShape};
use crate::authoring::{refused, AuthoringError};
use crate::json;
use crate::json::{entry_models, key_position, list_model, member, models, object_model, Json, JsonView};
use crate::text;
use crate::text::decimal;

verus! {

/// The double that `serde_json` gives for a number: its bits and its decimal notation.
pub uninterp spec fn double(tree: JsonView) -> Option<(u64, Seq<char>)>;

/// The tree is a number.
pub open spec fn is_number(tree: JsonView) -> bool {
    tree is Unsigned || tree is Negative || tree is Fraction
}

/// The tree is an integer of 64 bits.
pub open spec fn is_integer(tree: JsonView) -> bool {
    tree is Unsigned || tree is Negative
}

/// The bits and the decimal notation of a double.
pub open spec fn noted_double(noted: Option<(u64, String)>) -> Option<(u64, Seq<char>)> {
    match noted {
        Some((bits, notation)) => Some((bits, notation@)),
        None => None,
    }
}

/// `serde_json::Value::as_f64` gives a double for every number, and nothing for anything else; here it
/// is given by its bits and its decimal notation.
#[verifier::external_body]
fn number_double(value: &serde_json::Value) -> (r: Option<(u64, String)>)
    ensures
        noted_double(r) == double(json::value_tree(*value)),
        r is Some == is_number(json::value_tree(*value)),
{
    value.as_f64().map(|number| (number.to_bits(), number.to_string()))
}

/// Where a finite double stands in the order of the doubles: its bits without the sign, taken below
/// zero where the sign is set. Both zeros stand at the same place.
pub open spec fn double_rank(bits: u64) -> int {
    if bits >= 0x8000_0000_0000_0000 {
        -(bits - 0x8000_0000_0000_0000)
    } else {
        bits as int
    }
}

/// Computes where a finite double stands in the order of the doubles.
fn rank(bits: u64) -> (r: i128)
    ensures
        r == double_rank(bits),
{
    if bits >= 0x8000_0000_0000_0000 {
        -((bits - 0x8000_0000_0000_0000) as i128)
    } else {
        bits as i128
    }
}

/// The number of the first tree is below that of the second.
pub open spec fn below(a: JsonView, b: JsonView) -> bool {
    double_rank(double(a)->Some_0.0) < double_rank(double(b)->Some_0.0)
}

/// Decides whether one number is below another.
fn is_below(a: &Json, b: &Json) -> (r: bool)
    requires
        a.model().sound(),
        b.model().sound(),
        is_number(a.model()),
        is_number(b.model()),
    ensures
        r == below(a.model(), b.model()),
{
    let x: u64 = number_double(&json::value_of(a)).unwrap().0;
    let y: u64 = number_double(&json::value_of(b)).unwrap().0;
    rank(x) < rank(y)
}

/// Two trees are equal: objects whatever the order of their entries, and fractions by their doubles.
pub open spec fn same_tree(a: JsonView, b: JsonView) -> bool
    decreases a,
{
    match (a, b) {
        (JsonView::Null, JsonView::Null) => true,
        (JsonView::Bool(x), JsonView::Bool(y)) => x == y,
        (JsonView::Unsigned(x), JsonView::Unsigned(y)) => x == y,
        (JsonView::Negative(x), JsonView::Negative(y)) => x == y,
        (JsonView::Fraction(_), JsonView::Fraction(_)) => double_rank(double(a)->Some_0.0) == double_rank(double(b)->Some_0.0),
        (JsonView::Text(x), JsonView::Text(y)) => x == y,
        (JsonView::List(x), JsonView::List(y)) => x.len() == y.len() && forall|i: int|
            0 <= i < x.len() ==> same_tree(#[trigger] x[i], y[i]),
        (JsonView::Object(x), JsonView::Object(y)) => x.len() == y.len() && forall|i: int|
            0 <= i < x.len() ==> member(b, (#[trigger] x[i]).0) is Some && same_tree(x[i].1, member(b, x[i].0)->Some_0),
        _ => false,
    }
}

/// Decides whether two trees are equal.
pub fn equal_json(a: &Json, b: &Json) -> (r: bool)
    requires
        a.model().sound(),
        b.model().sound(),
    ensures
        r == same_tree(a.model(), b.model()),
    decreases a,
{
    match (a, b) {
        (Json::Null, Json::Null) => true,
        (Json::Bool(x), Json::Bool(y)) => *x == *y,
        (Json::Unsigned(x), Json::Unsigned(y)) => *x == *y,
        (Json::Negative(x), Json::Negative(y)) => *x == *y,
        (Json::Fraction(_), Json::Fraction(_)) => {
            let x: u64 = number_double(&json::value_of(a)).unwrap().0;
            let y: u64 = number_double(&json::value_of(b)).unwrap().0;
            rank(x) == rank(y)
        },
        (Json::Text(x), Json::Text(y)) => text::same(x.as_str(), y.as_str()),
        (Json::List(x), Json::List(y)) => {
            proof {
                list_model(*x);
                list_model(*y);
            }
            let ghost left = models(x@);
            let ghost right = models(y@);
            if x.len() != y.len() {
                return false;
            }
            let mut i: usize = 0;
            while i < x.len()
                invariant
                    i <= x.len() == y.len(),
                    *a == Json::List(*x),
                    left == models(x@),
                    right == models(y@),
                    a.model() == JsonView::List(left),
                    b.model() == JsonView::List(right),
                    a.model().sound(),
                    b.model().sound(),
                    forall|k: int| 0 <= k < i ==> same_tree(#[trigger] left[k], right[k]),
                decreases x.len() - i,
            {
                proof {
                    assert(left[i as int] == x@[i as int].model() && right[i as int] == y@[i as int].model());
                    let inner = a.model()->List_0;
                    let other = b.model()->List_0;
                    assert(inner[i as int].distinct_keys() && inner[i as int].signed_below_zero());
                    assert(other[i as int].distinct_keys() && other[i as int].signed_below_zero());
                    assert(decreases_to!(a => a->List_0));
                }
                if !equal_json(&x[i], &y[i]) {
                    proof {
                        let inner = a.model()->List_0;
                        assert(!same_tree(inner[i as int], right[i as int]));
                    }
                    return false;
                }
                i = i + 1;
            }
            true
        },
        (Json::Object(x), Json::Object(y)) => {
            proof {
                object_model(*x);
                object_model(*y);
            }
            let ghost left = entry_models(x@);
            if x.len() != y.len() {
                return false;
            }
            let mut i: usize = 0;
            while i < x.len()
                invariant
                    i <= x.len() == y.len(),
                    *a == Json::Object(*x),
                    left == entry_models(x@),
                    a.model() == JsonView::Object(left),
                    b.model() == JsonView::Object(entry_models(y@)),
                    a.model().sound(),
                    b.model().sound(),
                    forall|k: int|
                        0 <= k < i ==> member(b.model(), (#[trigger] left[k]).0) is Some && same_tree(
                            left[k].1,
                            member(b.model(), left[k].0)->Some_0,
                        ),
                decreases x.len() - i,
            {
                proof {
                    assert(left[i as int] == (x@[i as int].0@, x@[i as int].1.model()));
                    let inner = a.model()->Object_0;
                    assert(inner[i as int].1.distinct_keys() && inner[i as int].1.signed_below_zero());
                    assert(decreases_to!(a => a->Object_0));
                }
                let same: bool = match json::get(b, x[i].0.as_str()) {
                    None => false,
                    Some(other) => equal_json(&x[i].1, other),
                };
                if !same {
                    proof {
                        let inner = a.model()->Object_0;
                        assert(!(member(b.model(), inner[i as int].0) is Some && same_tree(
                            inner[i as int].1,
                            member(b.model(), inner[i as int].0)->Some_0,
                        )));
                    }
                    return false;
                }
                i = i + 1;
            }
            true
        },
        _ => false,
    }
}

/// A value is one of a field's type.
pub open spec fn matches_schema(value: JsonView, schema: JsonView) -> bool
    decreases value,
{
    match member(schema, "type"@) {
        Some(JsonView::Text(kind)) => if kind == "array"@ {
            match (value, member(schema, "items"@)) {
                (JsonView::List(items), Some(inner)) => forall|i: int| 0 <= i < items.len() ==> matches_schema(#[trigger] items[i], inner),
                _ => false,
            }
        } else if kind == "boolean"@ {
            value is Bool
        } else if kind == "integer"@ {
            is_integer(value)
        } else if kind == "number"@ {
            is_number(value)
        } else if kind == "string"@ {
            value is Text
        } else {
            false
        },
        _ => false,
    }
}

proof fn kinds_differ()
    ensures
        "array"@ != "boolean"@,
        "array"@ != "integer"@,
        "array"@ != "null"@,
        "array"@ != "number"@,
        "array"@ != "object"@,
        "array"@ != "string"@,
        "boolean"@ != "integer"@,
        "boolean"@ != "null"@,
        "boolean"@ != "number"@,
        "boolean"@ != "object"@,
        "boolean"@ != "string"@,
        "integer"@ != "null"@,
        "integer"@ != "number"@,
        "integer"@ != "object"@,
        "integer"@ != "string"@,
        "null"@ != "number"@,
        "null"@ != "object"@,
        "null"@ != "string"@,
        "number"@ != "object"@,
        "number"@ != "string"@,
        "object"@ != "string"@,
{
    reveal_strlit("array");
    reveal_strlit("boolean");
    reveal_strlit("integer");
    reveal_strlit("null");
    reveal_strlit("number");
    reveal_strlit("object");
    reveal_strlit("string");
    assert("array"@.len() == 5 && "boolean"@.len() == 7 && "integer"@.len() == 7 && "null"@.len() == 4);
    assert("number"@.len() == 6 && "object"@.len() == 6 && "string"@.len() == 6);
    assert("boolean"@[0] == 'b' && "integer"@[0] == 'i');
    assert("number"@[0] == 'n' && "object"@[0] == 'o' && "string"@[0] == 's');
}

/// Each type of a Schema is that of the values that it names, a number being an integer or not.
pub proof fn each_type_has_its_values(value: JsonView)
    ensures
        type_fits(value, "array"@) <==> value is List,
        type_fits(value, "boolean"@) <==> value is Bool,
        type_fits(value, "integer"@) <==> value is Unsigned || value is Negative,
        type_fits(value, "null"@) <==> value is Null,
        type_fits(value, "number"@) <==> value is Unsigned || value is Negative || value is Fraction,
        type_fits(value, "object"@) <==> value is Object,
        type_fits(value, "string"@) <==> value is Text,
{
    kinds_differ();
}

/// The Schema of a plain type accepts the values of that type, and that of a list accepts lists of what
/// its items accept. So does a field's default.
pub proof fn a_type_schema_accepts_its_values(value: JsonView, inner: JsonView)
    ensures
        matches_schema(value, type_only("boolean"@)) <==> value is Bool,
        matches_schema(value, type_only("integer"@)) <==> value is Unsigned || value is Negative,
        matches_schema(value, type_only("number"@)) <==> value is Unsigned || value is Negative || value is Fraction,
        matches_schema(value, type_only("string"@)) <==> value is Text,
        matches_schema(value, list_schema(inner)) <==> (value matches JsonView::List(items) && forall|i: int|
            0 <= i < items.len() ==> matches_schema(#[trigger] items[i], inner)),
{
    kinds_differ();
    reveal_strlit("type");
    reveal_strlit("items");
    assert("type"@.len() != "items"@.len());
    assert(member(type_only("boolean"@), "type"@) == Some(JsonView::Text("boolean"@))) by {
        assert(type_only("boolean"@)->Object_0[0].0 == "type"@);
    }
    assert(member(type_only("integer"@), "type"@) == Some(JsonView::Text("integer"@))) by {
        assert(type_only("integer"@)->Object_0[0].0 == "type"@);
    }
    assert(member(type_only("number"@), "type"@) == Some(JsonView::Text("number"@))) by {
        assert(type_only("number"@)->Object_0[0].0 == "type"@);
    }
    assert(member(type_only("string"@), "type"@) == Some(JsonView::Text("string"@))) by {
        assert(type_only("string"@)->Object_0[0].0 == "type"@);
    }
    let listed = list_schema(inner);
    assert(listed->Object_0[0].0 == "type"@ && listed->Object_0[1].0 == "items"@);
    assert(member(listed, "type"@) == Some(JsonView::Text("array"@)));
    assert(member(listed, "items"@) == Some(inner));
}

/// Decides whether a value is one of a field's type.
pub fn configuration_value_matches_schema(value: &Json, schema: &Json) -> (r: bool)
    requires
        schema.model().sound(),
    ensures
        r == matches_schema(value.model(), schema.model()),
    decreases value,
{
    let kind = match json::get(schema, "type") {
        Some(Json::Text(kind)) => kind.as_str(),
        _ => return false,
    };
    if text::same(kind, "array") {
        let inner = match json::get(schema, "items") {
            Some(inner) => inner,
            None => return false,
        };
        match value {
            Json::List(items) => {
                proof {
                    list_model(*items);
                }
                let ghost trees = models(items@);
                let mut i: usize = 0;
                while i < items.len()
                    invariant
                        i <= items.len(),
                        *value == Json::List(*items),
                        trees == models(items@),
                        value.model() == JsonView::List(trees),
                        inner.model().sound(),
                        forall|k: int| 0 <= k < i ==> matches_schema(#[trigger] trees[k], inner.model()),
                        kind@ == "array"@,
                        member(schema.model(), "type"@) == Some(JsonView::Text(kind@)),
                        member(schema.model(), "items"@) == Some(inner.model()),
                    decreases items.len() - i,
                {
                    proof {
                        assert(trees[i as int] == items@[i as int].model());
                        assert(decreases_to!(value => value->List_0));
                    }
                    if !configuration_value_matches_schema(&items[i], inner) {
                        proof {
                            let listed = value.model()->List_0;
                            assert(!matches_schema(listed[i as int], inner.model()));
                        }
                        return false;
                    }
                    i = i + 1;
                }
                true
            },
            _ => false,
        }
    } else if text::same(kind, "boolean") {
        matches!(value, Json::Bool(_))
    } else if text::same(kind, "integer") {
        matches!(value, Json::Unsigned(_) | Json::Negative(_))
    } else if text::same(kind, "number") {
        matches!(value, Json::Unsigned(_) | Json::Negative(_) | Json::Fraction(_))
    } else if text::same(kind, "string") {
        matches!(value, Json::Text(_))
    } else {
        false
    }
}

/// A value is of a type that a Schema names.
pub open spec fn type_fits(value: JsonView, kind: Seq<char>) -> bool {
    ||| kind == "array"@ && value is List
    ||| kind == "boolean"@ && value is Bool
    ||| kind == "integer"@ && is_integer(value)
    ||| kind == "null"@ && value is Null
    ||| kind == "number"@ && is_number(value)
    ||| kind == "object"@ && value is Object
    ||| kind == "string"@ && value is Text
}

/// Decides whether a value is of a type that a Schema names.
fn fits_type(value: &Json, kind: &str) -> (r: bool)
    ensures
        r == type_fits(value.model(), kind@),
{
    proof {
        kinds_differ();
    }
    if text::same(kind, "array") {
        matches!(value, Json::List(_))
    } else if text::same(kind, "boolean") {
        matches!(value, Json::Bool(_))
    } else if text::same(kind, "integer") {
        matches!(value, Json::Unsigned(_) | Json::Negative(_))
    } else if text::same(kind, "null") {
        matches!(value, Json::Null)
    } else if text::same(kind, "number") {
        matches!(value, Json::Unsigned(_) | Json::Negative(_) | Json::Fraction(_))
    } else if text::same(kind, "object") {
        matches!(value, Json::Object(_))
    } else if text::same(kind, "string") {
        matches!(value, Json::Text(_))
    } else {
        false
    }
}

/// A Schema marks a value as sensitive.
pub open spec fn is_sensitive(schema: JsonView) -> bool {
    member(schema, "x-lenso-sensitive"@) == Some(JsonView::Bool(true))
}

/// Why a default does not meet what a Schema says of the value itself.
pub open spec fn own_fault(value: JsonView, schema: JsonView, path: Seq<char>) -> Option<Seq<char>> {
    if !(schema is Object) {
        Some(path + ": configuration Schema must be an object"@)
    } else if is_sensitive(schema) {
        Some(path + ": sensitive configuration cannot have a package default"@)
    } else if member(schema, "type"@) is Some && member(schema, "type"@)->Some_0 is Text && !type_fits(
        value,
        member(schema, "type"@)->Some_0->Text_0,
    ) {
        Some(path + ": default does not match Schema type `"@ + member(schema, "type"@)->Some_0->Text_0 + "`"@)
    } else if member(schema, "minimum"@) is Some && is_number(value) && !is_number(member(schema, "minimum"@)->Some_0) {
        Some(path + ": Schema minimum must be a number"@)
    } else if member(schema, "minimum"@) is Some && is_number(value) && below(value, member(schema, "minimum"@)->Some_0) {
        Some(path + ": default must be greater than or equal to "@ + double(member(schema, "minimum"@)->Some_0)->Some_0.1)
    } else if member(schema, "const"@) is Some && !same_tree(value, member(schema, "const"@)->Some_0) {
        Some(path + ": default does not match Schema const"@)
    } else if member(schema, "enum"@) is Some && !(member(schema, "enum"@)->Some_0 is List) {
        Some(path + ": Schema enum must be an array"@)
    } else if member(schema, "enum"@) is Some && !(exists|i: int|
        0 <= i < member(schema, "enum"@)->Some_0->List_0.len() && same_tree(
            #[trigger] member(schema, "enum"@)->Some_0->List_0[i],
            value,
        )) {
        Some(path + ": default is not in Schema enum"@)
    } else if value is Object && member(schema, "properties"@) is Some && !(member(schema, "properties"@)->Some_0 is Object) {
        Some(path + ": Schema properties must be an object"@)
    } else {
        None
    }
}

/// Why a package default does not meet a Schema: the first fault in document order.
pub open spec fn default_fault(value: JsonView, schema: JsonView, path: Seq<char>) -> Option<Seq<char>>
    decreases value, 0nat,
{
    match own_fault(value, schema, path) {
        Some(detail) => Some(detail),
        None => match value {
            JsonView::Object(entries) => entries_default_fault(entries, schema, path, entries.len()),
            JsonView::List(items) => match member(schema, "items"@) {
                Some(item_schema) => items_default_fault(items, item_schema, path, items.len()),
                None => None,
            },
            _ => None,
        },
    }
}

/// The Schema that holds for a property; none where any value goes.
pub enum PropertyRule {
    Schema(JsonView),
    Forbidden,
    Any,
}

/// What a Schema says of a property.
pub open spec fn property_rule(schema: JsonView, name: Seq<char>) -> PropertyRule {
    let properties = match member(schema, "properties"@) {
        Some(found) => found,
        None => JsonView::Null,
    };
    match member(properties, name) {
        Some(rule) => PropertyRule::Schema(rule),
        None => match member(schema, "additionalProperties"@) {
            Some(JsonView::Bool(allowed)) => if allowed {
                PropertyRule::Any
            } else {
                PropertyRule::Forbidden
            },
            Some(JsonView::Object(additional)) => PropertyRule::Schema(JsonView::Object(additional)),
            _ => PropertyRule::Any,
        },
    }
}

/// The fault of one property.
pub open spec fn entries_default_fault(entries: Seq<(Seq<char>, JsonView)>, schema: JsonView, path: Seq<char>, n: nat) -> Option<Seq<char>>
    decreases entries, n,
{
    if n == 0 || n > entries.len() {
        None
    } else {
        match entries_default_fault(entries, schema, path, (n - 1) as nat) {
            Some(detail) => Some(detail),
            None => {
                let (name, child) = entries[n - 1];
                match property_rule(schema, name) {
                    PropertyRule::Schema(rule) => default_fault(entries[n - 1].1, rule, path + "."@ + name),
                    PropertyRule::Forbidden => Some(path + "."@ + name + ": additional property is not allowed"@),
                    PropertyRule::Any => None,
                }
            },
        }
    }
}

/// The first fault among the first `n` items.
pub open spec fn items_default_fault(items: Seq<JsonView>, schema: JsonView, path: Seq<char>, n: nat) -> Option<Seq<char>>
    decreases items, n,
{
    if n == 0 || n > items.len() {
        None
    } else {
        match items_default_fault(items, schema, path, (n - 1) as nat) {
            Some(detail) => Some(detail),
            None => default_fault(items[n - 1], schema, path + "["@ + decimal((n - 1) as nat) + "]"@),
        }
    }
}

proof fn entries_fault_stays(entries: Seq<(Seq<char>, JsonView)>, schema: JsonView, path: Seq<char>, n: nat, m: nat)
    requires
        n <= m <= entries.len(),
        entries_default_fault(entries, schema, path, n) is Some,
    ensures
        entries_default_fault(entries, schema, path, m) == entries_default_fault(entries, schema, path, n),
    decreases m,
{
    if n < m {
        entries_fault_stays(entries, schema, path, n, (m - 1) as nat);
    }
}

proof fn items_fault_stays(items: Seq<JsonView>, schema: JsonView, path: Seq<char>, n: nat, m: nat)
    requires
        n <= m <= items.len(),
        items_default_fault(items, schema, path, n) is Some,
    ensures
        items_default_fault(items, schema, path, m) == items_default_fault(items, schema, path, n),
    decreases m,
{
    if n < m {
        items_fault_stays(items, schema, path, n, (m - 1) as nat);
    }
}

/// What a check that may fail came to.
pub open spec fn verdict(r: Result<(), String>) -> Option<Seq<char>> {
    match r {
        Ok(()) => None,
        Err(detail) => Some(detail@),
    }
}

/// Decides whether a list of trees holds one equal to a value.
fn is_allowed(allowed: &Vec<Json>, value: &Json, Ghost(listed): Ghost<JsonView>) -> (r: bool)
    requires
        listed == Json::List(*allowed).model(),
        listed.sound(),
        value.model().sound(),
    ensures
        r == (exists|i: int| 0 <= i < listed->List_0.len() && same_tree(#[trigger] listed->List_0[i], value.model())),
{
    proof {
        list_model(*allowed);
    }
    let ghost trees = models(allowed@);
    let mut i: usize = 0;
    while i < allowed.len()
        invariant
            i <= allowed.len(),
            trees == models(allowed@),
            listed == JsonView::List(trees),
            listed.sound(),
            value.model().sound(),
            forall|k: int| 0 <= k < i ==> !same_tree(#[trigger] trees[k], value.model()),
        decreases allowed.len() - i,
    {
        proof {
            let inner = listed->List_0;
            assert(inner[i as int] == allowed@[i as int].model());
            assert(inner[i as int].distinct_keys() && inner[i as int].signed_below_zero());
        }
        if equal_json(&allowed[i], value) {
            assert(same_tree(listed->List_0[i as int], value.model()));
            return true;
        }
        i = i + 1;
    }
    false
}

/// Checks what a Schema says of the value itself.
fn check_own(value: &Json, schema: &Json, path: &str) -> (r: Result<(), String>)
    requires
        value.model().sound(),
        schema.model().sound(),
    ensures
        verdict(r) == own_fault(value.model(), schema.model(), path@),
{
    match schema {
        Json::Object(_) => {},
        _ => return Err(text::behind(path, ": configuration Schema must be an object")),
    }
    match json::get(schema, "x-lenso-sensitive") {
        Some(Json::Bool(true)) => return Err(text::behind(path, ": sensitive configuration cannot have a package default")),
        _ => {},
    }
    match json::get(schema, "type") {
        Some(Json::Text(kind)) => if !fits_type(value, kind.as_str()) {
            return Err(text::around(text::behind(path, ": default does not match Schema type `").as_str(), kind.as_str(), "`"));
        },
        _ => {},
    }
    let numeric: bool = matches!(value, Json::Unsigned(_) | Json::Negative(_) | Json::Fraction(_));
    match json::get(schema, "minimum") {
        Some(minimum) => if numeric {
            let number: bool = matches!(minimum, Json::Unsigned(_) | Json::Negative(_) | Json::Fraction(_));
            if !number {
                return Err(text::behind(path, ": Schema minimum must be a number"));
            }
            if is_below(value, minimum) {
                let bound = number_double(&json::value_of(minimum)).unwrap().1;
                return Err(text::around(path, ": default must be greater than or equal to ", bound.as_str()));
            }
        },
        None => {},
    }
    match json::get(schema, "const") {
        Some(expected) => if !equal_json(value, expected) {
            return Err(text::behind(path, ": default does not match Schema const"));
        },
        None => {},
    }
    match json::get(schema, "enum") {
        Some(Json::List(allowed)) => {
            let ghost listed = member(schema.model(), "enum"@)->Some_0;
            if !is_allowed(allowed, value, Ghost(listed)) {
                return Err(text::behind(path, ": default is not in Schema enum"));
            }
        },
        Some(_) => return Err(text::behind(path, ": Schema enum must be an array")),
        None => {},
    }
    match value {
        Json::Object(_) => match json::get(schema, "properties") {
            Some(Json::Object(_)) => {},
            Some(_) => return Err(text::behind(path, ": Schema properties must be an object")),
            None => {},
        },
        _ => {},
    }
    Ok(())
}

/// Checks a package default against a Schema.
pub fn validate_default_value(value: &Json, schema: &Json, path: &str) -> (r: Result<(), String>)
    requires
        value.model().sound(),
        schema.model().sound(),
    ensures
        verdict(r) == default_fault(value.model(), schema.model(), path@),
    decreases value, 1nat,
{
    match check_own(value, schema, path) {
        Ok(()) => {},
        Err(detail) => return Err(detail),
    }
    match value {
        Json::Object(entries) => {
            assert(decreases_to!(value => value->Object_0));
            validate_default_object(entries, schema, path)
        },
        Json::List(items) => match json::get(schema, "items") {
            Some(item_schema) => {
                assert(decreases_to!(value => value->List_0));
                validate_default_array(items, item_schema, path)
            },
            None => Ok(()),
        },
        _ => Ok(()),
    }
}

/// Checks the properties of a package default.
fn validate_default_object(entries: &Vec<(String, Json)>, schema: &Json, path: &str) -> (r: Result<(), String>)
    requires
        Json::Object(*entries).model().sound(),
        schema.model().sound(),
    ensures
        verdict(r) == entries_default_fault(Json::Object(*entries).model()->Object_0, schema.model(), path@, entries@.len()),
    decreases entries, 0nat,
{
    proof {
        object_model(*entries);
    }
    let ghost whole = Json::Object(*entries).model();
    let ghost trees = entry_models(entries@);
    let mut i: usize = 0;
    while i < entries.len()
        invariant
            i <= entries.len(),
            trees == entry_models(entries@),
            whole == Json::Object(*entries).model(),
            whole == JsonView::Object(trees),
            whole.sound(),
            schema.model().sound(),
            entries_default_fault(trees, schema.model(), path@, i as nat) is None,
        decreases entries.len() - i,
    {
        let name = entries[i].0.as_str();
        let child = &entries[i].1;
        proof {
            assert(trees[i as int] == (name@, child.model()));
            let inner = whole->Object_0;
            assert(inner[i as int].1.distinct_keys() && inner[i as int].1.signed_below_zero());
        }
        let rule = match json::get(schema, "properties") {
            Some(properties) => json::get(properties, name),
            None => None,
        };
        let inside = text::around(path, ".", name);
        let checked: Result<(), String> = match rule {
            Some(rule) => validate_default_value(child, rule, inside.as_str()),
            None => match json::get(schema, "additionalProperties") {
                Some(Json::Bool(false)) => Err(text::behind(inside.as_str(), ": additional property is not allowed")),
                Some(additional) => match additional {
                    Json::Object(_) => validate_default_value(child, additional, inside.as_str()),
                    _ => Ok(()),
                },
                None => Ok(()),
            },
        };
        proof {
            assert(entries_default_fault(trees, schema.model(), path@, (i + 1) as nat) == verdict(checked));
            if checked is Err {
                entries_fault_stays(trees, schema.model(), path@, (i + 1) as nat, trees.len());
            }
        }
        match checked {
            Ok(()) => {},
            Err(detail) => return Err(detail),
        }
        i = i + 1;
    }
    Ok(())
}

/// Checks the items of a package default.
fn validate_default_array(items: &Vec<Json>, schema: &Json, path: &str) -> (r: Result<(), String>)
    requires
        Json::List(*items).model().sound(),
        schema.model().sound(),
    ensures
        verdict(r) == items_default_fault(Json::List(*items).model()->List_0, schema.model(), path@, items@.len()),
    decreases items, 0nat,
{
    proof {
        list_model(*items);
    }
    let ghost whole = Json::List(*items).model();
    let ghost trees = models(items@);
    let mut i: usize = 0;
    while i < items.len()
        invariant
            i <= items.len(),
            trees == models(items@),
            whole == Json::List(*items).model(),
            whole == JsonView::List(trees),
            whole.sound(),
            schema.model().sound(),
            items_default_fault(trees, schema.model(), path@, i as nat) is None,
        decreases items.len() - i,
    {
        let item = &items[i];
        proof {
            assert(trees[i as int] == item.model());
            let inner = whole->List_0;
            assert(inner[i as int].distinct_keys() && inner[i as int].signed_below_zero());
        }
        let index = text::print_u128(i as u128);
        let inside = text::around(text::behind(path, "[").as_str(), index.as_str(), "]");
        let checked = validate_default_value(item, schema, inside.as_str());
        proof {
            assert(items_default_fault(trees, schema.model(), path@, (i + 1) as nat) == verdict(checked));
            if checked is Err {
                items_fault_stays(trees, schema.model(), path@, (i + 1) as nat, trees.len());
            }
        }
        match checked {
            Ok(()) => {},
            Err(detail) => return Err(detail),
        }
        i = i + 1;
    }
    Ok(())
}

/// Why package defaults do not meet a Schema.
pub open spec fn defaults_fault(defaults: JsonView, schema: JsonView) -> Option<Seq<char>> {
    if !(defaults is Object) {
        Some("$: defaults must be an object"@)
    } else {
        default_fault(defaults, schema, "$"@)
    }
}

/// Checks package defaults against a Schema.
pub fn validate_configuration_defaults(defaults: &Json, schema: &Json) -> (r: Result<(), String>)
    requires
        defaults.model().sound(),
        schema.model().sound(),
    ensures
        verdict(r) == defaults_fault(defaults.model(), schema.model()),
{
    match defaults {
        Json::Object(_) => validate_default_value(defaults, schema, "$"),
        _ => Err("$: defaults must be an object".to_owned()),
    }
}

/// Where a value stands decides only how a fault is worded: a default is accepted at every place or at none.
pub proof fn acceptance_is_the_same_everywhere(value: JsonView, schema: JsonView, path: Seq<char>, other: Seq<char>)
    ensures
        default_fault(value, schema, path) is None <==> default_fault(value, schema, other) is None,
    decreases value, 0nat,
{
    match value {
        JsonView::Object(entries) => entries_accepted_everywhere(entries, schema, path, other, entries.len()),
        JsonView::List(items) => match member(schema, "items"@) {
            Some(item_schema) => items_accepted_everywhere(items, item_schema, path, other, items.len()),
            None => {},
        },
        _ => {},
    }
}

proof fn entries_accepted_everywhere(
    entries: Seq<(Seq<char>, JsonView)>,
    schema: JsonView,
    path: Seq<char>,
    other: Seq<char>,
    n: nat,
)
    requires
        n <= entries.len(),
    ensures
        entries_default_fault(entries, schema, path, n) is None <==> entries_default_fault(entries, schema, other, n) is None,
    decreases entries, n,
{
    if n > 0 {
        entries_accepted_everywhere(entries, schema, path, other, (n - 1) as nat);
        let name = entries[n - 1].0;
        match property_rule(schema, name) {
            PropertyRule::Schema(rule) => {
                acceptance_is_the_same_everywhere(entries[n - 1].1, rule, path + "."@ + name, other + "."@ + name);
            },
            _ => {},
        }
    }
}

proof fn items_accepted_everywhere(items: Seq<JsonView>, schema: JsonView, path: Seq<char>, other: Seq<char>, n: nat)
    requires
        n <= items.len(),
    ensures
        items_default_fault(items, schema, path, n) is None <==> items_default_fault(items, schema, other, n) is None,
    decreases items, n,
{
    if n > 0 {
        items_accepted_everywhere(items, schema, path, other, (n - 1) as nat);
        acceptance_is_the_same_everywhere(
            items[n - 1],
            schema,
            path + "["@ + decimal((n - 1) as nat) + "]"@,
            other + "["@ + decimal((n - 1) as nat) + "]"@,
        );
    }
}

/// Accepted defaults meet the Schema of each of their properties: none is sensitive, and none is a
/// property that the Schema forbids.
pub proof fn accepted_defaults_hold_nothing_sensitive(defaults: JsonView, schema: JsonView, name: Seq<char>)
    requires
        defaults_fault(defaults, schema) is None,
        member(defaults, name) is Some,
    ensures
        !(property_rule(schema, name) is Forbidden),
        property_rule(schema, name) matches PropertyRule::Schema(rule) ==> !is_sensitive(rule) && default_fault(
            member(defaults, name)->Some_0,
            rule,
            "$"@ + "."@ + name,
        ) is None,
{
    let entries = defaults->Object_0;
    let i = key_position(entries, name);
    assert(entries[i].0 == name);
    no_entry_faults(entries, schema, "$"@, (i + 1) as nat, entries.len());
    assert(entries_default_fault(entries, schema, "$"@, (i + 1) as nat) is None);
}

proof fn no_entry_faults(entries: Seq<(Seq<char>, JsonView)>, schema: JsonView, path: Seq<char>, n: nat, m: nat)
    requires
        n <= m <= entries.len(),
        entries_default_fault(entries, schema, path, m) is None,
    ensures
        entries_default_fault(entries, schema, path, n) is None,
    decreases m,
{
    if n < m {
        no_entry_faults(entries, schema, path, n, (m - 1) as nat);
    }
}

/// A Schema that only names a type.
pub open spec fn type_only(kind: Seq<char>) -> JsonView {
    JsonView::Object(seq![("type"@, JsonView::Text(kind))])
}

/// The Schema of a list.
pub open spec fn list_schema(items: JsonView) -> JsonView {
    JsonView::Object(seq![("type"@, JsonView::Text("array"@)), ("items"@, items)])
}

/// The type that a Schema names for a Rust type of this name.
pub open spec fn named_kind(name: Seq<char>) -> Option<Seq<char>> {
    if name == "String"@ {
        Some("string"@)
    } else if name == "bool"@ {
        Some("boolean"@)
    } else if name == "f32"@ || name == "f64"@ {
        Some("number"@)
    } else if name == "i8"@ || name == "i16"@ || name == "i32"@ || name == "i64"@ || name == "i128"@ || name == "isize"@ || name == "u8"@
        || name == "u16"@ || name == "u32"@ || name == "u64"@ || name == "u128"@ || name == "usize"@ {
        Some("integer"@)
    } else {
        None
    }
}

/// The type argument of a type is smaller than the type.
pub proof fn argument_is_smaller(ty: TypeShape)
    requires
        ty.path is Some,
        ty.path->Some_0.segments@.len() > 0,
        single_argument(ty.path->Some_0.end().arguments) is Some,
    ensures
        decreases_to!(ty => single_argument(ty.path->Some_0.end().arguments)->Some_0),
{
    let path = ty.path->Some_0;
    let segment = path.segments@[path.segments@.len() - 1];
    let items = segment.arguments->Angle_0;
    assert(decreases_to!(ty => ty.path));
    assert(decreases_to!(ty.path => path));
    assert(decreases_to!(path => path.segments));
    assert(decreases_to!(path.segments => path.segments@));
    assert(decreases_to!(path.segments@ => segment));
    assert(decreases_to!(segment => segment.arguments));
    assert(decreases_to!(segment.arguments => items));
    assert(decreases_to!(items => items@));
    assert(decreases_to!(items@ => items@[0]));
    assert(decreases_to!(items@[0] => items@[0]->Type_0));
}

/// The Schema of a configuration field and whether the field is optional, or why its type has none.
pub open spec fn type_schema(ty: TypeShape) -> Result<(JsonView, bool), Seq<char>>
    decreases ty,
{
    if ty.path is None || ty.path->Some_0.segments@.len() == 0 {
        Err("Plugin configuration fields must use portable named types"@)
    } else {
        let segment = ty.path->Some_0.end();
        if segment.ident@ == "Option"@ || segment.ident@ == "Vec"@ {
            match single_argument(segment.arguments) {
                None => Err("configuration container requires one type"@),
                Some(inner) => {
                    proof {
                        argument_is_smaller(ty);
                    }
                    match type_schema(inner) {
                        Err(detail) => Err(detail),
                        Ok((schema, _)) => if segment.ident@ == "Option"@ {
                            Ok((schema, true))
                        } else {
                            Ok((list_schema(schema), false))
                        },
                    }
                },
            }
        } else {
            match named_kind(segment.ident@) {
                Some(kind) => Ok((type_only(kind), false)),
                None => Err(
                    "unsupported Plugin configuration field type; use String, bool, a number, Option<T>, or Vec<T>"@,
                ),
            }
        }
    }
}

/// Adds one entry at the end of an object.
pub(crate) fn add_entry(entries: &mut Vec<(String, Json)>, key: &str, value: Json)
    ensures
        entry_models(final(entries)@) == entry_models(old(entries)@).push((key@, value.model())),
{
    let ghost before = entry_models(entries@);
    entries.push((key.to_owned(), value));
    assert(entry_models(entries@) =~= before.push((key@, value.model())));
}

/// Names the type of a Rust type of this name.
fn kind_of(name: &str) -> (r: Option<&'static str>)
    ensures
        text::opt_str(r) == named_kind(name@),
{
    if text::same(name, "String") {
        Some("string")
    } else if text::same(name, "bool") {
        Some("boolean")
    } else if text::same(name, "f32") || text::same(name, "f64") {
        Some("number")
    } else if text::same(name, "i8") || text::same(name, "i16") || text::same(name, "i32") || text::same(name, "i64") || text::same(name, "i128")
        || text::same(name, "isize") || text::same(name, "u8") || text::same(name, "u16") || text::same(name, "u32") || text::same(name, "u64")
        || text::same(name, "u128") || text::same(name, "usize") {
        Some("integer")
    } else {
        None
    }
}

proof fn type_only_is_sound(kind: Seq<char>)
    ensures
        type_only(kind).sound(),
{
    let entries = type_only(kind)->Object_0;
    assert(entries.len() == 1);
    assert forall|i: int| 0 <= i < entries.len() implies (#[trigger] entries[i]).1.distinct_keys() && entries[i].1.signed_below_zero() by {}
}

proof fn list_schema_is_sound(items: JsonView)
    requires
        items.sound(),
    ensures
        list_schema(items).sound(),
{
    reveal_strlit("type");
    reveal_strlit("items");
    assert("type"@.len() != "items"@.len());
    let entries = list_schema(items)->Object_0;
    assert(entries.len() == 2);
    assert forall|i: int| 0 <= i < entries.len() implies (#[trigger] entries[i]).1.distinct_keys() && entries[i].1.signed_below_zero() by {}
}

/// Derives the Schema of a configuration field and whether the field is optional.
pub fn configuration_type_schema(ty: &TypeShape) -> (r: Result<(Json, bool), AuthoringError>)
    ensures
        match type_schema(*ty) {
            Ok((schema, optional)) => r is Ok && r->Ok_0.0.model() == schema && r->Ok_0.1 == optional && schema.sound(),
            Err(detail) => r is Err && r->Err_0@ == detail,
        },
    decreases ty,
{
    let path = match &ty.path {
        Some(path) => path,
        None => return Err(refused("Plugin configuration fields must use portable named types")),
    };
    if path.segments.len() == 0 {
        return Err(refused("Plugin configuration fields must use portable named types"));
    }
    let segment = &path.segments[path.segments.len() - 1];
    assert(*segment == path.end());
    let optional: bool = text::same(segment.ident.as_str(), "Option");
    if optional || text::same(segment.ident.as_str(), "Vec") {
        let inner = match single_type_argument(segment, "configuration container requires one type") {
            Ok(inner) => inner,
            Err(error) => return Err(error),
        };
        proof {
            argument_is_smaller(*ty);
        }
        let schema = match configuration_type_schema(inner) {
            Ok((schema, _)) => schema,
            Err(error) => return Err(error),
        };
        if optional {
            return Ok((schema, true));
        }
        let ghost tree = schema.model();
        let mut entries: Vec<(String, Json)> = Vec::new();
        assert(entry_models(entries@) =~= Seq::empty());
        add_entry(&mut entries, "type", Json::Text("array".to_owned()));
        add_entry(&mut entries, "items", schema);
        proof {
            object_model(entries);
            assert(entry_models(entries@) =~= list_schema(tree)->Object_0);
            list_schema_is_sound(tree);
        }
        return Ok((Json::Object(entries), false));
    }
    match kind_of(segment.ident.as_str()) {
        Some(kind) => {
            let mut entries: Vec<(String, Json)> = Vec::new();
            assert(entry_models(entries@) =~= Seq::empty());
            add_entry(&mut entries, "type", Json::Text(kind.to_owned()));
            proof {
                object_model(entries);
                assert(entry_models(entries@) =~= type_only(kind@)->Object_0);
                type_only_is_sound(kind@);
            }
            Ok((Json::Object(entries), false))
        },
        None => Err(
            refused("unsupported Plugin configuration field type; use String, bool, a number, Option<T>, or Vec<T>"),
        ),
    }
}

} // verus!
