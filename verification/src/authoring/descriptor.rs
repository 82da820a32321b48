//! Plugin Descriptors that the authoring macros generate, and the package documents that go into them.
use vstd::prelude::*;
use vstd::string::*;
use vstd::utf8::{decode_utf8, encode_utf8};

use crate::authoring::config;
use crate::authoring::config::{add_entry, defaults_fault, matches_schema};
use crate::authoring::shape::{generated_name, snake_case};
use crate::authoring::{refused, AuthoringError};
use crate::canonical;
use crate::decode::literals;
use crate::json;
use crate::json::{compact_json, entry_models, has_key, key_position, member, object_model, read_json, Json, JsonView};
use crate::paths;
use crate::text;
use crate::text::{decimal, texts};

verus! {

/// The text that `serde_json` writes for a tree.
pub open spec fn json_text(tree: JsonView) -> Seq<char> {
    decode_utf8(compact_json(tree))
}

/// Writes a tree as text.
fn write_json(json: &Json) -> (r: String)
    requires
        json.model().sound(),
    ensures
        r@ == json_text(json.model()),
{
    let r = json::to_text(json);
    proof {
        vstd::utf8::encode_utf8_decode_utf8(r@);
    }
    r
}

/// The text that `serde_json` writes for a text.
pub open spec fn quoted(s: Seq<char>) -> Seq<char> {
    json_text(JsonView::Text(s))
}

/// Writes a text as JSON.
fn quote_text(s: &str) -> (r: String)
    ensures
        r@ == quoted(s@),
{
    write_json(&Json::Text(s.to_owned()))
}

/// The entries of an object after an insertion: the entry with the key has the new value, at its place,
/// or else a new entry stands at the end.
pub open spec fn with_entry(entries: Seq<(Seq<char>, JsonView)>, key: Seq<char>, value: JsonView) -> Seq<(Seq<char>, JsonView)> {
    if has_key(entries, key) {
        entries.update(key_position(entries, key), (key, value))
    } else {
        entries.push((key, value))
    }
}

/// The keys of the entries are pairwise different.
pub open spec fn keys_differ(entries: Seq<(Seq<char>, JsonView)>) -> bool {
    forall|i: int, j: int| 0 <= i < j < entries.len() ==> (#[trigger] entries[i]).0 != (#[trigger] entries[j]).0
}

proof fn object_is_sound(entries: Seq<(Seq<char>, JsonView)>)
    ensures
        JsonView::Object(entries).sound() <==> keys_differ(entries) && forall|i: int|
            0 <= i < entries.len() ==> (#[trigger] entries[i]).1.sound(),
{
    let inner = JsonView::Object(entries)->Object_0;
    assert(inner == entries);
    if JsonView::Object(entries).sound() {
        assert forall|i: int| 0 <= i < entries.len() implies (#[trigger] entries[i]).1.sound() by {
            assert(inner[i].1.distinct_keys() && inner[i].1.signed_below_zero());
        }
    }
    if keys_differ(entries) && (forall|i: int| 0 <= i < entries.len() ==> (#[trigger] entries[i]).1.sound()) {
        assert forall|i: int| 0 <= i < entries.len() implies (#[trigger] entries[i]).1.distinct_keys() && entries[i].1.signed_below_zero() by {
            assert(entries[i].1.sound());
        }
    }
}

/// An insertion gives the key its value, and no other key another value.
pub proof fn insertion_sets_one_key(entries: Seq<(Seq<char>, JsonView)>, key: Seq<char>, value: JsonView, other: Seq<char>)
    requires
        keys_differ(entries),
    ensures
        keys_differ(with_entry(entries, key, value)),
        member(JsonView::Object(with_entry(entries, key, value)), key) == Some(value),
        other != key ==> member(JsonView::Object(with_entry(entries, key, value)), other) == member(JsonView::Object(entries), other),
{
    let after = with_entry(entries, key, value);
    let p = if has_key(entries, key) {
        key_position(entries, key)
    } else {
        entries.len() as int
    };
    assert(after[p] == (key, value));
    assert(forall|i: int| 0 <= i < after.len() && i != p ==> #[trigger] after[i] == entries[i]);
    assert forall|i: int| 0 <= i < after.len() && i != p implies (#[trigger] after[i]).0 != key by {
        if has_key(entries, key) {
            assert(entries[p].0 == key);
            assert(entries[i].0 != key);
        } else {
            assert(entries[i].0 != key);
        }
    }
    assert(has_key(after, key));
    assert(key_position(after, key) == p);
    if other != key {
        if has_key(entries, other) {
            let q = key_position(entries, other);
            assert(entries[q].0 == other);
            assert(after[q].0 == other);
            let r = key_position(after, other);
            assert(after[r].0 == other && r != p);
            assert(entries[r].0 == other);
            assert(r == q);
        } else if has_key(after, other) {
            let r = key_position(after, other);
            assert(after[r].0 == other);
            assert(r != p);
            assert(entries[r].0 == other);
        }
    }
}

proof fn insertion_is_sound(entries: Seq<(Seq<char>, JsonView)>, key: Seq<char>, value: JsonView)
    requires
        JsonView::Object(entries).sound(),
        value.sound(),
    ensures
        JsonView::Object(with_entry(entries, key, value)).sound(),
{
    object_is_sound(entries);
    let after = with_entry(entries, key, value);
    insertion_sets_one_key(entries, key, value, key);
    assert forall|i: int| 0 <= i < after.len() implies (#[trigger] after[i]).1.sound() by {
        if i < entries.len() && after[i] == entries[i] {
            assert(entries[i].1.sound());
        }
    }
    object_is_sound(after);
}

/// Inserts an entry into an object.
fn set_entry(entries: &mut Vec<(String, Json)>, key: String, value: Json)
    requires
        JsonView::Object(entry_models(old(entries)@)).sound(),
        value.model().sound(),
    ensures
        entry_models(final(entries)@) == with_entry(entry_models(old(entries)@), key@, value.model()),
        JsonView::Object(entry_models(final(entries)@)).sound(),
{
    let ghost before = entry_models(entries@);
    let ghost tree = value.model();
    let ghost wanted = key@;
    proof {
        object_is_sound(before);
        insertion_is_sound(before, key@, value.model());
    }
    let mut i: usize = 0;
    while i < entries.len()
        invariant
            i <= entries.len(),
            *entries == *old(entries),
            before == entry_models(entries@),
            keys_differ(before),
            wanted == key@,
            tree == value.model(),
            JsonView::Object(with_entry(before, wanted, tree)).sound(),
            forall|k: int| 0 <= k < i ==> (#[trigger] before[k]).0 != key@,
        decreases entries.len() - i,
    {
        assert(before[i as int].0 == entries@[i as int].0@);
        if text::same(entries[i].0.as_str(), key.as_str()) {
            proof {
                let p = key_position(before, key@);
                assert(before[p].0 == key@);
                assert(p == i);
            }
            entries[i].1 = value;
            assert(entry_models(entries@) =~= with_entry(before, wanted, tree));
            return;
        }
        i = i + 1;
    }
    entries.push((key, value));
    assert(entry_models(entries@) =~= with_entry(before, wanted, tree));
}

/// The entries after the insertion of the first `n` of further entries.
pub open spec fn merged(entries: Seq<(Seq<char>, JsonView)>, more: Seq<(Seq<char>, JsonView)>, n: nat) -> Seq<(Seq<char>, JsonView)>
    decreases n,
{
    if n == 0 {
        entries
    } else {
        with_entry(merged(entries, more, (n - 1) as nat), more[n - 1].0, more[n - 1].1)
    }
}

/// The name of a configuration field in documents: the last name that was given to it, or else its own.
pub open spec fn field_name(ident: Seq<char>, renames: Seq<Seq<char>>) -> Seq<char> {
    if renames.len() > 0 {
        renames.last()
    } else {
        ident
    }
}

/// Names a configuration field in documents.
pub fn serde_field_name(ident: &str, renames: &Vec<String>) -> (r: String)
    ensures
        r@ == field_name(ident@, texts(renames@)),
{
    if renames.len() > 0 {
        renames[renames.len() - 1].clone()
    } else {
        ident.to_owned()
    }
}

/// Decides whether a field may have the default that is written for it.
pub fn expect_default(key: &str, seen: bool) -> (r: Result<(), AuthoringError>)
    ensures
        match r {
            Ok(()) => key@ == "default"@ && !seen,
            Err(error) => if key@ != "default"@ {
                error@ == "expected `default = <JSON literal>`"@
            } else {
                seen && error@ == "duplicate Plugin configuration default"@
            },
        },
{
    if !text::same(key, "default") {
        return Err(refused("expected `default = <JSON literal>`"));
    }
    if seen {
        return Err(refused("duplicate Plugin configuration default"));
    }
    Ok(())
}

/// Reads the default of a field from the expression that is written for it.
pub fn default_value(expression: &str) -> (r: Result<Json, AuthoringError>)
    ensures
        match read_json(encode_utf8(expression@)) {
            Ok(tree) => r is Ok && r->Ok_0.model() == tree && tree.sound(),
            Err(detail) => r is Err && r->Err_0@ == "Plugin configuration default must be a JSON literal: "@ + detail,
        },
{
    match json::from_bytes(expression.as_bytes()) {
        Ok(value) => Ok(value),
        Err(detail) => Err(
            AuthoringError { detail: text::behind("Plugin configuration default must be a JSON literal: ", detail.as_str()) },
        ),
    }
}

/// The Schema and the defaults of a configuration, as its fields are met.
#[derive(Debug)]
pub struct ConfigSchema {
    pub properties: Vec<(String, Json)>,
    pub defaults: Vec<(String, Json)>,
    pub required: Vec<String>,
}

/// The tree of a configuration Schema.
pub open spec fn schema_tree(required: Seq<Seq<char>>, properties: Seq<(Seq<char>, JsonView)>) -> JsonView {
    JsonView::Object(
        seq![
            ("$schema"@, JsonView::Text("https://json-schema.org/draft/2020-12/schema"@)),
            ("type"@, JsonView::Text("object"@)),
            ("additionalProperties"@, JsonView::Bool(false)),
            ("required"@, JsonView::List(required.map_values(|name: Seq<char>| JsonView::Text(name)))),
            ("properties"@, JsonView::Object(properties)),
        ],
    )
}

proof fn schema_tree_is_sound(required: Seq<Seq<char>>, properties: Seq<(Seq<char>, JsonView)>)
    requires
        JsonView::Object(properties).sound(),
    ensures
        schema_tree(required, properties).sound(),
{
    reveal_strlit("$schema");
    reveal_strlit("type");
    reveal_strlit("additionalProperties");
    reveal_strlit("required");
    reveal_strlit("properties");
    assert("$schema"@.len() == 7 && "type"@.len() == 4 && "additionalProperties"@.len() == 20 && "required"@.len() == 8 && "properties"@.len()
        == 10);
    let entries = schema_tree(required, properties)->Object_0;
    let names = JsonView::List(required.map_values(|name: Seq<char>| JsonView::Text(name)));
    assert(names.sound()) by {
        let items = names->List_0;
        assert forall|i: int| 0 <= i < items.len() implies (#[trigger] items[i]).distinct_keys() && items[i].signed_below_zero() by {
            assert(items[i] is Text);
        }
    }
    assert forall|i: int| 0 <= i < entries.len() implies (#[trigger] entries[i]).1.sound() by {
        if i == 3 {
            assert(entries[i].1 == names);
        }
    }
    object_is_sound(entries);
}

/// What a configuration macro generates: the Schema and the defaults as text, and the names under which
/// they are exported.
#[derive(Debug)]
pub struct ConfigPlan {
    pub schema: String,
    pub defaults: String,
    pub schema_macro: String,
    pub defaults_macro: String,
}

/// What entering one field comes to, and the configuration after it.
pub open spec fn field_entered(
    before: ConfigSchema,
    name: Seq<char>,
    schema: JsonView,
    optional: bool,
    default: Option<Json>,
    r: Result<(), AuthoringError>,
    after: ConfigSchema,
) -> bool {
    &&& r is Ok <==> default is None || matches_schema(default->Some_0.model(), schema)
    &&& r is Err ==> r->Err_0@ == "Plugin configuration default does not match the field type"@ && after == before
    &&& r is Ok ==> {
        &&& entry_models(after.properties@) == with_entry(entry_models(before.properties@), name, schema)
        &&& entry_models(after.defaults@) == if default is Some {
            with_entry(entry_models(before.defaults@), name, default->Some_0.model())
        } else {
            entry_models(before.defaults@)
        }
        &&& texts(after.required@) == if optional {
            texts(before.required@)
        } else {
            texts(before.required@).push(name)
        }
    }
}

impl ConfigSchema {
    /// Properties and defaults are objects that a JSON reader could hand out.
    pub open spec fn wf(self) -> bool {
        &&& JsonView::Object(entry_models(self.properties@)).sound()
        &&& JsonView::Object(entry_models(self.defaults@)).sound()
    }

    /// A configuration without fields.
    pub fn new() -> (r: Self)
        ensures
            r.wf(),
            r.properties@.len() == 0,
            r.defaults@.len() == 0,
            r.required@.len() == 0,
    {
        let r = ConfigSchema { properties: Vec::new(), defaults: Vec::new(), required: Vec::new() };
        proof {
            object_is_sound(entry_models(r.properties@));
            object_is_sound(entry_models(r.defaults@));
        }
        r
    }

    /// Enters one field.
    pub fn enter(&mut self, name: String, schema: Json, optional: bool, default: Option<Json>) -> (r: Result<(), AuthoringError>)
        requires
            old(self).wf(),
            schema.model().sound(),
            default is Some ==> default->Some_0.model().sound(),
        ensures
            final(self).wf(),
            field_entered(*old(self), name@, schema.model(), optional, default, r, *final(self)),
    {
        let ghost required = texts(self.required@);
        match default {
            Some(value) => {
                if !config::configuration_value_matches_schema(&value, &schema) {
                    return Err(refused("Plugin configuration default does not match the field type"));
                }
                set_entry(&mut self.defaults, name.clone(), value);
            },
            None => {},
        }
        set_entry(&mut self.properties, name.clone(), schema);
        if !optional {
            self.required.push(name);
            assert(texts(self.required@) =~= required.push(name@));
        }
        Ok(())
    }

    /// What is generated for a configuration type of a name, once its fields are entered.
    pub fn finish(&self, ident: &str) -> (r: ConfigPlan)
        requires
            self.wf(),
        ensures
            r.schema@ == json_text(schema_tree(texts(self.required@), entry_models(self.properties@))),
            r.defaults@ == json_text(JsonView::Object(entry_models(self.defaults@))),
            r.schema_macro@ == "__lenso_config_schema_"@ + snake_case(ident@),
            r.defaults_macro@ == "__lenso_config_defaults_"@ + snake_case(ident@),
    {
        let properties = copy_object(&self.properties);
        let defaults = copy_object(&self.defaults);
        let schema = schema_document(&self.required, properties);
        ConfigPlan {
            schema: write_json(&schema),
            defaults: write_json(&defaults),
            schema_macro: generated_name("__lenso_config_schema_", ident),
            defaults_macro: generated_name("__lenso_config_defaults_", ident),
        }
    }
}

/// Copies the entries of an object.
fn copy_object(entries: &Vec<(String, Json)>) -> (r: Json)
    ensures
        r.model() == JsonView::Object(entry_models(entries@)),
        r is Object,
{
    let mut copied: Vec<(String, Json)> = Vec::new();
    let mut i: usize = 0;
    while i < entries.len()
        invariant
            i <= entries.len(),
            copied@.len() == i,
            forall|k: int| 0 <= k < i ==> (#[trigger] copied@[k]).0@ == entries@[k].0@ && copied@[k].1.model() == entries@[k].1.model(),
        decreases entries.len() - i,
    {
        copied.push((entries[i].0.clone(), entries[i].1.clone()));
        i = i + 1;
    }
    proof {
        object_model(copied);
        assert(entry_models(copied@) =~= entry_models(entries@));
    }
    Json::Object(copied)
}

/// Builds a configuration Schema.
fn schema_document(required: &Vec<String>, properties: Json) -> (r: Json)
    requires
        properties.model() is Object,
        properties.model().sound(),
    ensures
        r.model() == schema_tree(texts(required@), properties.model()->Object_0),
        r.model().sound(),
{
    let ghost tree = properties.model()->Object_0;
    let names = canonical::text_list_json(required);
    let mut entries: Vec<(String, Json)> = Vec::new();
    assert(entry_models(entries@) =~= Seq::empty());
    add_entry(&mut entries, "$schema", Json::Text("https://json-schema.org/draft/2020-12/schema".to_owned()));
    add_entry(&mut entries, "type", Json::Text("object".to_owned()));
    add_entry(&mut entries, "additionalProperties", Json::Bool(false));
    add_entry(&mut entries, "required", names);
    add_entry(&mut entries, "properties", properties);
    proof {
        object_model(entries);
        schema_tree_is_sound(texts(required@), tree);
        let wanted = schema_tree(texts(required@), tree)->Object_0;
        assert(wanted[3].1->List_0 =~= names.model()->List_0);
        assert(entry_models(entries@) =~= wanted);
    }
    Json::Object(entries)
}

/// The Schema of a Plugin without configuration.
pub fn empty_schema() -> (r: String)
    ensures
        r@ == json_text(schema_tree(Seq::empty(), Seq::empty())),
{
    let required: Vec<String> = Vec::new();
    let entries: Vec<(String, Json)> = Vec::new();
    proof {
        object_model(entries);
        assert(entry_models(entries@) =~= Seq::empty());
        object_is_sound(Seq::empty());
        assert(texts(required@) =~= Seq::empty());
    }
    write_json(&schema_document(&required, Json::Object(entries)))
}

/// The defaults of a Plugin that has none.
pub fn empty_defaults() -> (r: String)
    ensures
        r@ == json_text(JsonView::Object(Seq::empty())),
{
    let entries: Vec<(String, Json)> = Vec::new();
    proof {
        object_model(entries);
        assert(entry_models(entries@) =~= Seq::empty());
        object_is_sound(Seq::empty());
    }
    write_json(&Json::Object(entries))
}

/// Writes a package document.
pub fn document_text(document: &Json) -> (r: String)
    requires
        document.model().sound(),
    ensures
        r@ == json_text(document.model()),
{
    write_json(document)
}

/// The path of a package file stays inside the package.
pub open spec fn stays_inside(path: Seq<char>) -> bool {
    path.len() == 0 || paths::leads_down(path)
}

/// Checks that the path of a package file stays inside the package.
pub fn check_package_path(label: &str, path: &str) -> (r: Result<(), AuthoringError>)
    ensures
        match r {
            Ok(()) => stays_inside(path@),
            Err(error) => !stays_inside(path@) && error@ == label@ + " path must stay inside the Plugin package"@,
        },
{
    if path.unicode_len() == 0 || paths::is_leading_down(path) {
        Ok(())
    } else {
        Err(AuthoringError { detail: text::behind(label, " path must stay inside the Plugin package") })
    }
}

/// What a package file that must hold a JSON object comes to.
pub open spec fn package_document(label: Seq<char>, shown: Seq<char>, bytes: Seq<u8>) -> Result<JsonView, Seq<char>> {
    match read_json(bytes) {
        Err(detail) => Err(label + " "@ + shown + " is invalid JSON: "@ + detail),
        Ok(tree) => if tree is Object {
            Ok(tree)
        } else {
            Err(label + " must be a JSON object"@)
        },
    }
}

/// What a document that may be refused came to.
pub open spec fn document_outcome(r: Result<Json, AuthoringError>) -> Result<JsonView, Seq<char>> {
    match r {
        Ok(document) => Ok(document.model()),
        Err(error) => Err(error@),
    }
}

/// Reads a package file that must hold a JSON object.
fn read_package_json(label: &str, shown: &str, bytes: &[u8]) -> (r: Result<Json, AuthoringError>)
    ensures
        document_outcome(r) == package_document(label@, shown@, bytes@),
        r is Ok ==> r->Ok_0.model().sound(),
{
    match json::from_bytes(bytes) {
        Err(detail) => {
            let start = text::around(label, " ", shown);
            Err(AuthoringError { detail: text::around(start.as_str(), " is invalid JSON: ", detail.as_str()) })
        },
        Ok(document) => match document {
            Json::Object(_) => Ok(document),
            _ => Err(AuthoringError { detail: text::behind(label, " must be a JSON object") }),
        },
    }
}

/// Reads a configuration Schema from its file.
pub fn read_configuration_schema(shown: &str, bytes: &[u8]) -> (r: Result<Json, AuthoringError>)
    ensures
        document_outcome(r) == package_document("configuration Schema"@, shown@, bytes@),
        r is Ok ==> r->Ok_0.model().sound(),
{
    read_package_json("configuration Schema", shown, bytes)
}

/// Reads configuration defaults from their file.
pub fn read_configuration_defaults(shown: &str, bytes: &[u8]) -> (r: Result<Json, AuthoringError>)
    ensures
        document_outcome(r) == package_document("configuration defaults"@, shown@, bytes@),
        r is Ok ==> r->Ok_0.model().sound(),
{
    read_package_json("configuration defaults", shown, bytes)
}

/// A duration of zero.
pub open spec fn no_time() -> JsonView {
    JsonView::Object(seq![("secs"@, JsonView::Unsigned(0)), ("nanos"@, JsonView::Unsigned(0))])
}

/// The restart policy of a native Plugin: it is never restarted.
pub open spec fn never_restarted() -> JsonView {
    JsonView::Object(
        seq![
            ("mode"@, JsonView::Text("never"@)),
            ("max_attempts"@, JsonView::Unsigned(0)),
            ("window"@, no_time()),
            ("backoff"@, no_time()),
            ("stability"@, no_time()),
            ("jitter"@, no_time()),
        ],
    )
}

proof fn no_time_is_sound()
    ensures
        no_time().sound(),
{
    reveal_strlit("secs");
    reveal_strlit("nanos");
    assert("secs"@.len() == 4 && "nanos"@.len() == 5);
    let entries = no_time()->Object_0;
    assert(entries.len() == 2);
    assert forall|i: int| 0 <= i < entries.len() implies (#[trigger] entries[i]).1.sound() by {}
    object_is_sound(entries);
}

proof fn never_restarted_is_sound()
    ensures
        never_restarted().sound(),
{
    reveal_strlit("mode");
    reveal_strlit("max_attempts");
    reveal_strlit("window");
    reveal_strlit("backoff");
    reveal_strlit("stability");
    reveal_strlit("jitter");
    assert("mode"@.len() == 4 && "max_attempts"@.len() == 12 && "window"@.len() == 6 && "backoff"@.len() == 7 && "stability"@.len() == 9
        && "jitter"@.len() == 6);
    assert("window"@[0] == 'w' && "jitter"@[0] == 'j');
    no_time_is_sound();
    let entries = never_restarted()->Object_0;
    assert(entries.len() == 6);
    assert forall|i: int| 0 <= i < entries.len() implies (#[trigger] entries[i]).1.sound() by {
        if i >= 2 {
            assert(entries[i].1 == no_time());
        }
    }
    object_is_sound(entries);
}

/// Builds a duration of zero.
fn no_time_json() -> (r: Json)
    ensures
        r.model() == no_time(),
{
    let mut entries: Vec<(String, Json)> = Vec::new();
    assert(entry_models(entries@) =~= Seq::empty());
    add_entry(&mut entries, "secs", Json::Unsigned(0));
    add_entry(&mut entries, "nanos", Json::Unsigned(0));
    proof {
        object_model(entries);
        assert(entry_models(entries@) =~= no_time()->Object_0);
    }
    Json::Object(entries)
}

/// Builds the restart policy of a native Plugin.
fn never_restarted_json() -> (r: Json)
    ensures
        r.model() == never_restarted(),
        r.model().sound(),
{
    let mut entries: Vec<(String, Json)> = Vec::new();
    assert(entry_models(entries@) =~= Seq::empty());
    add_entry(&mut entries, "mode", Json::Text("never".to_owned()));
    add_entry(&mut entries, "max_attempts", Json::Unsigned(0));
    add_entry(&mut entries, "window", no_time_json());
    add_entry(&mut entries, "backoff", no_time_json());
    add_entry(&mut entries, "stability", no_time_json());
    add_entry(&mut entries, "jitter", no_time_json());
    proof {
        object_model(entries);
        assert(entry_models(entries@) =~= never_restarted()->Object_0);
        never_restarted_is_sound();
    }
    Json::Object(entries)
}

/// The identity that the macros generate into every Descriptor.
pub open spec fn identity_entries(plugin_id: Seq<char>, version: Seq<char>, root_slot: Seq<char>) -> Seq<(Seq<char>, JsonView)> {
    seq![
        ("plugin_id"@, JsonView::Text(plugin_id)),
        ("release_version"@, JsonView::Text(version)),
        ("root_slot"@, JsonView::Text(root_slot)),
        ("runtime_package_id"@, JsonView::Text(plugin_id)),
        ("runtime_package_revision"@, JsonView::Text(version)),
        ("entrypoint"@, JsonView::Text("default"@)),
    ]
}

proof fn owned_keys_differ()
    ensures
        keys_differ(identity_entries(Seq::empty(), Seq::empty(), Seq::empty())),
        !has_key(identity_entries(Seq::empty(), Seq::empty(), Seq::empty()), "execution_class"@),
        !has_key(identity_entries(Seq::empty(), Seq::empty(), Seq::empty()), "restart_policy"@),
        !has_key(identity_entries(Seq::empty(), Seq::empty(), Seq::empty()), "criticality"@),
        "execution_class"@ != "restart_policy"@,
        "execution_class"@ != "criticality"@,
        "restart_policy"@ != "criticality"@,
{
    reveal_strlit("plugin_id");
    reveal_strlit("release_version");
    reveal_strlit("root_slot");
    reveal_strlit("runtime_package_id");
    reveal_strlit("runtime_package_revision");
    reveal_strlit("entrypoint");
    reveal_strlit("execution_class");
    reveal_strlit("restart_policy");
    reveal_strlit("criticality");
    assert("plugin_id"@.len() == 9 && "release_version"@.len() == 15 && "root_slot"@.len() == 9 && "runtime_package_id"@.len() == 18);
    assert("runtime_package_revision"@.len() == 24 && "entrypoint"@.len() == 10 && "execution_class"@.len() == 15);
    assert("restart_policy"@.len() == 14 && "criticality"@.len() == 11);
    assert("plugin_id"@[0] == 'p' && "root_slot"@[0] == 'r' && "release_version"@[0] == 'r' && "execution_class"@[0] == 'e');
    let entries = identity_entries(Seq::empty(), Seq::empty(), Seq::empty());
    assert(entries.len() == 6);
    assert forall|i: int| 0 <= i < entries.len() implies (#[trigger] entries[i]).0 != "execution_class"@ && entries[i].0 != "restart_policy"@
        && entries[i].0 != "criticality"@ by {}
}

pub(crate) proof fn identity_is_sound(plugin_id: Seq<char>, version: Seq<char>, root_slot: Seq<char>)
    ensures
        keys_differ(identity_entries(plugin_id, version, root_slot)),
        JsonView::Object(identity_entries(plugin_id, version, root_slot)).sound(),
{
    owned_keys_differ();
    let plain = identity_entries(Seq::empty(), Seq::empty(), Seq::empty());
    let entries = identity_entries(plugin_id, version, root_slot);
    assert forall|i: int, j: int| 0 <= i < j < entries.len() implies (#[trigger] entries[i]).0 != (#[trigger] entries[j]).0 by {
        assert(plain[i].0 != plain[j].0);
    }
    assert forall|i: int| 0 <= i < entries.len() implies (#[trigger] entries[i]).1.sound() by {}
    object_is_sound(entries);
}

/// A Descriptor from the fields that a package supplies: generated identity, the supplied fields, and
/// generated execution defaults.
pub open spec fn completed(
    plugin_id: Seq<char>,
    version: Seq<char>,
    root_slot: Seq<char>,
    supplied: Seq<(Seq<char>, JsonView)>,
) -> Seq<(Seq<char>, JsonView)> {
    with_entry(
        with_entry(
            with_entry(
                merged(identity_entries(plugin_id, version, root_slot), supplied, supplied.len()),
                "execution_class"@,
                JsonView::Text("lenso.native-rust@1"@),
            ),
            "restart_policy"@,
            never_restarted(),
        ),
        "criticality"@,
        JsonView::Text("non_critical"@),
    )
}

/// Completes a Descriptor from the fields that a package supplies.
pub fn complete_plugin_descriptor(plugin_id: &str, package_version: &str, root_slot: &str, supplied: Vec<(String, Json)>) -> (r: String)
    requires
        JsonView::Object(entry_models(supplied@)).sound(),
    ensures
        r@ == json_text(JsonView::Object(completed(plugin_id@, package_version@, root_slot@, entry_models(supplied@)))),
{
    let ghost more = entry_models(supplied@);
    let ghost base = identity_entries(plugin_id@, package_version@, root_slot@);
    let mut generated: Vec<(String, Json)> = Vec::new();
    assert(entry_models(generated@) =~= Seq::empty());
    add_entry(&mut generated, "plugin_id", Json::Text(plugin_id.to_owned()));
    add_entry(&mut generated, "release_version", Json::Text(package_version.to_owned()));
    add_entry(&mut generated, "root_slot", Json::Text(root_slot.to_owned()));
    add_entry(&mut generated, "runtime_package_id", Json::Text(plugin_id.to_owned()));
    add_entry(&mut generated, "runtime_package_revision", Json::Text(package_version.to_owned()));
    add_entry(&mut generated, "entrypoint", Json::Text("default".to_owned()));
    proof {
        assert(entry_models(generated@) =~= base);
        identity_is_sound(plugin_id@, package_version@, root_slot@);
        object_is_sound(more);
    }
    let mut i: usize = 0;
    while i < supplied.len()
        invariant
            i <= supplied.len(),
            more == entry_models(supplied@),
            forall|k: int| 0 <= k < more.len() ==> (#[trigger] more[k]).1.sound(),
            entry_models(generated@) == merged(base, more, i as nat),
            JsonView::Object(entry_models(generated@)).sound(),
        decreases supplied.len() - i,
    {
        proof {
            assert(more[i as int] == (supplied@[i as int].0@, supplied@[i as int].1.model()));
        }
        set_entry(&mut generated, supplied[i].0.clone(), supplied[i].1.clone());
        i = i + 1;
    }
    set_entry(&mut generated, "execution_class".to_owned(), Json::Text("lenso.native-rust@1".to_owned()));
    set_entry(&mut generated, "restart_policy".to_owned(), never_restarted_json());
    set_entry(&mut generated, "criticality".to_owned(), Json::Text("non_critical".to_owned()));
    proof {
        object_model(generated);
    }
    write_json(&Json::Object(generated))
}

/// The fields that only the macros generate.
pub open spec fn owned_fields() -> Seq<Seq<char>> {
    seq![
        "plugin_id"@,
        "release_version"@,
        "root_slot"@,
        "runtime_package_id"@,
        "runtime_package_revision"@,
        "entrypoint"@,
        "execution_class"@,
        "restart_policy"@,
        "criticality"@,
    ]
}

/// The first of the first `n` generated fields that supplied fields override.
pub open spec fn overridden(supplied: Seq<(Seq<char>, JsonView)>, n: nat) -> Option<Seq<char>>
    decreases n,
{
    if n == 0 {
        None
    } else {
        match overridden(supplied, (n - 1) as nat) {
            Some(name) => Some(name),
            None => if has_key(supplied, owned_fields()[n - 1]) {
                Some(owned_fields()[n - 1])
            } else {
                None
            },
        }
    }
}

proof fn nothing_is_overridden(supplied: Seq<(Seq<char>, JsonView)>, n: nat, i: int)
    requires
        overridden(supplied, n) is None,
        0 <= i < n <= 9,
    ensures
        !has_key(supplied, owned_fields()[i]),
    decreases n,
{
    if i < n - 1 {
        nothing_is_overridden(supplied, (n - 1) as nat, i);
    }
}

proof fn override_stays(supplied: Seq<(Seq<char>, JsonView)>, n: nat, m: nat)
    requires
        n <= m,
        overridden(supplied, n) is Some,
    ensures
        overridden(supplied, m) == overridden(supplied, n),
    decreases m,
{
    if n < m {
        override_stays(supplied, n, (m - 1) as nat);
    }
}

/// Finds a generated field that supplied fields override.
fn find_override(supplied: &Vec<(String, Json)>) -> (r: Option<&'static str>)
    ensures
        text::opt_str(r) == overridden(entry_models(supplied@), 9),
{
    let names: [&'static str; 9] = [
        "plugin_id",
        "release_version",
        "root_slot",
        "runtime_package_id",
        "runtime_package_revision",
        "entrypoint",
        "execution_class",
        "restart_policy",
        "criticality",
    ];
    assert(literals(names@) =~= owned_fields());
    let mut i: usize = 0;
    while i < 9
        invariant
            i <= 9,
            literals(names@) == owned_fields(),
            overridden(entry_models(supplied@), i as nat) is None,
        decreases 9 - i,
    {
        assert(literals(names@)[i as int] == names@[i as int]@);
        if holds_key(supplied, names[i]) {
            proof {
                override_stays(entry_models(supplied@), (i + 1) as nat, 9);
            }
            return Some(names[i]);
        }
        i = i + 1;
    }
    None
}

/// Decides whether an object has a key.
fn holds_key(entries: &Vec<(String, Json)>, key: &str) -> (r: bool)
    ensures
        r == has_key(entry_models(entries@), key@),
{
    let ghost trees = entry_models(entries@);
    let mut i: usize = 0;
    while i < entries.len()
        invariant
            i <= entries.len(),
            trees == entry_models(entries@),
            forall|k: int| 0 <= k < i ==> (#[trigger] trees[k]).0 != key@,
        decreases entries.len() - i,
    {
        assert(trees[i as int].0 == entries@[i as int].0@);
        if text::same(entries[i].0.as_str(), key) {
            return true;
        }
        i = i + 1;
    }
    false
}

/// What a package document that is given or not comes to.
pub open spec fn opt_document(document: Option<Result<Json, AuthoringError>>) -> Option<Result<JsonView, Seq<char>>> {
    match document {
        Some(read) => Some(document_outcome(read)),
        None => None,
    }
}

/// The supplied fields with the package's Schema and defaults, or why they are refused.
pub open spec fn with_documents(
    supplied: Seq<(Seq<char>, JsonView)>,
    schema: Option<Result<JsonView, Seq<char>>>,
    defaults: Option<Result<JsonView, Seq<char>>>,
) -> Result<Seq<(Seq<char>, JsonView)>, Seq<char>> {
    match schema {
        Some(Err(detail)) => Err(detail),
        Some(Ok(schema)) => {
            let described = with_entry(supplied, "configuration_schema"@, schema);
            match defaults {
                None => Ok(described),
                Some(Err(detail)) => Err(detail),
                Some(Ok(defaults)) => match defaults_fault(defaults, schema) {
                    Some(detail) => Err("invalid package configuration defaults: "@ + detail),
                    None => Ok(with_entry(described, "configuration_defaults"@, defaults)),
                },
            }
        },
        None => if defaults is Some {
            Err("`configuration_defaults` requires `configuration_schema`"@)
        } else {
            Ok(supplied)
        },
    }
}

/// What the Descriptor of a factory function comes to: its fields, or why they are refused.
pub open spec fn described(
    plugin_id: Seq<char>,
    root_slot: Seq<char>,
    descriptor: Result<JsonView, Seq<char>>,
    schema: Option<Result<JsonView, Seq<char>>>,
    defaults: Option<Result<JsonView, Seq<char>>>,
    version: Option<Seq<char>>,
) -> Result<Seq<(Seq<char>, JsonView)>, Seq<char>> {
    match descriptor {
        Err(detail) => Err("Plugin Descriptor input is not valid JSON: "@ + detail),
        Ok(JsonView::Object(supplied)) => if has_key(supplied, "configuration_schema"@) {
            Err(
                "Plugin Descriptor input cannot contain `configuration_schema`; use the package-owned schema path attribute"@,
            )
        } else if has_key(supplied, "configuration_defaults"@) {
            Err(
                "Plugin Descriptor input cannot contain `configuration_defaults`; use the package-owned defaults path attribute"@,
            )
        } else {
            match with_documents(supplied, schema, defaults) {
                Err(detail) => Err(detail),
                Ok(fields) => match overridden(fields, 9) {
                    Some(name) => Err("Plugin Descriptor input cannot override generated field `"@ + name + "`"@),
                    None => match version {
                        None => Err("CARGO_PKG_VERSION is unavailable while deriving Plugin Descriptor"@),
                        Some(version) => Ok(completed(plugin_id, version, root_slot, fields)),
                    },
                },
            }
        },
        Ok(_) => Err("Plugin Descriptor input must be an object"@),
    }
}

/// A package document that is there is one that a JSON reader handed out.
pub open spec fn opt_sound(document: Option<Result<Json, AuthoringError>>) -> bool {
    document is Some && document->Some_0 is Ok ==> document->Some_0->Ok_0.model().sound()
}

/// Derives the Descriptor of a factory function.
pub fn plugin_descriptor(
    plugin_id: &str,
    root_slot: &str,
    descriptor: &str,
    configuration_schema: Option<Result<Json, AuthoringError>>,
    configuration_defaults: Option<Result<Json, AuthoringError>>,
    package_version: Option<&str>,
) -> (r: Result<String, AuthoringError>)
    requires
        opt_sound(configuration_schema),
        opt_sound(configuration_defaults),
    ensures
        match described(
            plugin_id@,
            root_slot@,
            read_json(encode_utf8(descriptor@)),
            opt_document(configuration_schema),
            opt_document(configuration_defaults),
            text::opt_str(package_version),
        ) {
            Ok(fields) => r is Ok && r->Ok_0@ == json_text(JsonView::Object(fields)),
            Err(detail) => r is Err && r->Err_0@ == detail,
        },
{
    let supplied = match json::from_bytes(descriptor.as_bytes()) {
        Ok(supplied) => supplied,
        Err(detail) => return Err(
            AuthoringError { detail: text::behind("Plugin Descriptor input is not valid JSON: ", detail.as_str()) },
        ),
    };
    let mut fields: Vec<(String, Json)> = match supplied {
        Json::Object(fields) => fields,
        _ => return Err(refused("Plugin Descriptor input must be an object")),
    };
    proof {
        object_model(fields);
    }
    if holds_key(&fields, "configuration_schema") {
        return Err(
            refused("Plugin Descriptor input cannot contain `configuration_schema`; use the package-owned schema path attribute"),
        );
    }
    if holds_key(&fields, "configuration_defaults") {
        return Err(
            refused("Plugin Descriptor input cannot contain `configuration_defaults`; use the package-owned defaults path attribute"),
        );
    }
    match configuration_schema {
        Some(Err(error)) => return Err(error),
        Some(Ok(schema)) => match configuration_defaults {
            None => {
                set_entry(&mut fields, "configuration_schema".to_owned(), schema);
            },
            Some(Err(error)) => return Err(error),
            Some(Ok(defaults)) => {
                match config::validate_configuration_defaults(&defaults, &schema) {
                    Ok(()) => {},
                    Err(detail) => return Err(
                        AuthoringError { detail: text::behind("invalid package configuration defaults: ", detail.as_str()) },
                    ),
                }
                set_entry(&mut fields, "configuration_schema".to_owned(), schema);
                set_entry(&mut fields, "configuration_defaults".to_owned(), defaults);
            },
        },
        None => if configuration_defaults.is_some() {
            return Err(refused("`configuration_defaults` requires `configuration_schema`"));
        },
    }
    match find_override(&fields) {
        Some(name) => return Err(
            AuthoringError { detail: text::around("Plugin Descriptor input cannot override generated field `", name, "`") },
        ),
        None => {},
    }
    match package_version {
        None => Err(refused("CARGO_PKG_VERSION is unavailable while deriving Plugin Descriptor")),
        Some(version) => Ok(complete_plugin_descriptor(plugin_id, version, root_slot, fields)),
    }
}

proof fn merging_keeps_other_keys(
    entries: Seq<(Seq<char>, JsonView)>,
    more: Seq<(Seq<char>, JsonView)>,
    n: nat,
    key: Seq<char>,
)
    requires
        keys_differ(entries),
        n <= more.len(),
        !has_key(more, key),
    ensures
        keys_differ(merged(entries, more, n)),
        member(JsonView::Object(merged(entries, more, n)), key) == member(JsonView::Object(entries), key),
    decreases n,
{
    if n > 0 {
        merging_keeps_other_keys(entries, more, (n - 1) as nat, key);
        assert(more[n - 1].0 != key);
        insertion_sets_one_key(merged(entries, more, (n - 1) as nat), more[n - 1].0, more[n - 1].1, key);
    }
}

/// A generated Descriptor owns its identity and its execution defaults, whatever a package supplies.
pub proof fn generated_fields_are_owned(
    plugin_id: Seq<char>,
    root_slot: Seq<char>,
    descriptor: Result<JsonView, Seq<char>>,
    schema: Option<Result<JsonView, Seq<char>>>,
    defaults: Option<Result<JsonView, Seq<char>>>,
    version: Option<Seq<char>>,
)
    requires
        described(plugin_id, root_slot, descriptor, schema, defaults, version) is Ok,
    ensures
        version is Some,
        ({
            let fields = JsonView::Object(described(plugin_id, root_slot, descriptor, schema, defaults, version)->Ok_0);
            &&& member(fields, "plugin_id"@) == Some(JsonView::Text(plugin_id))
            &&& member(fields, "release_version"@) == Some(JsonView::Text(version->Some_0))
            &&& member(fields, "root_slot"@) == Some(JsonView::Text(root_slot))
            &&& member(fields, "runtime_package_id"@) == Some(JsonView::Text(plugin_id))
            &&& member(fields, "runtime_package_revision"@) == Some(JsonView::Text(version->Some_0))
            &&& member(fields, "entrypoint"@) == Some(JsonView::Text("default"@))
            &&& member(fields, "execution_class"@) == Some(JsonView::Text("lenso.native-rust@1"@))
            &&& member(fields, "restart_policy"@) == Some(never_restarted())
            &&& member(fields, "criticality"@) == Some(JsonView::Text("non_critical"@))
        }),
{
    let supplied = with_documents(descriptor->Ok_0->Object_0, schema, defaults)->Ok_0;
    let base = identity_entries(plugin_id, version->Some_0, root_slot);
    identity_is_sound(plugin_id, version->Some_0, root_slot);
    object_is_sound(base);
    owned_keys_differ();
    let plain = identity_entries(Seq::empty(), Seq::empty(), Seq::empty());
    let first = merged(base, supplied, supplied.len());
    let second = with_entry(first, "execution_class"@, JsonView::Text("lenso.native-rust@1"@));
    let third = with_entry(second, "restart_policy"@, never_restarted());
    let last = with_entry(third, "criticality"@, JsonView::Text("non_critical"@));
    nothing_is_overridden(supplied, 9, 0);
    merging_keeps_other_keys(base, supplied, supplied.len(), "plugin_id"@);
    insertion_sets_one_key(first, "execution_class"@, JsonView::Text("lenso.native-rust@1"@), "execution_class"@);
    insertion_sets_one_key(second, "restart_policy"@, never_restarted(), "execution_class"@);
    insertion_sets_one_key(third, "criticality"@, JsonView::Text("non_critical"@), "execution_class"@);
    insertion_sets_one_key(third, "criticality"@, JsonView::Text("non_critical"@), "restart_policy"@);
    assert forall|i: int| 0 <= i < 6 implies member(JsonView::Object(last), (#[trigger] base[i]).0) == Some(base[i].1) by {
        let key = base[i].0;
        assert(plain[i].0 == key);
        assert(owned_fields()[i] == key);
        nothing_is_overridden(supplied, 9, i);
        merging_keeps_other_keys(base, supplied, supplied.len(), key);
        insertion_sets_one_key(first, "execution_class"@, JsonView::Text("lenso.native-rust@1"@), key);
        insertion_sets_one_key(second, "restart_policy"@, never_restarted(), key);
        insertion_sets_one_key(third, "criticality"@, JsonView::Text("non_critical"@), key);
        let p = key_position(base, key);
        assert(has_key(base, key));
        assert(base[p].0 == key);
        assert(p == i);
    }
    assert(base[0].0 == "plugin_id"@ && base[1].0 == "release_version"@ && base[2].0 == "root_slot"@);
    assert(base[3].0 == "runtime_package_id"@ && base[4].0 == "runtime_package_revision"@ && base[5].0 == "entrypoint"@);
}

/// The text of a struct-level Plugin's Descriptor before its configuration Schema.
pub open spec fn descriptor_prefix(
    plugin_id: Seq<char>,
    version: Seq<char>,
    root_slot: Seq<char>,
    authoring_version: u32,
    runtime_profile: Seq<char>,
) -> Seq<char> {
    "{\"authoring_version\":"@ + decimal(authoring_version as nat) + ",\"runtime_profile\":"@ + quoted(runtime_profile) + ",\"plugin_id\":"@
        + quoted(plugin_id) + ",\"release_version\":"@ + quoted(version) + ",\"root_slot\":"@ + quoted(root_slot) + ",\"runtime_package_id\":"@
        + quoted(plugin_id) + ",\"runtime_package_revision\":"@ + quoted(version) + ",\"entrypoint\":\"default\",\"configuration_schema\":"@
}

/// The text between the configuration and the provided Capabilities.
pub const AFTER_SCHEMA: &'static str = ",\"provided_capabilities\":[";

/// The text between the provided and the required Capabilities.
pub const AFTER_PROVIDED: &'static str = "],\"required_capabilities\":[";

/// The text behind the required Capabilities.
pub const AFTER_REQUIRED: &'static str = "],\"execution_class\":\"lenso.native-rust@1\",\"restart_policy\":{\"mode\":\"never\",\"max_attempts\":0,\"window\":{\"secs\":0,\"nanos\":0},\"backoff\":{\"secs\":0,\"nanos\":0},\"stability\":{\"secs\":0,\"nanos\":0},\"jitter\":{\"secs\":0,\"nanos\":0}},\"criticality\":\"non_critical\"}";

/// The texts around the configuration and the Capabilities of a struct-level Plugin's Descriptor.
pub fn descriptor_affixes(
    plugin_id: &str,
    package_version: &str,
    root_slot: &str,
    authoring_version: u32,
    runtime_profile: &str,
) -> (r: (String, &'static str, &'static str, &'static str))
    ensures
        r.0@ == descriptor_prefix(plugin_id@, package_version@, root_slot@, authoring_version, runtime_profile@),
        r.1@ == AFTER_SCHEMA@,
        r.2@ == AFTER_PROVIDED@,
        r.3@ == AFTER_REQUIRED@,
{
    let id = quote_text(plugin_id);
    let version = quote_text(package_version);
    let mut prefix = text::behind("{\"authoring_version\":", text::print_u128(authoring_version as u128).as_str());
    prefix.append(",\"runtime_profile\":");
    prefix.append(quote_text(runtime_profile).as_str());
    prefix.append(",\"plugin_id\":");
    prefix.append(id.as_str());
    prefix.append(",\"release_version\":");
    prefix.append(version.as_str());
    prefix.append(",\"root_slot\":");
    prefix.append(quote_text(root_slot).as_str());
    prefix.append(",\"runtime_package_id\":");
    prefix.append(id.as_str());
    prefix.append(",\"runtime_package_revision\":");
    prefix.append(version.as_str());
    prefix.append(",\"entrypoint\":\"default\",\"configuration_schema\":");
    (prefix, AFTER_SCHEMA, AFTER_PROVIDED, AFTER_REQUIRED)
}

/// What `toml` reads from a text: the document as a JSON tree, or the text of the error. A date or time
/// is an object with the one key `$__toml_private_datetime`.
pub uninterp spec fn toml_tree(text: Seq<char>) -> Result<JsonView, Seq<char>>;

/// `toml::from_str` reads a TOML document, or fails with an error, which is given by its text;
/// `serde_json::to_value` turns the document into a JSON value.
#[verifier::external_body]
fn manifest_value(manifest: &str) -> (r: Result<serde_json::Value, String>)
    ensures
        r is Ok <==> toml_tree(manifest@) is Ok,
        r is Ok ==> toml_tree(manifest@) == Ok::<JsonView, Seq<char>>(json::value_tree(r->Ok_0)),
        r is Err ==> toml_tree(manifest@) == Err::<JsonView, Seq<char>>(r->Err_0@),
{
    let document = toml::from_str::<toml::Value>(manifest).map_err(|error| error.to_string())?;
    serde_json::to_value(document).map_err(|error| error.to_string())
}

/// A tree stands for a TOML table.
pub open spec fn is_table(tree: JsonView) -> bool {
    tree is Object && member(tree, "$__toml_private_datetime"@) is None
}

/// The value under a key of a TOML table.
pub open spec fn table_entry(tree: Option<JsonView>, key: Seq<char>) -> Option<JsonView> {
    match tree {
        Some(table) => if is_table(table) {
            member(table, key)
        } else {
            None
        },
        None => None,
    }
}

/// The text under a key of a TOML table.
pub open spec fn table_text(tree: JsonView, key: Seq<char>) -> Option<Seq<char>> {
    match table_entry(Some(tree), key) {
        Some(JsonView::Text(value)) => Some(value),
        _ => None,
    }
}

/// The Plugin identity and root Slot that a package manifest names, or why it names none.
pub open spec fn metadata(document: JsonView) -> Result<(Seq<char>, Seq<char>), Seq<char>> {
    match table_entry(table_entry(table_entry(Some(document), "package"@), "metadata"@), "lenso"@) {
        Some(lenso) => if !is_table(lenso) {
            Err("missing `[package.metadata.lenso]` in Cargo.toml"@)
        } else {
            match (table_text(lenso, "plugin-id"@), table_text(lenso, "root-slot"@)) {
                (None, _) => Err("missing `plugin-id = \"...\"` in `[package.metadata.lenso]`"@),
                (_, None) => Err("missing `root-slot = \"...\"` in `[package.metadata.lenso]`"@),
                (Some(plugin_id), Some(root_slot)) => Ok((plugin_id, root_slot)),
            }
        },
        None => Err("missing `[package.metadata.lenso]` in Cargo.toml"@),
    }
}

/// Finds the value under a key of a TOML table.
fn find_entry<'a>(tree: Option<&'a Json>, key: &str) -> (r: Option<&'a Json>)
    requires
        tree is Some ==> tree->Some_0.model().sound(),
    ensures
        match r {
            Some(found) => tree is Some && table_entry(Some(tree->Some_0.model()), key@) == Some(found.model()) && found.model().sound(),
            None => match tree {
                Some(table) => table_entry(Some(table.model()), key@) is None,
                None => true,
            },
        },
{
    match tree {
        Some(table) => {
            if json::get(table, "$__toml_private_datetime").is_some() {
                return None;
            }
            json::get(table, key)
        },
        None => None,
    }
}

/// What the metadata of a package came to.
pub open spec fn metadata_outcome(r: Result<(String, String), AuthoringError>) -> Result<(Seq<char>, Seq<char>), Seq<char>> {
    match r {
        Ok((plugin_id, root_slot)) => Ok((plugin_id@, root_slot@)),
        Err(error) => Err(error@),
    }
}

/// Reads the Plugin identity and root Slot from a manifest document.
pub fn read_metadata(document: &Json) -> (r: Result<(String, String), AuthoringError>)
    requires
        document.model().sound(),
    ensures
        metadata_outcome(r) == metadata(document.model()),
{
    let lenso = find_entry(find_entry(find_entry(Some(document), "package"), "metadata"), "lenso");
    let lenso = match lenso {
        Some(Json::Object(_)) => lenso.unwrap(),
        _ => return Err(refused("missing `[package.metadata.lenso]` in Cargo.toml")),
    };
    if json::get(lenso, "$__toml_private_datetime").is_some() {
        return Err(refused("missing `[package.metadata.lenso]` in Cargo.toml"));
    }
    let plugin_id = match find_entry(Some(lenso), "plugin-id") {
        Some(Json::Text(plugin_id)) => plugin_id.clone(),
        _ => return Err(refused("missing `plugin-id = \"...\"` in `[package.metadata.lenso]`")),
    };
    let root_slot = match find_entry(Some(lenso), "root-slot") {
        Some(Json::Text(root_slot)) => root_slot.clone(),
        _ => return Err(refused("missing `root-slot = \"...\"` in `[package.metadata.lenso]`")),
    };
    Ok((plugin_id, root_slot))
}

/// Reads the Plugin identity and root Slot from the text of a package manifest.
pub fn plugin_metadata(shown: &str, manifest: &str) -> (r: Result<(String, String), AuthoringError>)
    ensures
        metadata_outcome(r) == match toml_tree(manifest@) {
            Err(detail) => Err("failed to parse "@ + shown@ + ": "@ + detail),
            Ok(document) => metadata(document),
        },
{
    match manifest_value(manifest) {
        Err(detail) => {
            let start = text::around("failed to parse ", shown, ": ");
            Err(AuthoringError { detail: text::behind(start.as_str(), detail.as_str()) })
        },
        Ok(value) => read_metadata(&json::json_of(&value)),
    }
}

} // verus!
