//! Laws of Plugin configuration: which defaults a Schema accepts, what is generated for a configuration
//! type, and what a Descriptor says of both.
use vstd::prelude::*;

use crate::authoring::config::{
    below, default_fault, defaults_fault, double_rank, entries_default_fault, is_number, items_default_fault, list_schema, named_kind, own_fault,
    property_rule, same_tree, type_fits, type_only, type_schema, PropertyRule,
};
use crate::authoring::descriptor::{
    completed, described, field_entered, field_name, identity_entries, identity_is_sound, insertion_sets_one_key, keys_differ, merged, metadata,
    never_restarted, overridden, owned_fields, package_document, schema_tree, with_documents, with_entry, ConfigSchema,
};
use crate::authoring::fields::{named_requirement, port_prefix, requirement_of, FieldsView, KindView, PortCardinality};
use crate::authoring::plugin_struct::{dependency_requirements, port_requirements, requirements_of};
use crate::authoring::shape::{PathShape, TypeShape};
use crate::authoring::AuthoringError;
use crate::json::{entry_models, has_key, key_position, member, read_json, Json, JsonView};
use crate::laws::authoring::wraps;
use crate::text::{decimal, texts};

verus! {

/// A value meets what a Schema says of it alone.
pub open spec fn meets(value: JsonView, schema: JsonView) -> bool {
    &&& schema is Object
    &&& member(schema, "x-lenso-sensitive"@) != Some(JsonView::Bool(true))
    &&& member(schema, "type"@) matches Some(JsonView::Text(kind)) ==> type_fits(value, kind)
    &&& is_number(value) && member(schema, "minimum"@) is Some ==> is_number(member(schema, "minimum"@)->Some_0) && !below(
        value,
        member(schema, "minimum"@)->Some_0,
    )
    &&& member(schema, "const"@) matches Some(only) ==> same_tree(value, only)
    &&& member(schema, "enum"@) matches Some(allowed) ==> allowed is List && exists|i: int|
        0 <= i < allowed->List_0.len() && same_tree(#[trigger] allowed->List_0[i], value)
    &&& value is Object && member(schema, "properties"@) is Some ==> member(schema, "properties"@)->Some_0 is Object
}

proof fn lemma_entries(entries: Seq<(Seq<char>, JsonView)>, schema: JsonView, path: Seq<char>, n: nat)
    requires
        n <= entries.len(),
    ensures
        entries_default_fault(entries, schema, path, n) is None <==> forall|i: int|
            0 <= i < n ==> allowed_entry(#[trigger] entries[i], schema, path),
    decreases n,
{
    if n > 0 {
        lemma_entries(entries, schema, path, (n - 1) as nat);
        assert(allowed_entry(entries[n - 1], schema, path) || !allowed_entry(entries[n - 1], schema, path));
    }
}

/// A default for one property is accepted.
pub open spec fn allowed_entry(entry: (Seq<char>, JsonView), schema: JsonView, path: Seq<char>) -> bool {
    match property_rule(schema, entry.0) {
        PropertyRule::Schema(rule) => default_fault(entry.1, rule, path + "."@ + entry.0) is None,
        PropertyRule::Forbidden => false,
        PropertyRule::Any => true,
    }
}

proof fn lemma_items(items: Seq<JsonView>, schema: JsonView, path: Seq<char>, n: nat)
    requires
        n <= items.len(),
    ensures
        items_default_fault(items, schema, path, n) is None <==> forall|i: int|
            0 <= i < n ==> default_fault(#[trigger] items[i], schema, path + "["@ + decimal(i as nat) + "]"@) is None,
    decreases n,
{
    if n > 0 {
        lemma_items(items, schema, path, (n - 1) as nat);
        assert(items[n - 1] == items[n - 1]);
    }
}

/// A default is accepted exactly where it meets its Schema, each of its properties meets the rule for
/// it, and each of its items meets the Schema of items.
pub proof fn an_accepted_default_meets_its_schema(value: JsonView, schema: JsonView, path: Seq<char>)
    ensures
        default_fault(value, schema, path) is None <==> {
            &&& meets(value, schema)
            &&& value matches JsonView::Object(entries) ==> forall|i: int| 0 <= i < entries.len() ==> allowed_entry(#[trigger] entries[i], schema, path)
            &&& value is List && member(schema, "items"@) is Some ==> forall|i: int|
                0 <= i < value->List_0.len() ==> default_fault(
                    #[trigger] value->List_0[i],
                    member(schema, "items"@)->Some_0,
                    path + "["@ + decimal(i as nat) + "]"@,
                ) is None
        },
{
    assert(own_fault(value, schema, path) is None <==> meets(value, schema));
    match value {
        JsonView::Object(entries) => {
            lemma_entries(entries, schema, path, entries.len());
        },
        JsonView::List(items) => {
            if member(schema, "items"@) is Some {
                lemma_items(items, member(schema, "items"@)->Some_0, path, items.len());
            }
        },
        _ => {},
    }
}

/// The rule for a property is its own, or else that for additional ones: `false` forbids them, an object
/// is their Schema, and everything else allows them.
pub proof fn a_property_has_its_own_rule(schema: JsonView, name: Seq<char>)
    ensures
        member(schema, "properties"@) matches Some(properties) ==> (member(properties, name) is Some ==> property_rule(schema, name)
            == PropertyRule::Schema(member(properties, name)->Some_0)),
        (member(schema, "properties"@) is None || member(member(schema, "properties"@)->Some_0, name) is None) ==> {
            &&& property_rule(schema, name) is Forbidden <==> member(schema, "additionalProperties"@) == Some(JsonView::Bool(false))
            &&& property_rule(schema, name) is Schema <==> member(schema, "additionalProperties"@) is Some && member(
                schema,
                "additionalProperties"@,
            )->Some_0 is Object
            &&& property_rule(schema, name) matches PropertyRule::Schema(rule) ==> member(schema, "additionalProperties"@) == Some(rule)
        },
{
}

/// Numbers are ordered by their bits: a sign turns the order about, and both zeroes are one.
pub proof fn numbers_are_ordered_by_their_bits(a: u64, b: u64)
    requires
        a < 0x8000_0000_0000_0000,
        b < 0x8000_0000_0000_0000,
    ensures
        double_rank(a) < double_rank(b) <==> a < b,
        double_rank((a + 0x8000_0000_0000_0000) as u64) == -double_rank(a),
        double_rank((a + 0x8000_0000_0000_0000) as u64) <= double_rank(b),
        double_rank(0x8000_0000_0000_0000) == double_rank(0),
{
}

/// The type of a configuration field: an option makes it optional, a list makes it a list, and a plain
/// type has the Schema of its kind.
pub proof fn a_configuration_type_has_its_schema(ty: TypeShape, inner: TypeShape, name: Seq<char>)
    ensures
        wraps(ty, "Option"@, inner) && type_schema(inner) is Ok ==> type_schema(ty) == Ok::<(JsonView, bool), Seq<char>>(
            (type_schema(inner)->Ok_0.0, true),
        ),
        wraps(ty, "Vec"@, inner) && type_schema(inner) is Ok ==> type_schema(ty) == Ok::<(JsonView, bool), Seq<char>>(
            (list_schema(type_schema(inner)->Ok_0.0), false),
        ),
        (wraps(ty, "Option"@, inner) || wraps(ty, "Vec"@, inner)) && type_schema(inner) is Err ==> type_schema(ty) is Err,
        ty.path is None ==> type_schema(ty) is Err,
        ty.path is Some && ty.path->Some_0.segments@.len() > 0 && named_kind(ty.path->Some_0.segments@.last().ident@) is Some
            && ty.path->Some_0.segments@.last().ident@ != "Option"@ && ty.path->Some_0.segments@.last().ident@ != "Vec"@ ==> type_schema(ty) == Ok::<
            (JsonView, bool),
            Seq<char>,
        >((type_only(named_kind(ty.path->Some_0.segments@.last().ident@)->Some_0), false)),
        named_kind(name) is Some ==> named_kind(name)->Some_0 == "string"@ || named_kind(name)->Some_0 == "boolean"@ || named_kind(name)->Some_0
            == "number"@ || named_kind(name)->Some_0 == "integer"@,
        named_kind(name) == Some("string"@) <==> name == "String"@,
        named_kind(name) == Some("boolean"@) <==> name == "bool"@,
        named_kind(name) == Some("number"@) <==> name == "f32"@ || name == "f64"@,
{
    reveal_strlit("Option");
    reveal_strlit("Vec");
    assert("Option"@.len() != "Vec"@.len());
    reveal_strlit("string");
    reveal_strlit("boolean");
    reveal_strlit("number");
    reveal_strlit("integer");
    reveal_strlit("String");
    reveal_strlit("bool");
    reveal_strlit("f32");
    reveal_strlit("f64");
    assert("string"@[0] == 's' && "number"@[0] == 'n' && "boolean"@[0] == 'b' && "integer"@[0] == 'i');
    assert("String"@.len() == 6 && "bool"@.len() == 4 && "f32"@.len() == 3 && "f64"@.len() == 3);
}

/// A field that is entered stands in the Schema under its name, with its default where it has one that
/// its type accepts, and is required unless it is optional. Every other field stays as it was.
pub proof fn an_entered_field_stands_in_the_schema(
    before: ConfigSchema,
    name: Seq<char>,
    schema: JsonView,
    optional: bool,
    default: Option<Json>,
    r: Result<(), AuthoringError>,
    after: ConfigSchema,
    other: Seq<char>,
)
    requires
        keys_differ(entry_models(before.properties@)),
        keys_differ(entry_models(before.defaults@)),
        field_entered(before, name, schema, optional, default, r, after),
        r is Ok,
        other != name,
    ensures
        member(JsonView::Object(entry_models(after.properties@)), name) == Some(schema),
        default is Some ==> member(JsonView::Object(entry_models(after.defaults@)), name) == Some(default->Some_0.model()),
        default is None ==> entry_models(after.defaults@) == entry_models(before.defaults@),
        !optional ==> texts(after.required@).contains(name),
        optional ==> texts(after.required@) == texts(before.required@),
        member(JsonView::Object(entry_models(after.properties@)), other) == member(JsonView::Object(entry_models(before.properties@)), other),
        member(JsonView::Object(entry_models(after.defaults@)), other) == member(JsonView::Object(entry_models(before.defaults@)), other),
        texts(after.required@).contains(other) <==> texts(before.required@).contains(other),
{
    insertion_sets_one_key(entry_models(before.properties@), name, schema, other);
    if default is Some {
        insertion_sets_one_key(entry_models(before.defaults@), name, default->Some_0.model(), other);
    }
    if !optional {
        let a = texts(before.required@);
        let b = texts(after.required@);
        assert(b[b.len() - 1] == name);
        if a.contains(other) {
            let k = choose|k: int| 0 <= k < a.len() && a[k] == other;
            assert(b[k] == other);
        }
        if b.contains(other) {
            let k = choose|k: int| 0 <= k < b.len() && b[k] == other;
            assert(a[k] == other);
        }
    }
}

/// A generated Schema is that of an object with its properties and no others.
pub proof fn a_generated_schema_is_closed(required: Seq<Seq<char>>, properties: Seq<(Seq<char>, JsonView)>, i: int)
    ensures
        ({
            let schema = schema_tree(required, properties);
            &&& member(schema, "type"@) == Some(JsonView::Text("object"@))
            &&& member(schema, "additionalProperties"@) == Some(JsonView::Bool(false))
            &&& member(schema, "properties"@) == Some(JsonView::Object(properties))
            &&& member(schema, "required"@) is Some && member(schema, "required"@)->Some_0 is List
            &&& member(schema, "required"@)->Some_0->List_0.len() == required.len()
            &&& 0 <= i < required.len() ==> member(schema, "required"@)->Some_0->List_0[i] == JsonView::Text(required[i])
        }),
{
    reveal_strlit("$schema");
    reveal_strlit("type");
    reveal_strlit("additionalProperties");
    reveal_strlit("required");
    reveal_strlit("properties");
    assert("$schema"@.len() == 7 && "type"@.len() == 4 && "additionalProperties"@.len() == 20 && "required"@.len() == 8 && "properties"@.len() == 10);
    let schema = schema_tree(required, properties);
    let entries = schema->Object_0;
    assert(entries[1].0 == "type"@);
    assert(entries[2].0 == "additionalProperties"@);
    assert(entries[3].0 == "required"@);
    assert(entries[4].0 == "properties"@);
}

/// A field goes by the last name that it was given, or else by its own.
pub proof fn a_field_goes_by_its_last_name(ident: Seq<char>, renames: Seq<Seq<char>>, name: Seq<char>)
    ensures
        field_name(ident, Seq::empty()) == ident,
        field_name(ident, renames.push(name)) == name,
{
    assert(renames.push(name).last() == name);
}

/// A document of a package is accepted exactly where it is a JSON object.
pub proof fn a_package_document_is_an_object(label: Seq<char>, shown: Seq<char>, bytes: Seq<u8>)
    ensures
        package_document(label, shown, bytes) is Ok <==> read_json(bytes) is Ok && read_json(bytes)->Ok_0 is Object,
        package_document(label, shown, bytes) is Ok ==> package_document(label, shown, bytes) == read_json(bytes),
{
}

proof fn lemma_overridden(supplied: Seq<(Seq<char>, JsonView)>, n: nat)
    requires
        n <= 9,
    ensures
        overridden(supplied, n) is None <==> forall|i: int| 0 <= i < n ==> !has_key(supplied, #[trigger] owned_fields()[i]),
    decreases n,
{
    if n > 0 {
        lemma_overridden(supplied, (n - 1) as nat);
        assert(owned_fields()[n - 1] == owned_fields()[n - 1]);
    }
}

proof fn lemma_merged(entries: Seq<(Seq<char>, JsonView)>, more: Seq<(Seq<char>, JsonView)>, n: nat, i: int)
    requires
        keys_differ(entries),
        keys_differ(more),
        n <= more.len(),
    ensures
        keys_differ(merged(entries, more, n)),
        0 <= i < n ==> member(JsonView::Object(merged(entries, more, n)), more[i].0) == Some(more[i].1),
    decreases n,
{
    if n > 0 {
        lemma_merged(entries, more, (n - 1) as nat, i);
        if 0 <= i < n - 1 {
            assert(more[i].0 != more[n - 1].0);
            insertion_sets_one_key(merged(entries, more, (n - 1) as nat), more[n - 1].0, more[n - 1].1, more[i].0);
        } else {
            insertion_sets_one_key(merged(entries, more, (n - 1) as nat), more[n - 1].0, more[n - 1].1, more[n - 1].0);
        }
    }
}

/// The nine fields of a Descriptor that are generated.
pub open spec fn is_generated(name: Seq<char>) -> bool {
    ||| name == "plugin_id"@
    ||| name == "release_version"@
    ||| name == "root_slot"@
    ||| name == "runtime_package_id"@
    ||| name == "runtime_package_revision"@
    ||| name == "entrypoint"@
    ||| name == "execution_class"@
    ||| name == "restart_policy"@
    ||| name == "criticality"@
}

/// A package supplies no field that is generated, and no configuration document but by its file.
pub proof fn a_package_supplies_only_its_own_fields(
    plugin_id: Seq<char>,
    root_slot: Seq<char>,
    descriptor: Result<JsonView, Seq<char>>,
    schema: Option<Result<JsonView, Seq<char>>>,
    defaults: Option<Result<JsonView, Seq<char>>>,
    version: Option<Seq<char>>,
    name: Seq<char>,
)
    requires
        described(plugin_id, root_slot, descriptor, schema, defaults, version) is Ok,
    ensures
        descriptor is Ok && descriptor->Ok_0 is Object,
        has_key(descriptor->Ok_0->Object_0, name) ==> !is_generated(name) && name != "configuration_schema"@ && name != "configuration_defaults"@,
        version is Some,
        defaults is Some ==> schema is Some,
        schema is Some ==> schema->Some_0 is Ok,
        defaults is Some ==> defaults->Some_0 is Ok && defaults_fault(defaults->Some_0->Ok_0, schema->Some_0->Ok_0) is None,
{
    let supplied = descriptor->Ok_0->Object_0;
    let fields = with_documents(supplied, schema, defaults)->Ok_0;
    lemma_overridden(fields, 9);
    if has_key(supplied, name) {
        let p = key_position(supplied, name);
        assert(supplied[p].0 == name);
        assert(has_key(fields, name)) by {
            assert(fields[p].0 == name);
        }
        if is_generated(name) {
            let owned = owned_fields();
            assert(owned[0] == "plugin_id"@ && owned[1] == "release_version"@ && owned[2] == "root_slot"@ && owned[3] == "runtime_package_id"@
                && owned[4] == "runtime_package_revision"@ && owned[5] == "entrypoint"@ && owned[6] == "execution_class"@ && owned[7]
                == "restart_policy"@ && owned[8] == "criticality"@);
            assert(false);
        }
    }
}

/// Documents are set under their own keys, beside what the package supplies.
pub proof fn documents_stand_beside_the_descriptor(
    supplied: Seq<(Seq<char>, JsonView)>,
    schema: Option<Result<JsonView, Seq<char>>>,
    defaults: Option<Result<JsonView, Seq<char>>>,
    name: Seq<char>,
)
    requires
        keys_differ(supplied),
        with_documents(supplied, schema, defaults) is Ok,
        name != "configuration_schema"@,
        name != "configuration_defaults"@,
    ensures
        ({
            let fields = JsonView::Object(with_documents(supplied, schema, defaults)->Ok_0);
            &&& member(fields, name) == member(JsonView::Object(supplied), name)
            &&& schema is Some ==> member(fields, "configuration_schema"@) == Some(schema->Some_0->Ok_0)
            &&& defaults is Some ==> member(fields, "configuration_defaults"@) == Some(defaults->Some_0->Ok_0)
        }),
{
    reveal_strlit("configuration_schema");
    reveal_strlit("configuration_defaults");
    assert("configuration_schema"@.len() != "configuration_defaults"@.len());
    if schema is Some {
        let described = with_entry(supplied, "configuration_schema"@, schema->Some_0->Ok_0);
        insertion_sets_one_key(supplied, "configuration_schema"@, schema->Some_0->Ok_0, name);
        if defaults is Some {
            insertion_sets_one_key(described, "configuration_defaults"@, defaults->Some_0->Ok_0, name);
            insertion_sets_one_key(described, "configuration_defaults"@, defaults->Some_0->Ok_0, "configuration_schema"@);
        }
    }
}

/// Every field that a package supplies stands in the Descriptor with the value that it was given.
pub proof fn every_supplied_field_is_kept(
    plugin_id: Seq<char>,
    root_slot: Seq<char>,
    descriptor: Result<JsonView, Seq<char>>,
    schema: Option<Result<JsonView, Seq<char>>>,
    defaults: Option<Result<JsonView, Seq<char>>>,
    version: Option<Seq<char>>,
    i: int,
)
    requires
        described(plugin_id, root_slot, descriptor, schema, defaults, version) is Ok,
        keys_differ(descriptor->Ok_0->Object_0),
        0 <= i < descriptor->Ok_0->Object_0.len(),
    ensures
        member(
            JsonView::Object(described(plugin_id, root_slot, descriptor, schema, defaults, version)->Ok_0),
            descriptor->Ok_0->Object_0[i].0,
        ) == Some(descriptor->Ok_0->Object_0[i].1),
        schema is Some ==> member(
            JsonView::Object(described(plugin_id, root_slot, descriptor, schema, defaults, version)->Ok_0),
            "configuration_schema"@,
        ) == Some(schema->Some_0->Ok_0),
        defaults is Some ==> member(
            JsonView::Object(described(plugin_id, root_slot, descriptor, schema, defaults, version)->Ok_0),
            "configuration_defaults"@,
        ) == Some(defaults->Some_0->Ok_0),
{
    let supplied = descriptor->Ok_0->Object_0;
    let fields = with_documents(supplied, schema, defaults)->Ok_0;
    let key = supplied[i].0;
    assert(has_key(supplied, key));
    a_package_supplies_only_its_own_fields(plugin_id, root_slot, descriptor, schema, defaults, version, key);
    documents_stand_beside_the_descriptor(supplied, schema, defaults, key);
    assert(member(JsonView::Object(supplied), key) == Some(supplied[i].1)) by {
        let p = key_position(supplied, key);
        assert(supplied[p].0 == supplied[i].0);
        assert(p == i);
    }
    lemma_fields_differ(supplied, schema, defaults);
    lemma_kept(plugin_id, version->Some_0, root_slot, fields, key);
    lemma_documents_are_not_generated();
    if schema is Some {
        lemma_kept(plugin_id, version->Some_0, root_slot, fields, "configuration_schema"@);
    }
    if defaults is Some {
        lemma_kept(plugin_id, version->Some_0, root_slot, fields, "configuration_defaults"@);
    }
}

proof fn lemma_fields_differ(
    supplied: Seq<(Seq<char>, JsonView)>,
    schema: Option<Result<JsonView, Seq<char>>>,
    defaults: Option<Result<JsonView, Seq<char>>>,
)
    requires
        keys_differ(supplied),
        with_documents(supplied, schema, defaults) is Ok,
    ensures
        keys_differ(with_documents(supplied, schema, defaults)->Ok_0),
{
    if schema is Some {
        insertion_sets_one_key(supplied, "configuration_schema"@, schema->Some_0->Ok_0, Seq::empty());
        if defaults is Some {
            insertion_sets_one_key(
                with_entry(supplied, "configuration_schema"@, schema->Some_0->Ok_0),
                "configuration_defaults"@,
                defaults->Some_0->Ok_0,
                Seq::empty(),
            );
        }
    }
}

proof fn lemma_documents_are_not_generated()
    ensures
        !is_generated("configuration_schema"@),
        !is_generated("configuration_defaults"@),
{
    reveal_strlit("configuration_schema");
    reveal_strlit("configuration_defaults");
    reveal_strlit("plugin_id");
    reveal_strlit("release_version");
    reveal_strlit("root_slot");
    reveal_strlit("runtime_package_id");
    reveal_strlit("runtime_package_revision");
    reveal_strlit("entrypoint");
    reveal_strlit("execution_class");
    reveal_strlit("restart_policy");
    reveal_strlit("criticality");
    assert("configuration_schema"@.len() == 20 && "configuration_defaults"@.len() == 22);
    assert("plugin_id"@.len() == 9 && "release_version"@.len() == 15 && "root_slot"@.len() == 9 && "runtime_package_id"@.len() == 18);
    assert("runtime_package_revision"@.len() == 24 && "entrypoint"@.len() == 10 && "execution_class"@.len() == 15);
    assert("restart_policy"@.len() == 14 && "criticality"@.len() == 11);
}

proof fn lemma_kept(plugin_id: Seq<char>, version: Seq<char>, root_slot: Seq<char>, fields: Seq<(Seq<char>, JsonView)>, key: Seq<char>)
    requires
        keys_differ(fields),
        has_key(fields, key),
        !is_generated(key),
    ensures
        member(JsonView::Object(completed(plugin_id, version, root_slot, fields)), key) == member(
            JsonView::Object(fields),
            key,
        ),
{
    let base = identity_entries(plugin_id, version, root_slot);
    identity_is_sound(plugin_id, version, root_slot);
    let i = key_position(fields, key);
    assert(fields[i].0 == key);
    lemma_merged(base, fields, fields.len(), i);
    let first = merged(base, fields, fields.len());
    let second = with_entry(first, "execution_class"@, JsonView::Text("lenso.native-rust@1"@));
    let third = with_entry(second, "restart_policy"@, never_restarted());
    insertion_sets_one_key(first, "execution_class"@, JsonView::Text("lenso.native-rust@1"@), key);
    insertion_sets_one_key(second, "restart_policy"@, never_restarted(), key);
    insertion_sets_one_key(third, "criticality"@, JsonView::Text("non_critical"@), key);
}

/// The identity of a Plugin is what its package says of it in its metadata, and both parts are needed.
pub proof fn metadata_is_read_where_it_stands(document: JsonView)
    requires
        metadata(document) is Ok,
    ensures
        member(document, "package"@) is Some,
        member(member(document, "package"@)->Some_0, "metadata"@) is Some,
        member(member(member(document, "package"@)->Some_0, "metadata"@)->Some_0, "lenso"@) is Some,
        ({
            let lenso = member(member(member(document, "package"@)->Some_0, "metadata"@)->Some_0, "lenso"@)->Some_0;
            &&& member(lenso, "plugin-id"@) == Some(JsonView::Text(metadata(document)->Ok_0.0))
            &&& member(lenso, "root-slot"@) == Some(JsonView::Text(metadata(document)->Ok_0.1))
        }),
{
}

proof fn lemma_ports(ports: Seq<(Seq<char>, PathShape, PortCardinality)>, n: nat, i: int)
    requires
        port_requirements(ports, n) is Ok,
    ensures
        port_requirements(ports, n)->Ok_0.len() == n,
        0 <= i < n ==> requirement_of(ports[i].1, port_prefix(ports[i].2), None) == Ok::<(Seq<char>, Seq<char>, Option<Seq<char>>), Seq<char>>(
            port_requirements(ports, n)->Ok_0[i],
        ),
    decreases n,
{
    if n > 0 {
        lemma_ports(ports, (n - 1) as nat, i);
    }
}

proof fn lemma_dependencies(ports: Seq<(Seq<char>, Seq<char>, Option<Seq<char>>)>, kinds: Seq<KindView>, n: nat, i: int)
    requires
        dependency_requirements(ports, kinds, n) is Ok,
    ensures
        ports.is_prefix_of(dependency_requirements(ports, kinds, n)->Ok_0),
        0 <= i < n ==> (kinds[i] matches KindView::Dependency { id, client, cardinality } ==> named_requirement(client, cardinality, id) is Ok
            && dependency_requirements(ports, kinds, n)->Ok_0.contains(named_requirement(client, cardinality, id)->Ok_0)),
    decreases n,
{
    if n > 0 {
        lemma_dependencies(ports, kinds, (n - 1) as nat, i);
        let earlier = dependency_requirements(ports, kinds, (n - 1) as nat)->Ok_0;
        let all = dependency_requirements(ports, kinds, n)->Ok_0;
        assert(earlier.is_prefix_of(all));
        assert(ports =~= all.take(ports.len() as int));
        if 0 <= i < n - 1 {
            if let KindView::Dependency { id, client, cardinality } = kinds[i] {
                let item = named_requirement(client, cardinality, id)->Ok_0;
                let k = choose|k: int| 0 <= k < earlier.len() && earlier[k] == item;
                assert(all[k] == item);
            }
        } else if i == n - 1 {
            if let KindView::Dependency { id, client, cardinality } = kinds[i] {
                assert(all[all.len() - 1] == named_requirement(client, cardinality, id)->Ok_0);
            }
        }
    } else {
        assert(ports =~= ports.take(ports.len() as int));
    }
}

/// Every Port and every dependency of a Plugin is a requirement of it.
pub proof fn every_port_and_dependency_is_required(fields: FieldsView, i: int, j: int)
    requires
        requirements_of(fields) is Ok,
        0 <= i < fields.ports.len(),
        0 <= j < fields.construction_fields.len(),
    ensures
        requirement_of(fields.ports[i].1, port_prefix(fields.ports[i].2), None) is Ok,
        requirements_of(fields)->Ok_0.contains(requirement_of(fields.ports[i].1, port_prefix(fields.ports[i].2), None)->Ok_0),
        fields.construction_fields[j] matches KindView::Dependency { id, client, cardinality } ==> named_requirement(client, cardinality, id) is Ok
            && requirements_of(fields)->Ok_0.contains(named_requirement(client, cardinality, id)->Ok_0),
{
    let ports = port_requirements(fields.ports, fields.ports.len())->Ok_0;
    lemma_ports(fields.ports, fields.ports.len(), i);
    lemma_dependencies(ports, fields.construction_fields, fields.construction_fields.len(), j);
    let all = requirements_of(fields)->Ok_0;
    assert(all[i] == ports[i]);
}


/// A Descriptor is generated wherever the supplied one is an object that leaves the generated fields
/// and the configuration documents alone, the documents are accepted, and the package has a version.
pub proof fn a_descriptor_is_generated_where_it_can_be(
    plugin_id: Seq<char>,
    root_slot: Seq<char>,
    descriptor: Result<JsonView, Seq<char>>,
    schema: Option<Result<JsonView, Seq<char>>>,
    defaults: Option<Result<JsonView, Seq<char>>>,
    version: Option<Seq<char>>,
)
    requires
        descriptor is Ok,
        descriptor->Ok_0 is Object,
        forall|i: int|
            0 <= i < descriptor->Ok_0->Object_0.len() ==> !is_generated((#[trigger] descriptor->Ok_0->Object_0[i]).0) && descriptor->Ok_0->Object_0[i].0
                != "configuration_schema"@ && descriptor->Ok_0->Object_0[i].0 != "configuration_defaults"@,
        version is Some,
        schema matches Some(read) ==> read is Ok,
        defaults is Some ==> schema is Some && defaults->Some_0 is Ok && defaults_fault(defaults->Some_0->Ok_0, schema->Some_0->Ok_0) is None,
    ensures
        described(plugin_id, root_slot, descriptor, schema, defaults, version) is Ok,
{
    let supplied = descriptor->Ok_0->Object_0;
    let fields = with_documents(supplied, schema, defaults)->Ok_0;
    lemma_overridden(fields, 9);
    lemma_documents_are_not_generated();
    let owned = owned_fields();
    assert(owned[0] == "plugin_id"@ && owned[1] == "release_version"@ && owned[2] == "root_slot"@ && owned[3] == "runtime_package_id"@ && owned[4]
        == "runtime_package_revision"@ && owned[5] == "entrypoint"@ && owned[6] == "execution_class"@ && owned[7] == "restart_policy"@ && owned[8]
        == "criticality"@);
    assert forall|k: int| 0 <= k < fields.len() implies !is_generated((#[trigger] fields[k]).0) by {
        if k < supplied.len() {
            assert(!is_generated(supplied[k].0));
            assert(fields[k].0 == supplied[k].0 || fields[k].0 == "configuration_schema"@ || fields[k].0 == "configuration_defaults"@);
        } else {
            assert(fields[k].0 == "configuration_schema"@ || fields[k].0 == "configuration_defaults"@);
        }
    }
    assert forall|i: int| 0 <= i < 9 implies !has_key(fields, #[trigger] owned[i]) by {
        assert(is_generated(owned[i]));
    }
}
} // verus!
