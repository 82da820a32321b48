//! Laws of Plugin authoring: what an attribute, a field, a method and an implementation are read as, and
//! what is generated for them.
use vstd::prelude::*;

use crate::authoring::attributes::{entries_fault, form_of, names_before, AttributeEntry, AttributeForm, PluginAttributes};
use crate::authoring::expansion::{
    artifact_text, construction, contribution_of, contributions, create_call, create_inputs, function_plan, marked, provides, stop_call,
    stop_input_fault, tracked_files, ArgumentView, ContributionView, ImplShape, InputShape, MethodShape,
};
use crate::authoring::fields::{
    analyzed, client_of, dependency_of, dependency_prefix, is_input, marker_id, named_requirement, port_of, port_prefix, source_of, with_field,
    DependencyCardinality, DependencyEntry, FieldShape, FieldsView, InitialValue, KindView, PortCardinality, SourceView,
};
use crate::authoring::plugin_struct::{defaults_source, requirements_of, schema_source, struct_plan, HookView, PluginItem};
use crate::authoring::shape::{
    gives_result, is_named, is_upper, lower, single_argument, snake_case, ArgumentShape, ArgumentsShape, PathShape, TypeShape,
};
use crate::json::JsonView;
use crate::text::{decimal, opt_text};

verus! {

/// The names of the arguments of the Plugin attribute.
pub open spec fn known_attribute(name: Seq<char>) -> bool {
    ||| name == "descriptor"@
    ||| name == "configuration_schema"@
    ||| name == "configuration_defaults"@
    ||| name == "validate"@
    ||| name == "prepare"@
    ||| name == "activate"@
    ||| name == "deactivate"@
    ||| name == "lifecycle"@
    ||| name == "consumer"@
}

/// The arguments of the Plugin attribute are accepted exactly where each is known and none is given
/// twice. Two of them are flags.
pub proof fn attributes_are_known_and_given_once(entries: Seq<AttributeEntry>, n: nat)
    requires
        n <= entries.len(),
    ensures
        entries_fault(entries, n) is None <==> (forall|i: int| 0 <= i < n ==> known_attribute((#[trigger] entries[i]).name@)) && (forall|i: int, j: int|
            0 <= i < j < n ==> (#[trigger] entries[i]).name@ != (#[trigger] entries[j]).name@),
        forall|name: Seq<char>| #[trigger] form_of(name) == Some(AttributeForm::Flag) <==> name == "lifecycle"@ || name == "consumer"@,
    decreases n,
{
    if n > 0 {
        attributes_are_known_and_given_once(entries, (n - 1) as nat);
        let earlier = names_before(entries, n - 1);
        let name = entries[n - 1].name@;
        if earlier.contains(name) {
            let k = choose|k: int| 0 <= k < earlier.len() && earlier[k] == name;
            assert(entries[k].name@ == entries[n - 1].name@);
        }
        if entries_fault(entries, n) is None {
            assert forall|i: int, j: int| 0 <= i < j < n implies (#[trigger] entries[i]).name@ != (#[trigger] entries[j]).name@ by {
                if j == n - 1 {
                    assert(earlier[i] == entries[i].name@);
                }
            }
        }
    }
}

proof fn lemma_marker(entries: Seq<DependencyEntry>, n: nat)
    requires
        n <= entries.len(),
    ensures
        marker_id(entries, n) is Ok <==> forall|i: int| 0 <= i < n ==> (#[trigger] entries[i]).key@ == "id"@,
        marker_id(entries, n) is Ok && n > 0 ==> marker_id(entries, n)->Ok_0 == Some(entries[n - 1].value@),
        n == 0 ==> marker_id(entries, n) == Ok::<Option<Seq<char>>, Seq<char>>(None),
    decreases n,
{
    if n > 0 {
        lemma_marker(entries, (n - 1) as nat);
        assert(entries[n - 1] == entries[n - 1]);
    }
}

/// A field is a dependency where it has one marker that says nothing but the identity of the
/// requirement; a field without a marker is none; everything else is refused.
pub proof fn a_dependency_names_its_requirement(field: FieldShape)
    ensures
        dependency_of(field) == Ok::<Option<Seq<char>>, Seq<char>>(None) <==> field.dependencies@.len() == 0,
        dependency_of(field) matches Ok(Some(id)) ==> field.dependencies@.len() == 1 && field.dependencies@[0]@.len() > 0
            && field.dependencies@[0]@.last().value@ == id && forall|i: int|
            0 <= i < field.dependencies@[0]@.len() ==> (#[trigger] field.dependencies@[0]@[i]).key@ == "id"@,
        field.dependencies@.len() == 1 && field.dependencies@[0]@.len() > 0 && (forall|i: int|
            0 <= i < field.dependencies@[0]@.len() ==> (#[trigger] field.dependencies@[0]@[i]).key@ == "id"@) ==> dependency_of(field) == Ok::<
            Option<Seq<char>>,
            Seq<char>,
        >(Some(field.dependencies@[0]@.last().value@)),
{
    if field.dependencies@.len() > 0 {
        lemma_marker(field.dependencies@[0]@, field.dependencies@[0]@.len());
    }
}

/// The only argument of a type with one, in angle brackets.
pub open spec fn wraps(ty: TypeShape, name: Seq<char>, inner: TypeShape) -> bool {
    &&& ty.path is Some
    &&& ty.path->Some_0.segments@.len() > 0
    &&& ty.path->Some_0.segments@.last().ident@ == name
    &&& ty.path->Some_0.segments@.last().arguments matches ArgumentsShape::Angle(items) && items@.len() == 1 && items@[0] == ArgumentShape::Type(inner)
}

/// The client of a dependency and how many providers it has are told by the wrapper of its type: none,
/// an option, or a list of bound clients.
pub proof fn a_dependency_is_told_by_its_wrapper(ty: TypeShape, inner: TypeShape, bound: TypeShape)
    ensures
        wraps(ty, "Option"@, inner) ==> client_of(ty) == Ok::<(TypeShape, DependencyCardinality), Seq<char>>((inner, DependencyCardinality::Optional)),
        wraps(ty, "Vec"@, bound) && wraps(bound, "BoundCapabilityClient"@, inner) ==> client_of(ty) == Ok::<
            (TypeShape, DependencyCardinality),
            Seq<char>,
        >((inner, DependencyCardinality::Many)),
        ty.path is Some && ty.path->Some_0.segments@.len() > 0 && ty.path->Some_0.segments@.last().ident@ != "Option"@
            && ty.path->Some_0.segments@.last().ident@ != "Vec"@ ==> client_of(ty) == Ok::<(TypeShape, DependencyCardinality), Seq<char>>(
            (ty, DependencyCardinality::One),
        ),
        client_of(ty) matches Ok((client, DependencyCardinality::Optional)) ==> wraps(ty, "Option"@, client),
        client_of(ty) matches Ok((client, DependencyCardinality::Many)) ==> exists|between: TypeShape|
            #[trigger] wraps(ty, "Vec"@, between) && wraps(between, "BoundCapabilityClient"@, client),
{
    reveal_strlit("Option");
    reveal_strlit("Vec");
    assert("Option"@.len() != "Vec"@.len());
    if client_of(ty) is Ok && client_of(ty)->Ok_0.1 == DependencyCardinality::Many {
        let between = single_argument(ty.path->Some_0.end().arguments)->Some_0;
        assert(wraps(ty, "Vec"@, between));
    }
}

/// A Port is told by the name of its type, and holds one client.
pub proof fn a_port_is_told_by_its_type(ty: TypeShape, inner: TypeShape)
    ensures
        wraps(ty, "Port"@, inner) && inner.path is Some ==> port_of(ty) == Ok::<Option<(PathShape, PortCardinality)>, Seq<char>>(
            Some((inner.path->Some_0, PortCardinality::One)),
        ),
        wraps(ty, "ManyPort"@, inner) && inner.path is Some ==> port_of(ty) == Ok::<Option<(PathShape, PortCardinality)>, Seq<char>>(
            Some((inner.path->Some_0, PortCardinality::Many)),
        ),
        port_of(ty) == Ok::<Option<(PathShape, PortCardinality)>, Seq<char>>(None) <==> ty.path is None || ty.path->Some_0.segments@.len() == 0 || (
        ty.path->Some_0.segments@.last().ident@ != "Port"@ && ty.path->Some_0.segments@.last().ident@ != "ManyPort"@),
{
    reveal_strlit("Port");
    reveal_strlit("ManyPort");
    assert("Port"@.len() != "ManyPort"@.len());
}

/// What a field of an accepted struct is used as.
pub open spec fn used_as(field: FieldShape, initial: InitialValue, kind: KindView) -> bool {
    if field.config {
        &&& !field.tasks && !field.resources && field.dependencies@.len() == 0
        &&& initial == InitialValue::Configuration
        &&& kind is Config
    } else if field.dependencies@.len() > 0 {
        &&& !field.tasks && !field.resources
        &&& initial == InitialValue::NeedsVersionTwo
        &&& kind matches KindView::Dependency { id, client, cardinality } && dependency_of(field) == Ok::<Option<Seq<char>>, Seq<char>>(Some(id))
            && client_of(field.ty) == Ok::<(TypeShape, DependencyCardinality), Seq<char>>((client, cardinality))
    } else if field.tasks {
        &&& !field.resources
        &&& is_named(field.ty, "ManagedTasks"@)
        &&& initial == InitialValue::Default
        &&& kind is Legacy
    } else if field.resources {
        &&& is_named(field.ty, "InstanceResources"@)
        &&& initial == InitialValue::Resources
        &&& kind is Legacy
    } else if port_of(field.ty) matches Ok(Some(_)) {
        &&& initial == InitialValue::Default
        &&& kind is Legacy
    } else {
        &&& port_of(field.ty) == Ok::<Option<(PathShape, PortCardinality)>, Seq<char>>(None)
        &&& initial == InitialValue::MaybeDefault
        &&& kind is Private
    }
}

/// Every field of an accepted struct is used as its one marker says, or as its type does. At most one
/// field is configuration, at most one holds tasks, and at most one holds resources.
pub proof fn every_field_is_used_as_it_is_marked(fields: Seq<FieldShape>, n: nat)
    requires
        n <= fields.len(),
        analyzed(fields, n) is Ok,
    ensures
        ({
            let found = analyzed(fields, n)->Ok_0;
            &&& found.initializers.len() == n
            &&& found.construction_fields.len() == n
            &&& forall|i: int| 0 <= i < n ==> used_as(#[trigger] fields[i], found.initializers[i], found.construction_fields[i])
            &&& forall|i: int, j: int| 0 <= i < j < n ==> !((#[trigger] fields[i]).config && (#[trigger] fields[j]).config)
            &&& forall|i: int, j: int| 0 <= i < j < n ==> !((#[trigger] fields[i]).tasks && (#[trigger] fields[j]).tasks)
            &&& forall|i: int, j: int| 0 <= i < j < n ==> !((#[trigger] fields[i]).resources && (#[trigger] fields[j]).resources)
            &&& forall|i: int| 0 <= i < n && (#[trigger] fields[i]).config ==> found.config_type == Some(fields[i].ty)
            &&& (forall|i: int| 0 <= i < n ==> !(#[trigger] fields[i]).config) ==> found.config_type is None
            &&& forall|i: int| 0 <= i < n && (#[trigger] fields[i]).tasks ==> found.tasks == seq![fields[i].name@]
            &&& (forall|i: int| 0 <= i < n ==> !(#[trigger] fields[i]).tasks) ==> found.tasks.len() == 0
            &&& found.has_resources <==> exists|i: int| 0 <= i < n && (#[trigger] fields[i]).resources
        }),
    decreases n,
{
    if n > 0 {
        every_field_is_used_as_it_is_marked(fields, (n - 1) as nat);
        let earlier = analyzed(fields, (n - 1) as nat)->Ok_0;
        let found = analyzed(fields, n)->Ok_0;
        let field = fields[n - 1];
        a_dependency_names_its_requirement(field);
        assert(with_field(earlier, field) == Ok::<FieldsView, Seq<char>>(found));
        assert(used_as(field, found.initializers[n - 1], found.construction_fields[n - 1]));
        assert forall|i: int| 0 <= i < n implies used_as(#[trigger] fields[i], found.initializers[i], found.construction_fields[i]) by {
            if i < n - 1 {
                assert(found.initializers[i] == earlier.initializers[i]);
                assert(found.construction_fields[i] == earlier.construction_fields[i]);
            }
        }
        if field.tasks {
            assert(found.tasks =~= seq![field.name@]);
        }
        assert(fields[n - 1].config ==> forall|i: int| 0 <= i < n - 1 ==> !(#[trigger] fields[i]).config);
        assert(fields[n - 1].tasks ==> forall|i: int| 0 <= i < n - 1 ==> !(#[trigger] fields[i]).tasks);
        assert(fields[n - 1].resources ==> forall|i: int| 0 <= i < n - 1 ==> !(#[trigger] fields[i]).resources);
    }
}

/// A field is given by the Host where it is configuration or a dependency, one client for one provider,
/// an optional one for an optional provider, and a list for many. A field of the first version is given
/// by nobody.
pub proof fn a_field_is_given_by_its_source(kind: KindView)
    ensures
        is_input(kind) <==> kind is Config || kind is Dependency,
        source_of(kind) is Configuration <==> kind is Config,
        source_of(kind) is OwnDefault <==> kind is Private,
        source_of(kind) is Refused <==> kind is Legacy,
        kind matches KindView::Dependency { id, client, cardinality } ==> match source_of(kind) {
            SourceView::Required { id: given, client: type_given } => given == id && type_given == client && cardinality == DependencyCardinality::One,
            SourceView::Optional { id: given, client: type_given } => given == id && type_given == client && cardinality
                == DependencyCardinality::Optional,
            SourceView::Many { id: given, client: type_given } => given == id && type_given == client && cardinality == DependencyCardinality::Many,
            _ => false,
        },
{
}

/// A dependency asks for the macro of its client and its cardinality under its own identity. Ports and
/// dependencies of one cardinality use the same macro, and those of different cardinality different ones.
pub proof fn a_requirement_is_told_by_its_cardinality(
    client: TypeShape,
    a: DependencyCardinality,
    b: DependencyCardinality,
    id: Seq<char>,
    other: Seq<char>,
)
    ensures
        named_requirement(client, a, id) is Ok <==> client.path is Some && client.path->Some_0.segments@.len() >= 2,
        named_requirement(client, a, id) is Ok ==> named_requirement(client, a, id)->Ok_0.2 == Some(id),
        named_requirement(client, a, id) is Ok ==> Some(named_requirement(client, a, id)->Ok_0.0) == client.path->Some_0.namespace(),
        named_requirement(client, a, id) is Ok && named_requirement(client, b, other) is Ok ==> (named_requirement(client, a, id)->Ok_0.1
            == named_requirement(client, b, other)->Ok_0.1 <==> a == b),
        port_prefix(PortCardinality::One) == dependency_prefix(DependencyCardinality::One),
        port_prefix(PortCardinality::Many) == dependency_prefix(DependencyCardinality::Many),
{
    reveal_strlit("__lenso_required_");
    reveal_strlit("__lenso_required_optional_");
    reveal_strlit("__lenso_required_many_");
    if named_requirement(client, a, id) is Ok {
        let name = snake_case(client.path->Some_0.end().ident@);
        let x = dependency_prefix(a) + name;
        let y = dependency_prefix(b) + name;
        if a != b {
            assert(x.len() != y.len());
        }
    }
}

/// What an input of a constructor is passed as.
pub open spec fn passed_as(input: InputShape, argument: ArgumentView) -> bool {
    match input {
        InputShape::Receiver { .. } => false,
        InputShape::Typed { ident, pattern, ty, lifecycle } => {
            &&& ident is Some
            &&& if lifecycle {
                is_named(ty, "LifecycleContext"@) && argument is Lifecycle
            } else {
                argument == ArgumentView::Input(pattern@)
            }
        },
    }
}

/// A constructor is called with each of its inputs in order, the lifecycle context where one is marked
/// so. It takes no receiver, and names each of its other inputs.
pub proof fn a_constructor_gets_its_inputs(inputs: Seq<InputShape>, n: nat)
    requires
        n <= inputs.len(),
        create_inputs(inputs, n) is Ok,
    ensures
        create_inputs(inputs, n)->Ok_0.1.len() == n,
        forall|i: int| 0 <= i < n ==> passed_as(#[trigger] inputs[i], create_inputs(inputs, n)->Ok_0.1[i]),
        forall|i: int|
            0 <= i < n && !(#[trigger] inputs[i])->lifecycle ==> create_inputs(inputs, n)->Ok_0.0.contains(inputs[i]->ident->Some_0@),
        create_inputs(inputs, n)->Ok_0.0.len() <= n,
        (forall|i: int| 0 <= i < n ==> !(#[trigger] inputs[i])->lifecycle) ==> create_inputs(inputs, n)->Ok_0.0.len() == n,
        (exists|i: int| 0 <= i < n && (#[trigger] inputs[i])->lifecycle) ==> create_inputs(inputs, n)->Ok_0.0.len() < n,
    decreases n,
{
    if n > 0 {
        a_constructor_gets_its_inputs(inputs, (n - 1) as nat);
        let (names, arguments) = create_inputs(inputs, (n - 1) as nat)->Ok_0;
        let (all, passed) = create_inputs(inputs, n)->Ok_0;
        assert(passed_as(inputs[n - 1], passed[n - 1]));
        assert forall|i: int| 0 <= i < n implies passed_as(#[trigger] inputs[i], passed[i]) by {
            if i < n - 1 {
                assert(passed[i] == arguments[i]);
            }
        }
        assert forall|i: int| 0 <= i < n && !(#[trigger] inputs[i])->lifecycle implies all.contains(inputs[i]->ident->Some_0@) by {
            if i < n - 1 {
                let k = choose|k: int| 0 <= k < names.len() && names[k] == inputs[i]->ident->Some_0@;
                assert(all[k] == names[k]);
            } else {
                assert(all[all.len() - 1] == inputs[i]->ident->Some_0@);
            }
        }
        if exists|i: int| 0 <= i < n && (#[trigger] inputs[i])->lifecycle {
            if !inputs[n - 1]->lifecycle {
                let i = choose|i: int| 0 <= i < n && (#[trigger] inputs[i])->lifecycle;
                assert(inputs[i]->lifecycle && i < n - 1);
            }
        }
    }
}

/// A constructor with only plain inputs is accepted.
pub proof fn a_plain_constructor_is_accepted(method: MethodShape, n: nat)
    requires
        n <= method.inputs@.len(),
        forall|i: int| 0 <= i < n ==> (#[trigger] method.inputs@[i]) is Typed && method.inputs@[i]->ident is Some && !method.inputs@[i]->lifecycle,
    ensures
        create_inputs(method.inputs@, n) is Ok,
        n == method.inputs@.len() ==> create_call(method) is Ok && create_call(method)->Ok_0.method == method.name@ && create_call(method)->Ok_0.awaits
            == method.is_async && create_call(method)->Ok_0.fallible == gives_result(method.output),
    decreases n,
{
    if n > 0 {
        a_plain_constructor_is_accepted(method, (n - 1) as nat);
        assert(method.inputs@[n - 1] is Typed);
    }
}

proof fn lemma_stop_inputs(inputs: Seq<InputShape>, n: nat)
    ensures
        stop_input_fault(inputs, n) is None <==> forall|i: int|
            1 <= i < n ==> (#[trigger] inputs[i]) is Typed && inputs[i]->lifecycle && is_named(inputs[i]->ty, "LifecycleContext"@),
    decreases n,
{
    if n > 1 {
        lemma_stop_inputs(inputs, (n - 1) as nat);
        assert(inputs[n - 1] == inputs[n - 1]);
    }
}

/// A stop hook borrows its Plugin and takes no more than a lifecycle context. It is called as it is
/// written.
pub proof fn a_stop_hook_borrows_its_plugin(method: MethodShape)
    ensures
        stop_call(method) is Ok <==> {
            let inputs = method.inputs@;
            &&& 1 <= inputs.len() <= 2
            &&& inputs[0] == (InputShape::Receiver { reference: true, mutable: false })
            &&& inputs.len() == 2 ==> inputs[1] is Typed && inputs[1]->lifecycle && is_named(inputs[1]->ty, "LifecycleContext"@)
        },
        stop_call(method) is Ok ==> stop_call(method)->Ok_0 == (
            method.name@,
            method.inputs@.len() == 2,
            method.is_async,
            gives_result(method.output),
        ),
{
    lemma_stop_inputs(method.inputs@, method.inputs@.len());
    if method.inputs@.len() == 2 {
        assert(method.inputs@[1] == method.inputs@[1]);
    }
}

/// At most one method constructs a Plugin and at most one other stops it, and each is found.
pub proof fn each_mark_is_found_once(methods: Seq<MethodShape>, n: nat)
    requires
        n <= methods.len(),
    ensures
        marked(methods, n) matches Ok((create, stop)) ==> forall|i: int|
            0 <= i < n ==> ((#[trigger] methods[i]).create <==> create == Some(i)) && (methods[i].stop <==> stop == Some(i)) && !(methods[i].create
                && methods[i].stop),
        marked(methods, n) matches Ok((create, stop)) ==> (create is Some ==> 0 <= create->Some_0 < n) && (stop is Some ==> 0 <= stop->Some_0 < n),
        marked(methods, n) is Err ==> exists|i: int, j: int|
            0 <= i <= j < n && (((#[trigger] methods[i]).create && (#[trigger] methods[j]).create && i < j) || (methods[i].stop && methods[j].stop && i < j)
                || (i == j && methods[i].create && methods[i].stop)),
    decreases n,
{
    if n > 0 {
        each_mark_is_found_once(methods, (n - 1) as nat);
        let method = methods[n - 1];
        if marked(methods, (n - 1) as nat) is Ok {
            let (create, stop) = marked(methods, (n - 1) as nat)->Ok_0;
            if marked(methods, n) is Err {
                if method.create && method.stop {
                    assert(methods[n - 1].create && methods[n - 1].create);
                } else if method.create && create is Some {
                    assert(methods[create->Some_0].create && methods[n - 1].create);
                } else {
                    assert(methods[stop->Some_0].stop && methods[n - 1].stop);
                    assert(methods[stop->Some_0].create || !methods[stop->Some_0].create);
                }
            }
        } else {
            let (i, j) = choose|i: int, j: int|
                0 <= i <= j < n - 1 && (((#[trigger] methods[i]).create && (#[trigger] methods[j]).create && i < j) || (methods[i].stop
                    && methods[j].stop && i < j) || (i == j && methods[i].create && methods[i].stop));
            assert(methods[i].create == methods[i].create && methods[j].create == methods[j].create);
        }
    }
}

/// A construction is generated for an inherent implementation without generics that marks a method, and
/// for no other. It calls the methods that are marked.
pub proof fn a_construction_calls_what_is_marked(block: ImplShape, i: int)
    requires
        construction(block) is Ok,
        0 <= i < block.methods@.len(),
    ensures
        !block.of_trait,
        !block.generic,
        block.methods@[i].create ==> construction(block)->Ok_0 is Some && construction(block)->Ok_0->Some_0.create is Some && create_call(
            block.methods@[i],
        ) == Ok::<crate::authoring::expansion::CreateView, Seq<char>>(construction(block)->Ok_0->Some_0.create->Some_0),
        block.methods@[i].stop ==> construction(block)->Ok_0 is Some && construction(block)->Ok_0->Some_0.stop is Some && stop_call(block.methods@[i])
            == Ok::<(Seq<char>, bool, bool, bool), Seq<char>>(construction(block)->Ok_0->Some_0.stop->Some_0),
        construction(block)->Ok_0 is None ==> !block.methods@[i].create && !block.methods@[i].stop,
        construction(block)->Ok_0 is Some ==> construction(block)->Ok_0->Some_0.inputs_name == "__LensoInputs"@ + block.self_type.path->Some_0.end().ident@,
{
    each_mark_is_found_once(block.methods@, block.methods@.len());
}

/// A factory function has no attribute of a struct, and brings documents only with a descriptor. What is
/// generated for it is named after it, and a descriptor is embedded exactly where one is given.
pub proof fn a_factory_function_is_named_after_itself(
    attributes: PluginAttributes,
    name: Seq<char>,
    metadata: Result<(Seq<char>, Seq<char>), Seq<char>>,
    version: Option<Seq<char>>,
    schema: Option<Result<JsonView, Seq<char>>>,
    defaults: Option<Result<JsonView, Seq<char>>>,
)
    requires
        function_plan(attributes, name, metadata, version, schema, defaults) is Ok,
    ensures
        ({
            let plan = function_plan(attributes, name, metadata, version, schema, defaults)->Ok_0;
            &&& attributes.validate is None && attributes.prepare is None && attributes.activate is None && attributes.deactivate is None
            &&& !attributes.lifecycle && !attributes.consumer
            &&& attributes.configuration_schema is Some || attributes.configuration_defaults is Some ==> attributes.descriptor is Some
            &&& metadata is Ok
            &&& plan.plugin_id == metadata->Ok_0.0
            &&& plan.module_name == "__lenso_plugin_"@ + name
            &&& plan.link_function == "__lenso_link_"@ + name
            &&& plan.descriptor is Some <==> attributes.descriptor is Some
            &&& plan.descriptor is Some ==> plan.descriptor->Some_0.1 == artifact_text(plan.descriptor->Some_0.0)
            &&& plan.descriptor is Some && attributes.configuration_schema is Some ==> plan.descriptor->Some_0.2.contains(
                attributes.configuration_schema->Some_0@,
            )
            &&& plan.descriptor is Some && attributes.configuration_defaults is Some ==> plan.descriptor->Some_0.2.contains(
                attributes.configuration_defaults->Some_0@,
            )
        }),
{
    every_given_file_is_tracked(opt_text(attributes.configuration_schema), opt_text(attributes.configuration_defaults));
}

/// The files that are tracked are those that are given.
pub proof fn every_given_file_is_tracked(schema: Option<Seq<char>>, defaults: Option<Seq<char>>)
    ensures
        schema is Some ==> tracked_files(schema, defaults).contains(schema->Some_0),
        defaults is Some ==> tracked_files(schema, defaults).contains(defaults->Some_0),
        forall|k: int|
            0 <= k < tracked_files(schema, defaults).len() ==> schema == Some(#[trigger] tracked_files(schema, defaults)[k]) || defaults == Some(
                tracked_files(schema, defaults)[k],
            ),
        schema is None && defaults is None ==> tracked_files(schema, defaults).len() == 0,
{
    let files = tracked_files(schema, defaults);
    if schema is Some {
        assert(files[0] == schema->Some_0);
    }
    if defaults is Some {
        assert(files[files.len() - 1] == defaults->Some_0);
    }
}

/// An embedded descriptor stands between the marks by which it is found.
pub proof fn an_embedded_descriptor_is_marked(descriptor: Seq<char>)
    ensures
        "LENSO_PLUGIN_DESCRIPTOR_V1\0"@.is_prefix_of(artifact_text(descriptor)),
        "\0END_LENSO_PLUGIN_DESCRIPTOR_V1"@.is_suffix_of(artifact_text(descriptor)),
        artifact_text(descriptor).subrange(
            "LENSO_PLUGIN_DESCRIPTOR_V1\0"@.len() as int,
            "LENSO_PLUGIN_DESCRIPTOR_V1\0"@.len() as int + descriptor.len(),
        ) == descriptor,
{
    let a = "LENSO_PLUGIN_DESCRIPTOR_V1\0"@;
    let b = "\0END_LENSO_PLUGIN_DESCRIPTOR_V1"@;
    let all = artifact_text(descriptor);
    assert(a =~= all.subrange(0, a.len() as int));
    assert(b =~= all.subrange(all.len() - b.len(), all.len() as int));
    assert(all.subrange(a.len() as int, a.len() as int + descriptor.len()) =~= descriptor);
}

proof fn lemma_contributions(capabilities: Seq<PathShape>, n: nat, i: int)
    requires
        contributions(capabilities, n) is Ok,
        0 <= i < n,
    ensures
        contributions(capabilities, n)->Ok_0.len() == n,
        contribution_of(capabilities, i) == Ok::<ContributionView, Seq<char>>(contributions(capabilities, n)->Ok_0[i]),
    decreases n,
{
    if i < n - 1 {
        lemma_contributions(capabilities, (n - 1) as nat, i);
    } else if n > 1 {
        lemma_contributions(capabilities, (n - 1) as nat, 0);
    } else {
        assert(contributions(capabilities, 0)->Ok_0.len() == 0);
    }
}

/// An implementation provides each Capability that it lists, by the macros of its namespace. It lists at
/// least one, each with a namespace, and more than one only where its own methods are lowered.
pub proof fn what_is_listed_is_provided(capabilities: Seq<PathShape>, of_trait: bool, self_type: TypeShape, i: int)
    requires
        provides(capabilities, of_trait, self_type) is Ok,
    ensures
        ({
            let plan = provides(capabilities, of_trait, self_type)->Ok_0;
            &&& capabilities.len() >= 1
            &&& capabilities.len() > 1 ==> !of_trait
            &&& plan.lowers_domain_methods <==> !of_trait
            &&& self_type.path is Some
            &&& plan.plugin == self_type.path->Some_0.segments@.last().ident@
            &&& 0 <= i < capabilities.len() ==> {
                let name = snake_case(capabilities[i].segments@.last().ident@);
                let item = plan.contributions[i];
                &&& capabilities[i].segments@.len() >= 2
                &&& capabilities[i].namespace() == Some(item.namespace)
                &&& item.descriptor == "__lenso_provided_"@ + name
                &&& item.endpoints == "__lenso_native_endpoints_"@ + name
                &&& item.lower == "__lenso_native_lower_"@ + name
                &&& item.object_lower == "__lenso_native_lower_object_"@ + name
                &&& item.trait_object_lower == "__lenso_native_lower_trait_object_"@ + name
                &&& item.projection_module == "projection_"@ + decimal(i as nat)
            }
        }),
{
    if 0 <= i < capabilities.len() {
        lemma_contributions(capabilities, capabilities.len(), i);
    }
}

/// A struct-level Plugin brings no descriptor of its own. Its configuration attributes need a field for
/// the configuration, and its lifecycle is written in one way.
pub proof fn a_struct_plugin_is_consistent(
    attributes: PluginAttributes,
    item: PluginItem,
    metadata: Result<(Seq<char>, Seq<char>), Seq<char>>,
    version: Option<Seq<char>>,
    schema: Option<Result<JsonView, Seq<char>>>,
    defaults: Option<Result<JsonView, Seq<char>>>,
)
    requires
        struct_plan(attributes, item, metadata, version, schema, defaults) is Ok,
    ensures
        ({
            let plan = struct_plan(attributes, item, metadata, version, schema, defaults)->Ok_0;
            let configured = exists|i: int| 0 <= i < item.fields@.len() && (#[trigger] item.fields@[i]).config;
            &&& item.named
            &&& attributes.descriptor is None
            &&& metadata is Ok && version is Some
            &&& plan.plugin_id == metadata->Ok_0.0
            &&& attributes.configuration_schema is Some || attributes.configuration_defaults is Some || attributes.validate is Some ==> configured
            &&& attributes.lifecycle ==> attributes.prepare is None && attributes.activate is None && attributes.deactivate is None
            &&& attributes.lifecycle ==> plan.prepare is LifecycleTrait && plan.activate is LifecycleTrait && plan.deactivate is LifecycleTrait
            &&& !attributes.lifecycle ==> (attributes.prepare is Some <==> plan.prepare is Function) && (attributes.activate is Some
                <==> plan.activate is Function) && (attributes.deactivate is Some <==> plan.deactivate is Function)
            &&& plan.prepare matches HookView::Function(path) ==> attributes.prepare->Some_0@ == path
            &&& plan.activate matches HookView::Function(path) ==> attributes.activate->Some_0@ == path
            &&& plan.deactivate matches HookView::Function(path) ==> attributes.deactivate->Some_0@ == path
            &&& plan.consumer is Some <==> attributes.consumer
            &&& plan.runtime_profile == "lenso.native-authoring@1"@ <==> plan.authoring_version == 1
            &&& requirements_of(plan.fields) == Ok::<Seq<(Seq<char>, Seq<char>, Option<Seq<char>>)>, Seq<char>>(plan.requirements)
            &&& defaults is Some ==> schema is Some
        }),
{
    let plan = struct_plan(attributes, item, metadata, version, schema, defaults)->Ok_0;
    crate::authoring::fields::analysis_covers_every_field(item.fields@, item.fields@.len());
    reveal_strlit("lenso.native-authoring@1");
    reveal_strlit("lenso.native-authoring@2");
    assert("lenso.native-authoring@1"@[23] != "lenso.native-authoring@2"@[23]);
}

/// Configuration defaults are embedded only where they were accepted against a schema that is embedded
/// too; without documents both come from the type of the configuration.
pub proof fn embedded_defaults_were_accepted(
    schema: Option<Result<JsonView, Seq<char>>>,
    defaults: Option<Result<JsonView, Seq<char>>>,
    config_type: Option<TypeShape>,
)
    ensures
        defaults is Some && defaults_source(schema, defaults, config_type) is Ok ==> schema is Some && schema->Some_0 is Ok && defaults->Some_0 is Ok
            && crate::authoring::config::defaults_fault(defaults->Some_0->Ok_0, schema->Some_0->Ok_0) is None,
        schema is None && defaults is None && config_type is Some && schema_source(schema, config_type) is Ok ==> schema_source(schema, config_type)->Ok_0 is Macro
            && defaults_source(schema, defaults, config_type) is Ok && defaults_source(schema, defaults, config_type)->Ok_0 is Macro,
        schema is Some && schema_source(schema, config_type) is Ok ==> schema->Some_0 is Ok && schema_source(schema, config_type)->Ok_0 is Text,
{
}

/// A name in lower case splits at each capital that has something before it.
pub proof fn a_name_splits_at_its_capitals(a: Seq<char>, b: Seq<char>)
    requires
        a.len() > 0,
        b.len() > 0,
    ensures
        is_upper(b[0]) ==> snake_case(a + b) == snake_case(a).push('_') + snake_case(b),
        !is_upper(b[0]) ==> snake_case(a + b) == snake_case(a) + snake_case(b),
    decreases b.len(),
{
    let all = a + b;
    assert(all.drop_last() =~= a + b.drop_last());
    assert(all.last() == b.last());
    if b.len() > 1 {
        a_name_splits_at_its_capitals(a, b.drop_last());
        if is_upper(b[0]) {
            assert(snake_case(all) =~= snake_case(a).push('_') + snake_case(b));
        } else {
            assert(snake_case(all) =~= snake_case(a) + snake_case(b));
        }
    } else {
        assert(b.drop_last() =~= Seq::empty());
        assert(a + b.drop_last() =~= a);
        assert(snake_case(b.drop_last()) =~= Seq::empty());
        assert(snake_case(b) =~= seq![lower(b[0])]);
        if is_upper(b[0]) {
            assert(snake_case(all) =~= snake_case(a).push('_') + snake_case(b));
        } else {
            assert(snake_case(all) =~= snake_case(a) + snake_case(b));
        }
    }
}

/// A name in lower case has no capitals, and a name without capitals stays as it is.
pub proof fn a_generated_name_has_no_capitals(name: Seq<char>)
    ensures
        forall|i: int| 0 <= i < snake_case(name).len() ==> !is_upper(#[trigger] snake_case(name)[i]),
        (forall|i: int| 0 <= i < name.len() ==> !is_upper(#[trigger] name[i])) ==> snake_case(name) == name,
        snake_case(name).len() >= name.len(),
    decreases name.len(),
{
    if name.len() > 0 {
        a_generated_name_has_no_capitals(name.drop_last());
        let c = name.last();
        if is_upper(c) {
            assert(!is_upper(lower(c)));
        }
        if forall|i: int| 0 <= i < name.len() ==> !is_upper(#[trigger] name[i]) {
            assert(!is_upper(name[name.len() - 1]));
            assert forall|i: int| 0 <= i < name.drop_last().len() implies !is_upper(#[trigger] name.drop_last()[i]) by {
                assert(!is_upper(name[i]));
            }
            assert(snake_case(name) =~= name);
        }
    }
}


/// A field is accepted exactly where it has at most one marker and fits that marker: one configuration,
/// tasks and resources of their own types and at most once, a dependency on a client, and a Port of one.
pub proof fn a_well_marked_field_is_accepted(earlier: FieldsView, field: FieldShape)
    ensures
        with_field(earlier, field) is Ok <==> {
            let dependency = field.dependencies@.len() > 0;
            &&& dependency_of(field) is Ok
            &&& !(field.config && (field.tasks || field.resources || dependency))
            &&& !(dependency && (field.tasks || field.resources))
            &&& !(field.tasks && field.resources)
            &&& field.config ==> earlier.config_type is None
            &&& dependency ==> client_of(field.ty) is Ok
            &&& field.tasks ==> is_named(field.ty, "ManagedTasks"@) && earlier.tasks.len() == 0
            &&& field.resources ==> is_named(field.ty, "InstanceResources"@) && !earlier.has_resources
            &&& !field.config && !dependency && !field.tasks && !field.resources ==> port_of(field.ty) is Ok
        },
{
    a_dependency_names_its_requirement(field);
}

proof fn lemma_contributed(capabilities: Seq<PathShape>, n: nat)
    requires
        n <= capabilities.len(),
        forall|i: int| 0 <= i < n ==> (#[trigger] capabilities[i]).segments@.len() >= 2,
        forall|i: int, j: int| 0 <= i < j < n ==> (#[trigger] capabilities[i]).written() != (#[trigger] capabilities[j]).written(),
    ensures
        contributions(capabilities, n) is Ok,
    decreases n,
{
    if n > 0 {
        lemma_contributed(capabilities, (n - 1) as nat);
        assert(capabilities[n - 1].segments@.len() >= 2);
    }
}

/// An implementation that lists different Capabilities, each with a namespace, is accepted for a type
/// with a path; more than one where its own methods are lowered.
pub proof fn different_capabilities_are_provided(capabilities: Seq<PathShape>, of_trait: bool, self_type: TypeShape)
    requires
        capabilities.len() > 0,
        capabilities.len() > 1 ==> !of_trait,
        self_type.path is Some,
        self_type.path->Some_0.segments@.len() > 0,
        forall|i: int| 0 <= i < capabilities.len() ==> (#[trigger] capabilities[i]).segments@.len() >= 2,
        forall|i: int, j: int|
            0 <= i < j < capabilities.len() ==> (#[trigger] capabilities[i]).written() != (#[trigger] capabilities[j]).written(),
    ensures
        provides(capabilities, of_trait, self_type) is Ok,
{
    lemma_contributed(capabilities, capabilities.len());
}

/// A struct-level Plugin is accepted where its package has metadata and a version, its fields and its
/// requirements are accepted, its documents have a source, and its attributes fit its fields.
pub proof fn a_consistent_struct_plugin_is_accepted(
    attributes: PluginAttributes,
    item: PluginItem,
    metadata: Result<(Seq<char>, Seq<char>), Seq<char>>,
    version: Option<Seq<char>>,
    schema: Option<Result<JsonView, Seq<char>>>,
    defaults: Option<Result<JsonView, Seq<char>>>,
)
    requires
        attributes.descriptor is None,
        metadata is Ok,
        version is Some,
        item.named,
        analyzed(item.fields@, item.fields@.len()) is Ok,
        ({
            let fields = analyzed(item.fields@, item.fields@.len())->Ok_0;
            &&& schema_source(schema, fields.config_type) is Ok
            &&& defaults_source(schema, defaults, fields.config_type) is Ok
            &&& requirements_of(fields) is Ok
            &&& attributes.configuration_schema is Some || attributes.configuration_defaults is Some || attributes.validate is Some
                ==> fields.config_type is Some
        }),
        attributes.lifecycle ==> attributes.prepare is None && attributes.activate is None && attributes.deactivate is None,
    ensures
        struct_plan(attributes, item, metadata, version, schema, defaults) is Ok,
{
}
} // verus!
