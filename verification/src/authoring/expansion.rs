//! What the authoring macros generate for a method block, a factory function and provided Capabilities.
use vstd::prelude::*;
use vstd::string::*;

use crate::authoring::attributes::PluginAttributes;
use crate::authoring::descriptor;
use crate::authoring::descriptor::{described, json_text, opt_document, opt_sound};
use crate::authoring::shape::{
    generated_name, gives_result, is_named, is_named_type, returns_result, snake, snake_case, write_namespace, write_path, PathShape, TypeShape,
};
use crate::authoring::{refused, AuthoringError};
use crate::json::{read_json, Json, JsonView};
use crate::text;
use crate::text::{decimal, opt_text, texts};

verus! {

/// The kinds of items that can stand under the Plugin attribute.
#[derive(Clone, Copy, Debug, PartialEq, Eq, Structural)]
pub enum ItemKind {
    Function,
    Struct,
    Other,
}

/// Decides whether an item can declare a Plugin.
pub fn check_authoring_item(kind: ItemKind) -> (r: Result<(), AuthoringError>)
    ensures
        match r {
            Ok(()) => kind != ItemKind::Other,
            Err(error) => kind == ItemKind::Other && error@
                == "a native Plugin must be declared by a factory function or a named-field struct"@,
        },
{
    if kind == ItemKind::Other {
        Err(refused("a native Plugin must be declared by a factory function or a named-field struct"))
    } else {
        Ok(())
    }
}

/// One input of a method.
#[derive(Debug)]
pub enum InputShape {
    /// The receiver: taken by reference or not, mutable or not.
    Receiver { reference: bool, mutable: bool },
    /// A typed input; the identifier that its pattern is, if it is one, and the pattern as written.
    Typed { ident: Option<String>, pattern: String, ty: TypeShape, lifecycle: bool },
}

/// One method of an implementation.
#[derive(Debug)]
pub struct MethodShape {
    pub name: String,
    pub is_async: bool,
    pub create: bool,
    pub stop: bool,
    pub inputs: Vec<InputShape>,
    pub output: Option<TypeShape>,
}

/// An implementation block.
#[derive(Debug)]
pub struct ImplShape {
    pub of_trait: bool,
    pub generic: bool,
    pub self_type: TypeShape,
    pub methods: Vec<MethodShape>,
}

/// One argument in a generated call.
#[derive(Debug, PartialEq, Eq)]
pub enum CallArgument {
    /// The lifecycle context.
    Lifecycle,
    /// An input of the Plugin, as written.
    Input(String),
}

/// One argument in a generated call, by the facts.
pub enum ArgumentView {
    Lifecycle,
    Input(Seq<char>),
}

impl View for CallArgument {
    type V = ArgumentView;

    open spec fn view(&self) -> ArgumentView {
        match *self {
            CallArgument::Lifecycle => ArgumentView::Lifecycle,
            CallArgument::Input(pattern) => ArgumentView::Input(pattern@),
        }
    }
}

/// How a custom constructor is called: the inputs it takes out of the Plugin's, the arguments, and
/// whether it is awaited and may fail.
#[derive(Debug)]
pub struct CreateCall {
    pub method: String,
    pub names: Vec<String>,
    pub arguments: Vec<CallArgument>,
    pub awaits: bool,
    pub fallible: bool,
}

/// How a custom constructor is called, by the facts.
pub struct CreateView {
    pub method: Seq<char>,
    pub names: Seq<Seq<char>>,
    pub arguments: Seq<ArgumentView>,
    pub awaits: bool,
    pub fallible: bool,
}

/// The facts of arguments.
pub open spec fn all_arguments(arguments: Seq<CallArgument>) -> Seq<ArgumentView> {
    arguments.map_values(|argument: CallArgument| argument@)
}

impl View for CreateCall {
    type V = CreateView;

    open spec fn view(&self) -> CreateView {
        CreateView {
            method: self.method@,
            names: texts(self.names@),
            arguments: all_arguments(self.arguments@),
            awaits: self.awaits,
            fallible: self.fallible,
        }
    }
}

/// The names and arguments that the first `n` inputs of a constructor give, or why one is refused.
pub open spec fn create_inputs(inputs: Seq<InputShape>, n: nat) -> Result<(Seq<Seq<char>>, Seq<ArgumentView>), Seq<char>>
    decreases n,
{
    if n == 0 {
        Ok((Seq::empty(), Seq::empty()))
    } else {
        match create_inputs(inputs, (n - 1) as nat) {
            Err(detail) => Err(detail),
            Ok((names, arguments)) => match inputs[n - 1] {
                InputShape::Receiver { .. } => Err("#[create] is an associated function without a receiver"@),
                InputShape::Typed { ident, pattern, ty, lifecycle } => match ident {
                    None => Err("#[create] inputs must be plain identifiers"@),
                    Some(ident) => if lifecycle {
                        if is_named(ty, "LifecycleContext"@) {
                            Ok((names, arguments.push(ArgumentView::Lifecycle)))
                        } else {
                            Err("#[lifecycle] input must have type LifecycleContext"@)
                        }
                    } else {
                        Ok((names.push(ident@), arguments.push(ArgumentView::Input(pattern@))))
                    },
                },
            },
        }
    }
}

/// How a method is called as a custom constructor, or why it cannot be.
pub open spec fn create_call(method: MethodShape) -> Result<CreateView, Seq<char>> {
    match create_inputs(method.inputs@, method.inputs@.len()) {
        Err(detail) => Err(detail),
        Ok((names, arguments)) => Ok(
            CreateView { method: method.name@, names, arguments, awaits: method.is_async, fallible: gives_result(method.output) },
        ),
    }
}

proof fn create_fault_stays(inputs: Seq<InputShape>, n: nat, m: nat)
    requires
        n <= m,
        create_inputs(inputs, n) is Err,
    ensures
        create_inputs(inputs, m) == create_inputs(inputs, n),
    decreases m,
{
    if n < m {
        create_fault_stays(inputs, n, (m - 1) as nat);
    }
}

/// Plans the call of a custom constructor.
pub fn expand_create_call(method: &MethodShape) -> (r: Result<CreateCall, AuthoringError>)
    ensures
        match create_call(*method) {
            Ok(call) => r is Ok && r->Ok_0@ == call,
            Err(detail) => r is Err && r->Err_0@ == detail,
        },
{
    let inputs = &method.inputs;
    let mut names: Vec<String> = Vec::new();
    let mut arguments: Vec<CallArgument> = Vec::new();
    let mut i: usize = 0;
    assert(texts(names@) =~= Seq::empty());
    assert(all_arguments(arguments@) =~= Seq::empty());
    while i < inputs.len()
        invariant
            i <= inputs.len(),
            *inputs == method.inputs,
            create_inputs(inputs@, i as nat) == Ok::<(Seq<Seq<char>>, Seq<ArgumentView>), Seq<char>>(
                (texts(names@), all_arguments(arguments@)),
            ),
        decreases inputs.len() - i,
    {
        let ghost before = (texts(names@), all_arguments(arguments@));
        proof {
            if create_inputs(inputs@, (i + 1) as nat) is Err {
                create_fault_stays(inputs@, (i + 1) as nat, inputs@.len());
            }
        }
        match &inputs[i] {
            InputShape::Receiver { .. } => return Err(refused("#[create] is an associated function without a receiver")),
            InputShape::Typed { ident, pattern, ty, lifecycle } => match ident {
                None => return Err(refused("#[create] inputs must be plain identifiers")),
                Some(ident) => {
                    if *lifecycle {
                        if !is_named_type(ty, "LifecycleContext") {
                            return Err(refused("#[lifecycle] input must have type LifecycleContext"));
                        }
                        arguments.push(CallArgument::Lifecycle);
                        assert(all_arguments(arguments@) =~= before.1.push(ArgumentView::Lifecycle));
                    } else {
                        names.push(ident.clone());
                        arguments.push(CallArgument::Input(pattern.clone()));
                        assert(texts(names@) =~= before.0.push(ident@));
                        assert(all_arguments(arguments@) =~= before.1.push(ArgumentView::Input(pattern@)));
                    }
                },
            },
        }
        i = i + 1;
    }
    Ok(
        CreateCall {
            method: method.name.clone(),
            names,
            arguments,
            awaits: method.is_async,
            fallible: returns_result(&method.output),
        },
    )
}

/// How a stop hook is called.
#[derive(Debug)]
pub struct StopCall {
    pub method: String,
    pub takes_lifecycle: bool,
    pub awaits: bool,
    pub fallible: bool,
}

/// How a stop hook is called, by the facts.
pub open spec fn stop_facts(call: StopCall) -> (Seq<char>, bool, bool, bool) {
    (call.method@, call.takes_lifecycle, call.awaits, call.fallible)
}

/// An input that a stop hook may take.
pub open spec fn is_lifecycle_input(input: InputShape) -> bool {
    match input {
        InputShape::Receiver { .. } => false,
        InputShape::Typed { ty, lifecycle, .. } => lifecycle && is_named(ty, "LifecycleContext"@),
    }
}

/// Why the first `n` inputs behind the receiver of a stop hook are refused.
pub open spec fn stop_input_fault(inputs: Seq<InputShape>, n: nat) -> Option<Seq<char>>
    decreases n,
{
    if n <= 1 {
        None
    } else {
        match stop_input_fault(inputs, (n - 1) as nat) {
            Some(detail) => Some(detail),
            None => if inputs[n - 1] is Receiver {
                Some("invalid #[stop] input"@)
            } else if !is_lifecycle_input(inputs[n - 1]) {
                Some("#[stop] accepts only an optional #[lifecycle] LifecycleContext"@)
            } else {
                None
            },
        }
    }
}

/// How a method is called as a stop hook, or why it cannot be.
pub open spec fn stop_call(method: MethodShape) -> Result<(Seq<char>, bool, bool, bool), Seq<char>> {
    let inputs = method.inputs@;
    if inputs.len() == 0 || !(inputs[0] is Receiver) {
        Err("#[stop] requires an &self receiver"@)
    } else if !inputs[0]->reference || inputs[0]->mutable {
        Err("#[stop] requires &self"@)
    } else {
        match stop_input_fault(inputs, inputs.len()) {
            Some(detail) => Err(detail),
            None => if inputs.len() > 2 {
                Err("#[stop] accepts at most one lifecycle input"@)
            } else {
                Ok((method.name@, inputs.len() == 2, method.is_async, gives_result(method.output)))
            },
        }
    }
}

proof fn stop_fault_stays(inputs: Seq<InputShape>, n: nat, m: nat)
    requires
        n <= m,
        stop_input_fault(inputs, n) is Some,
    ensures
        stop_input_fault(inputs, m) == stop_input_fault(inputs, n),
    decreases m,
{
    if n < m {
        stop_fault_stays(inputs, n, (m - 1) as nat);
    }
}

/// Plans the call of a stop hook.
pub fn expand_stop_call(method: &MethodShape) -> (r: Result<StopCall, AuthoringError>)
    ensures
        match stop_call(*method) {
            Ok(call) => r is Ok && stop_facts(r->Ok_0) == call,
            Err(detail) => r is Err && r->Err_0@ == detail,
        },
{
    let inputs = &method.inputs;
    if inputs.len() == 0 {
        return Err(refused("#[stop] requires an &self receiver"));
    }
    match &inputs[0] {
        InputShape::Receiver { reference, mutable } => {
            if !*reference || *mutable {
                return Err(refused("#[stop] requires &self"));
            }
        },
        InputShape::Typed { .. } => return Err(refused("#[stop] requires an &self receiver")),
    }
    let mut i: usize = 1;
    while i < inputs.len()
        invariant
            1 <= i <= inputs.len(),
            *inputs == method.inputs,
            inputs@[0] is Receiver,
            inputs@[0]->reference && !inputs@[0]->mutable,
            stop_input_fault(inputs@, i as nat) is None,
        decreases inputs.len() - i,
    {
        proof {
            if stop_input_fault(inputs@, (i + 1) as nat) is Some {
                stop_fault_stays(inputs@, (i + 1) as nat, inputs@.len());
            }
        }
        match &inputs[i] {
            InputShape::Receiver { .. } => return Err(refused("invalid #[stop] input")),
            InputShape::Typed { ty, lifecycle, .. } => if !*lifecycle || !is_named_type(ty, "LifecycleContext") {
                return Err(refused("#[stop] accepts only an optional #[lifecycle] LifecycleContext"));
            },
        }
        i = i + 1;
    }
    if inputs.len() > 2 {
        return Err(refused("#[stop] accepts at most one lifecycle input"));
    }
    Ok(
        StopCall {
            method: method.name.clone(),
            takes_lifecycle: inputs.len() == 2,
            awaits: method.is_async,
            fallible: returns_result(&method.output),
        },
    )
}

/// What the first `n` methods mark: the constructor and the stop hook, by their positions.
pub open spec fn marked(methods: Seq<MethodShape>, n: nat) -> Result<(Option<int>, Option<int>), Seq<char>>
    decreases n,
{
    if n == 0 {
        Ok((None, None))
    } else {
        match marked(methods, (n - 1) as nat) {
            Err(detail) => Err(detail),
            Ok((create, stop)) => {
                let method = methods[n - 1];
                if method.create && method.stop {
                    Err("one method cannot be both create and stop"@)
                } else if method.create && create is Some {
                    Err("duplicate #[create] method"@)
                } else if method.stop && stop is Some {
                    Err("duplicate #[stop] method"@)
                } else {
                    Ok(
                        (
                            if method.create {
                                Some(n - 1)
                            } else {
                                create
                            },
                            if method.stop {
                                Some(n - 1)
                            } else {
                                stop
                            },
                        ),
                    )
                }
            },
        }
    }
}

proof fn marks_are_methods(methods: Seq<MethodShape>, n: nat)
    ensures
        marked(methods, n) matches Ok((create, stop)) ==> (create is Some ==> 0 <= create->Some_0 < n) && (stop is Some ==> 0
            <= stop->Some_0 < n),
    decreases n,
{
    if n > 0 {
        marks_are_methods(methods, (n - 1) as nat);
    }
}

proof fn mark_fault_stays(methods: Seq<MethodShape>, n: nat, m: nat)
    requires
        n <= m,
        marked(methods, n) is Err,
    ensures
        marked(methods, m) == marked(methods, n),
    decreases m,
{
    if n < m {
        mark_fault_stays(methods, n, (m - 1) as nat);
    }
}

/// What is generated beside an implementation with a constructor or a stop hook.
#[derive(Debug)]
pub struct ConstructionPlan {
    pub inputs_name: String,
    pub module_name: String,
    /// The custom constructor; without one, the object is constructed from its fields.
    pub create: Option<CreateCall>,
    pub stop: Option<StopCall>,
}

/// What is generated beside an implementation, by the facts.
pub struct ConstructionView {
    pub inputs_name: Seq<char>,
    pub module_name: Seq<char>,
    pub create: Option<CreateView>,
    pub stop: Option<(Seq<char>, bool, bool, bool)>,
}

impl View for ConstructionPlan {
    type V = ConstructionView;

    open spec fn view(&self) -> ConstructionView {
        ConstructionView {
            inputs_name: self.inputs_name@,
            module_name: self.module_name@,
            create: match self.create {
                Some(call) => Some(call@),
                None => None,
            },
            stop: match self.stop {
                Some(call) => Some(stop_facts(call)),
                None => None,
            },
        }
    }
}

/// What is generated beside an implementation; nothing where it marks no method.
pub open spec fn construction(block: ImplShape) -> Result<Option<ConstructionView>, Seq<char>> {
    if block.of_trait || block.generic {
        Err("#[plugin_impl] requires a non-generic inherent impl"@)
    } else if block.self_type.path is None || block.self_type.path->Some_0.segments@.len() == 0 {
        Err("Plugin implementation type must be a path"@)
    } else {
        let ident = block.self_type.path->Some_0.end().ident@;
        match marked(block.methods@, block.methods@.len()) {
            Err(detail) => Err(detail),
            Ok((None, None)) => Ok(None),
            Ok((create, stop)) => {
                let created = match create {
                    Some(i) => match create_call(block.methods@[i]) {
                        Ok(call) => Ok(Some(call)),
                        Err(detail) => Err(detail),
                    },
                    None => Ok(None),
                };
                match created {
                    Err(detail) => Err(detail),
                    Ok(create) => {
                        let stopped = match stop {
                            Some(i) => match stop_call(block.methods@[i]) {
                                Ok(call) => Ok(Some(call)),
                                Err(detail) => Err(detail),
                            },
                            None => Ok(None),
                        };
                        match stopped {
                            Err(detail) => Err(detail),
                            Ok(stop) => Ok(
                                Some(
                                    ConstructionView {
                                        inputs_name: "__LensoInputs"@ + ident,
                                        module_name: "__lenso_custom_construction_"@ + snake_case(ident),
                                        create,
                                        stop,
                                    },
                                ),
                            ),
                        }
                    },
                }
            },
        }
    }
}

/// Plans what is generated beside an implementation.
pub fn expand_plugin_impl(block: &ImplShape) -> (r: Result<Option<ConstructionPlan>, AuthoringError>)
    ensures
        match construction(*block) {
            Ok(None) => r == Ok::<Option<ConstructionPlan>, AuthoringError>(None),
            Ok(Some(plan)) => r is Ok && r->Ok_0 is Some && r->Ok_0->Some_0@ == plan,
            Err(detail) => r is Err && r->Err_0@ == detail,
        },
{
    if block.of_trait || block.generic {
        return Err(refused("#[plugin_impl] requires a non-generic inherent impl"));
    }
    let path = match &block.self_type.path {
        Some(path) => path,
        None => return Err(refused("Plugin implementation type must be a path")),
    };
    if path.segments.len() == 0 {
        return Err(refused("Plugin implementation type must be a path"));
    }
    let ident = path.segments[path.segments.len() - 1].ident.as_str();
    let methods = &block.methods;
    let mut create: Option<usize> = None;
    let mut stop: Option<usize> = None;
    let mut i: usize = 0;
    while i < methods.len()
        invariant
            i <= methods.len(),
            *methods == block.methods,
            !block.of_trait && !block.generic,
            block.self_type.path == Some(*path),
            path.segments@.len() > 0,
            marked(methods@, i as nat) == Ok::<(Option<int>, Option<int>), Seq<char>>(
                (
                    match create {
                        Some(k) => Some(k as int),
                        None => None,
                    },
                    match stop {
                        Some(k) => Some(k as int),
                        None => None,
                    },
                ),
            ),
        decreases methods.len() - i,
    {
        let method = &methods[i];
        proof {
            if marked(methods@, (i + 1) as nat) is Err {
                mark_fault_stays(methods@, (i + 1) as nat, methods@.len());
            }
        }
        if method.create && method.stop {
            return Err(refused("one method cannot be both create and stop"));
        }
        if method.create {
            if create.is_some() {
                return Err(refused("duplicate #[create] method"));
            }
            create = Some(i);
        }
        if method.stop {
            if stop.is_some() {
                return Err(refused("duplicate #[stop] method"));
            }
            stop = Some(i);
        }
        i = i + 1;
    }
    proof {
        marks_are_methods(methods@, methods@.len());
    }
    if create.is_none() && stop.is_none() {
        return Ok(None);
    }
    let create = match create {
        Some(k) => match expand_create_call(&methods[k]) {
            Ok(call) => Some(call),
            Err(error) => return Err(error),
        },
        None => None,
    };
    let stop = match stop {
        Some(k) => match expand_stop_call(&methods[k]) {
            Ok(call) => Some(call),
            Err(error) => return Err(error),
        },
        None => None,
    };
    Ok(
        Some(
            ConstructionPlan {
                inputs_name: text::behind("__LensoInputs", ident),
                module_name: generated_name("__lenso_custom_construction_", ident),
                create,
                stop,
            },
        ),
    )
}

/// A Descriptor as text, and as the artifact that the linker retains.
#[derive(Debug)]
pub struct EmbeddedDescriptor {
    pub descriptor: String,
    pub artifact: String,
    /// The package files that the build tracks.
    pub files: Vec<String>,
}

/// What is generated for a factory function.
#[derive(Debug)]
pub struct FunctionPlan {
    pub plugin_id: String,
    pub module_name: String,
    pub link_function: String,
    pub descriptor: Option<EmbeddedDescriptor>,
}

/// What is generated for a factory function, by the facts.
pub struct FunctionView {
    pub plugin_id: Seq<char>,
    pub module_name: Seq<char>,
    pub link_function: Seq<char>,
    pub descriptor: Option<(Seq<char>, Seq<char>, Seq<Seq<char>>)>,
}

impl View for FunctionPlan {
    type V = FunctionView;

    open spec fn view(&self) -> FunctionView {
        FunctionView {
            plugin_id: self.plugin_id@,
            module_name: self.module_name@,
            link_function: self.link_function@,
            descriptor: match self.descriptor {
                Some(embedded) => Some((embedded.descriptor@, embedded.artifact@, texts(embedded.files@))),
                None => None,
            },
        }
    }
}

/// The artifact that the linker retains for a Descriptor.
pub open spec fn artifact_text(descriptor: Seq<char>) -> Seq<char> {
    "LENSO_PLUGIN_DESCRIPTOR_V1\0"@ + descriptor + "\0END_LENSO_PLUGIN_DESCRIPTOR_V1"@
}

/// The package files among two that are given or not.
pub open spec fn tracked_files(schema: Option<Seq<char>>, defaults: Option<Seq<char>>) -> Seq<Seq<char>> {
    match (schema, defaults) {
        (Some(schema), Some(defaults)) => seq![schema, defaults],
        (Some(schema), None) => seq![schema],
        (None, Some(defaults)) => seq![defaults],
        (None, None) => Seq::empty(),
    }
}

/// Lists the package files that a build tracks.
pub fn package_file_tracking(schema: &Option<String>, defaults: &Option<String>) -> (r: Vec<String>)
    ensures
        texts(r@) == tracked_files(opt_text(*schema), opt_text(*defaults)),
{
    let mut r: Vec<String> = Vec::new();
    match schema {
        Some(path) => r.push(path.clone()),
        None => {},
    }
    match defaults {
        Some(path) => r.push(path.clone()),
        None => {},
    }
    assert(texts(r@) =~= tracked_files(opt_text(*schema), opt_text(*defaults)));
    r
}

/// Package metadata by the facts.
pub open spec fn metadata_facts(metadata: Result<(String, String), AuthoringError>) -> Result<(Seq<char>, Seq<char>), Seq<char>> {
    descriptor::metadata_outcome(metadata)
}

/// What is generated for a factory function, or why it is refused.
pub open spec fn function_plan(
    attributes: PluginAttributes,
    name: Seq<char>,
    metadata: Result<(Seq<char>, Seq<char>), Seq<char>>,
    version: Option<Seq<char>>,
    schema: Option<Result<JsonView, Seq<char>>>,
    defaults: Option<Result<JsonView, Seq<char>>>,
) -> Result<FunctionView, Seq<char>> {
    if attributes.descriptor is None && (attributes.configuration_schema is Some || attributes.configuration_defaults is Some) {
        Err("`configuration_schema` and `configuration_defaults` require `descriptor` on a factory function"@)
    } else if attributes.validate is Some || attributes.prepare is Some || attributes.activate is Some || attributes.deactivate is Some
        || attributes.lifecycle || attributes.consumer {
        Err("struct-level Plugin attributes are unavailable on factory functions"@)
    } else {
        match metadata {
            Err(detail) => Err(detail),
            Ok((plugin_id, root_slot)) => {
                let embedded: Result<Option<(Seq<char>, Seq<char>, Seq<Seq<char>>)>, Seq<char>> = match attributes.descriptor {
                    None => Ok(None),
                    Some(input) => match described(
                        plugin_id,
                        root_slot,
                        read_json(vstd::utf8::encode_utf8(input@)),
                        schema,
                        defaults,
                        version,
                    ) {
                        Err(detail) => Err(detail),
                        Ok(fields) => {
                            let descriptor = json_text(JsonView::Object(fields));
                            Ok(
                                Some(
                                    (
                                        descriptor,
                                        artifact_text(descriptor),
                                        tracked_files(opt_text(attributes.configuration_schema), opt_text(attributes.configuration_defaults)),
                                    ),
                                ),
                            )
                        },
                    },
                };
                match embedded {
                    Err(detail) => Err(detail),
                    Ok(descriptor) => Ok(
                        FunctionView {
                            plugin_id,
                            module_name: "__lenso_plugin_"@ + name,
                            link_function: "__lenso_link_"@ + name,
                            descriptor,
                        },
                    ),
                }
            },
        }
    }
}

/// Plans what is generated for a factory function. The Schema and the defaults are those read from the
/// package files that the attributes name.
pub fn expand_plugin_function(
    attributes: &PluginAttributes,
    name: &str,
    metadata: Result<(String, String), AuthoringError>,
    version: Option<&str>,
    schema: Option<Result<Json, AuthoringError>>,
    defaults: Option<Result<Json, AuthoringError>>,
) -> (r: Result<FunctionPlan, AuthoringError>)
    requires
        opt_sound(schema),
        opt_sound(defaults),
    ensures
        match function_plan(
            *attributes,
            name@,
            metadata_facts(metadata),
            text::opt_str(version),
            opt_document(schema),
            opt_document(defaults),
        ) {
            Ok(plan) => r is Ok && r->Ok_0@ == plan,
            Err(detail) => r is Err && r->Err_0@ == detail,
        },
{
    if attributes.descriptor.is_none() && (attributes.configuration_schema.is_some() || attributes.configuration_defaults.is_some()) {
        return Err(
            refused("`configuration_schema` and `configuration_defaults` require `descriptor` on a factory function"),
        );
    }
    if attributes.validate.is_some() || attributes.prepare.is_some() || attributes.activate.is_some() || attributes.deactivate.is_some()
        || attributes.lifecycle || attributes.consumer {
        return Err(refused("struct-level Plugin attributes are unavailable on factory functions"));
    }
    let (plugin_id, root_slot) = match metadata {
        Ok(found) => found,
        Err(error) => return Err(error),
    };
    let descriptor: Option<EmbeddedDescriptor> = match &attributes.descriptor {
        None => None,
        Some(input) => match descriptor::plugin_descriptor(
            plugin_id.as_str(),
            root_slot.as_str(),
            input.as_str(),
            schema,
            defaults,
            version,
        ) {
            Err(error) => return Err(error),
            Ok(descriptor) => {
                let artifact = text::around("LENSO_PLUGIN_DESCRIPTOR_V1\0", descriptor.as_str(), "\0END_LENSO_PLUGIN_DESCRIPTOR_V1");
                let files = package_file_tracking(&attributes.configuration_schema, &attributes.configuration_defaults);
                Some(EmbeddedDescriptor { descriptor, artifact, files })
            },
        },
    };
    Ok(
        FunctionPlan {
            plugin_id,
            module_name: text::behind("__lenso_plugin_", name),
            link_function: text::behind("__lenso_link_", name),
            descriptor,
        },
    )
}

/// The names that one provided Capability contributes.
#[derive(Debug)]
pub struct CapabilityContribution {
    pub namespace: String,
    pub descriptor: String,
    pub endpoints: String,
    pub lower: String,
    pub object_lower: String,
    pub trait_object_lower: String,
    pub provider_wrapper: &'static str,
    pub projection_module: String,
}

/// The names that one provided Capability contributes, by the facts.
pub struct ContributionView {
    pub namespace: Seq<char>,
    pub descriptor: Seq<char>,
    pub endpoints: Seq<char>,
    pub lower: Seq<char>,
    pub object_lower: Seq<char>,
    pub trait_object_lower: Seq<char>,
    pub provider_wrapper: Seq<char>,
    pub projection_module: Seq<char>,
}

impl View for CapabilityContribution {
    type V = ContributionView;

    open spec fn view(&self) -> ContributionView {
        ContributionView {
            namespace: self.namespace@,
            descriptor: self.descriptor@,
            endpoints: self.endpoints@,
            lower: self.lower@,
            object_lower: self.object_lower@,
            trait_object_lower: self.trait_object_lower@,
            provider_wrapper: self.provider_wrapper@,
            projection_module: self.projection_module@,
        }
    }
}

/// The facts of contributions.
pub open spec fn all_contributions(items: Seq<CapabilityContribution>) -> Seq<ContributionView> {
    items.map_values(|item: CapabilityContribution| item@)
}

/// What the Capability at a position contributes, or why it is refused.
pub open spec fn contribution_of(capabilities: Seq<PathShape>, index: int) -> Result<ContributionView, Seq<char>> {
    let capability = capabilities[index];
    if exists|k: int| 0 <= k < index && (#[trigger] capabilities[k]).written() == capability.written() {
        Err("a Plugin cannot provide the same Capability more than once"@)
    } else if capability.segments@.len() == 0 {
        Err("Capability path is empty"@)
    } else {
        match capability.namespace() {
            None => Err("Capability must be namespace-qualified, for example `agent::Agent`"@),
            Some(namespace) => {
                let name = snake_case(capability.end().ident@);
                Ok(
                    ContributionView {
                        namespace,
                        descriptor: "__lenso_provided_"@ + name,
                        endpoints: "__lenso_native_endpoints_"@ + name,
                        lower: "__lenso_native_lower_"@ + name,
                        object_lower: "__lenso_native_lower_object_"@ + name,
                        trait_object_lower: "__lenso_native_lower_trait_object_"@ + name,
                        provider_wrapper: "Provider"@,
                        projection_module: "projection_"@ + decimal(index as nat),
                    },
                )
            },
        }
    }
}

/// What the first `n` Capabilities contribute, or why one is refused.
pub open spec fn contributions(capabilities: Seq<PathShape>, n: nat) -> Result<Seq<ContributionView>, Seq<char>>
    decreases n,
{
    if n == 0 {
        Ok(Seq::empty())
    } else {
        match contributions(capabilities, (n - 1) as nat) {
            Err(detail) => Err(detail),
            Ok(earlier) => match contribution_of(capabilities, n - 1) {
                Err(detail) => Err(detail),
                Ok(item) => Ok(earlier.push(item)),
            },
        }
    }
}

proof fn contribution_fault_stays(capabilities: Seq<PathShape>, n: nat, m: nat)
    requires
        n <= m,
        contributions(capabilities, n) is Err,
    ensures
        contributions(capabilities, m) == contributions(capabilities, n),
    decreases m,
{
    if n < m {
        contribution_fault_stays(capabilities, n, (m - 1) as nat);
    }
}

/// Names what the Capability at a position contributes.
fn contribute(capabilities: &Vec<PathShape>, index: usize) -> (r: Result<CapabilityContribution, AuthoringError>)
    requires
        index < capabilities@.len(),
    ensures
        match contribution_of(capabilities@, index as int) {
            Ok(item) => r is Ok && r->Ok_0@ == item,
            Err(detail) => r is Err && r->Err_0@ == detail,
        },
{
    let capability = &capabilities[index];
    let own = write_path(capability);
    let mut k: usize = 0;
    while k < index
        invariant
            k <= index < capabilities@.len(),
            *capability == capabilities@[index as int],
            own@ == capability.written(),
            forall|m: int| 0 <= m < k ==> (#[trigger] capabilities@[m]).written() != own@,
        decreases index - k,
    {
        if text::same(write_path(&capabilities[k]).as_str(), own.as_str()) {
            assert(capabilities@[k as int].written() == capability.written());
            return Err(refused("a Plugin cannot provide the same Capability more than once"));
        }
        k = k + 1;
    }
    if capability.segments.len() == 0 {
        return Err(refused("Capability path is empty"));
    }
    match write_namespace(capability) {
        None => Err(refused("Capability must be namespace-qualified, for example `agent::Agent`")),
        Some(namespace) => {
            let name = snake(capability.segments[capability.segments.len() - 1].ident.as_str());
            Ok(
                CapabilityContribution {
                    namespace,
                    descriptor: text::behind("__lenso_provided_", name.as_str()),
                    endpoints: text::behind("__lenso_native_endpoints_", name.as_str()),
                    lower: text::behind("__lenso_native_lower_", name.as_str()),
                    object_lower: text::behind("__lenso_native_lower_object_", name.as_str()),
                    trait_object_lower: text::behind("__lenso_native_lower_trait_object_", name.as_str()),
                    provider_wrapper: "Provider",
                    projection_module: text::behind("projection_", text::print_u128(index as u128).as_str()),
                },
            )
        },
    }
}

/// Names what the provided Capabilities contribute.
pub fn capability_contributions(capabilities: &Vec<PathShape>) -> (r: Result<Vec<CapabilityContribution>, AuthoringError>)
    ensures
        match contributions(capabilities@, capabilities@.len()) {
            Ok(items) => r is Ok && all_contributions(r->Ok_0@) == items,
            Err(detail) => r is Err && r->Err_0@ == detail,
        },
{
    let mut r: Vec<CapabilityContribution> = Vec::new();
    let mut i: usize = 0;
    assert(all_contributions(r@) =~= Seq::empty());
    while i < capabilities.len()
        invariant
            i <= capabilities.len(),
            contributions(capabilities@, i as nat) == Ok::<Seq<ContributionView>, Seq<char>>(all_contributions(r@)),
        decreases capabilities.len() - i,
    {
        let ghost before = all_contributions(r@);
        match contribute(capabilities, i) {
            Ok(item) => {
                r.push(item);
                assert(all_contributions(r@) =~= before.push(item@));
            },
            Err(error) => {
                proof {
                    contribution_fault_stays(capabilities@, (i + 1) as nat, capabilities@.len());
                }
                return Err(error);
            },
        }
        i = i + 1;
    }
    Ok(r)
}

/// What is generated for an implementation that provides Capabilities.
#[derive(Debug)]
pub struct ProvidesPlan {
    pub plugin: String,
    /// The domain methods of an inherent implementation are lowered into Provider traits.
    pub lowers_domain_methods: bool,
    pub contributions: Vec<CapabilityContribution>,
    pub descriptor_macro: String,
    pub module_name: String,
    pub link_function: String,
    pub lifecycle: String,
    pub artifact: String,
}

/// What is generated for an implementation that provides Capabilities, by the facts.
pub struct ProvidesView {
    pub plugin: Seq<char>,
    pub lowers_domain_methods: bool,
    pub contributions: Seq<ContributionView>,
    pub descriptor_macro: Seq<char>,
    pub module_name: Seq<char>,
    pub link_function: Seq<char>,
    pub lifecycle: Seq<char>,
    pub artifact: Seq<char>,
}

impl View for ProvidesPlan {
    type V = ProvidesView;

    open spec fn view(&self) -> ProvidesView {
        ProvidesView {
            plugin: self.plugin@,
            lowers_domain_methods: self.lowers_domain_methods,
            contributions: all_contributions(self.contributions@),
            descriptor_macro: self.descriptor_macro@,
            module_name: self.module_name@,
            link_function: self.link_function@,
            lifecycle: self.lifecycle@,
            artifact: self.artifact@,
        }
    }
}

/// The Plugin whose Capabilities an implementation provides, or why it is refused.
pub open spec fn providing_plugin(capabilities: nat, of_trait: bool, self_type: TypeShape) -> Result<Seq<char>, Seq<char>> {
    if capabilities == 0 {
        Err("`provides` requires at least one namespace-qualified Capability"@)
    } else if capabilities > 1 && of_trait {
        Err("multiple Capabilities require one inherent impl containing their domain methods"@)
    } else {
        match self_type.path {
            None => Err("the Plugin provider type must be a path"@),
            Some(path) => if path.segments@.len() == 0 {
                Err("the Plugin provider type is empty"@)
            } else {
                Ok(path.end().ident@)
            },
        }
    }
}

/// Finds the Plugin whose Capabilities an implementation provides.
pub fn provided_module(capabilities: usize, of_trait: bool, self_type: &TypeShape) -> (r: Result<String, AuthoringError>)
    ensures
        match providing_plugin(capabilities as nat, of_trait, *self_type) {
            Ok(plugin) => r is Ok && r->Ok_0@ == plugin,
            Err(detail) => r is Err && r->Err_0@ == detail,
        },
{
    if capabilities == 0 {
        return Err(refused("`provides` requires at least one namespace-qualified Capability"));
    }
    if capabilities > 1 && of_trait {
        return Err(refused("multiple Capabilities require one inherent impl containing their domain methods"));
    }
    match &self_type.path {
        None => Err(refused("the Plugin provider type must be a path")),
        Some(path) => if path.segments.len() == 0 {
            Err(refused("the Plugin provider type is empty"))
        } else {
            Ok(path.segments[path.segments.len() - 1].ident.clone())
        },
    }
}

/// What is generated for an implementation that provides Capabilities, or why it is refused.
pub open spec fn provides(capabilities: Seq<PathShape>, of_trait: bool, self_type: TypeShape) -> Result<ProvidesView, Seq<char>> {
    match providing_plugin(capabilities.len(), of_trait, self_type) {
        Err(detail) => Err(detail),
        Ok(plugin) => match contributions(capabilities, capabilities.len()) {
            Err(detail) => Err(detail),
            Ok(contributions) => Ok(
                ProvidesView {
                    plugin,
                    lowers_domain_methods: !of_trait,
                    contributions,
                    descriptor_macro: "__lenso_plugin_descriptor_"@ + snake_case(plugin),
                    module_name: "__lenso_provider_"@ + snake_case(plugin),
                    link_function: "__lenso_link_"@ + snake_case(plugin),
                    lifecycle: "__LensoLifecycle"@ + plugin,
                    artifact: "__LENSO_PLUGIN_DESCRIPTOR_ARTIFACT_"@ + plugin,
                },
            ),
        },
    }
}

/// Plans what is generated for an implementation that provides Capabilities.
pub fn expand_provides(capabilities: &Vec<PathShape>, of_trait: bool, self_type: &TypeShape) -> (r: Result<ProvidesPlan, AuthoringError>)
    ensures
        match provides(capabilities@, of_trait, *self_type) {
            Ok(plan) => r is Ok && r->Ok_0@ == plan,
            Err(detail) => r is Err && r->Err_0@ == detail,
        },
{
    let plugin = match provided_module(capabilities.len(), of_trait, self_type) {
        Ok(plugin) => plugin,
        Err(error) => return Err(error),
    };
    let contributions = match capability_contributions(capabilities) {
        Ok(contributions) => contributions,
        Err(error) => return Err(error),
    };
    Ok(
        ProvidesPlan {
            lowers_domain_methods: !of_trait,
            contributions,
            descriptor_macro: generated_name("__lenso_plugin_descriptor_", plugin.as_str()),
            module_name: generated_name("__lenso_provider_", plugin.as_str()),
            link_function: generated_name("__lenso_link_", plugin.as_str()),
            lifecycle: text::behind("__LensoLifecycle", plugin.as_str()),
            artifact: text::behind("__LENSO_PLUGIN_DESCRIPTOR_ARTIFACT_", plugin.as_str()),
            plugin,
        },
    )
}

/// The Capabilities that an accepted implementation provides are written differently, and their
/// projections have different names.
pub proof fn provided_capabilities_differ(capabilities: Seq<PathShape>, of_trait: bool, self_type: TypeShape, i: int, j: int)
    requires
        provides(capabilities, of_trait, self_type) is Ok,
        0 <= i < j < capabilities.len(),
    ensures
        capabilities[i].written() != capabilities[j].written(),
        provides(capabilities, of_trait, self_type)->Ok_0.contributions.len() == capabilities.len(),
        provides(capabilities, of_trait, self_type)->Ok_0.contributions[i].projection_module != provides(
            capabilities,
            of_trait,
            self_type,
        )->Ok_0.contributions[j].projection_module,
{
    contributions_are_own(capabilities, capabilities.len(), i);
    contributions_are_own(capabilities, capabilities.len(), j);
    let items = provides(capabilities, of_trait, self_type)->Ok_0.contributions;
    let a = decimal(i as nat);
    let b = decimal(j as nat);
    if items[i].projection_module == items[j].projection_module {
        let prefix = "projection_"@;
        assert((prefix + a).skip(prefix.len() as int) =~= a);
        assert((prefix + b).skip(prefix.len() as int) =~= b);
        text::printed_number_reads_back(i as nat, j as nat);
        text::printed_number_reads_back(j as nat, j as nat);
    }
}

proof fn contributions_are_own(capabilities: Seq<PathShape>, n: nat, i: int)
    requires
        contributions(capabilities, n) is Ok,
        0 <= i < n <= capabilities.len(),
    ensures
        contributions(capabilities, n)->Ok_0.len() == n,
        contribution_of(capabilities, i) == Ok::<ContributionView, Seq<char>>(contributions(capabilities, n)->Ok_0[i]),
    decreases n,
{
    reveal_with_fuel(contributions, 2);
    if n > 1 {
        contributions_are_own(capabilities, (n - 1) as nat, if i < n - 1 { i } else { n - 2 });
    }
}

} // verus!
