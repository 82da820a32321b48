//! What the Plugin attribute generates for a struct-level Plugin.
use vstd::prelude::*;
use vstd::string::*;

use crate::authoring::attributes::PluginAttributes;
use crate::authoring::config;
use crate::authoring::config::defaults_fault;
use crate::authoring::descriptor;
use crate::authoring::descriptor::{
    descriptor_prefix, json_text, opt_document, opt_sound, schema_tree, AFTER_PROVIDED, AFTER_REQUIRED, AFTER_SCHEMA,
};
use crate::authoring::expansion::{metadata_facts, package_file_tracking, tracked_files};
use crate::authoring::fields::{
    all_kinds, analyze_struct_fields, analyzed, named_requirement, named_requirement_macro, port_prefix,
    requirement_facts, requirement_macro, requirement_of, ConstructionFieldKind, FieldShape, FieldsView, KindView,
    PortCardinality, RequirementMacro, StructFields,
};
use crate::authoring::shape::{generated_name, snake_case, write_namespace, PathShape, TypeShape};
use crate::authoring::{refused, AuthoringError};
use crate::json::{Json, JsonView};
use crate::text;
use crate::text::{opt_str, opt_text, texts};

verus! {

/// Where a generated Descriptor takes a document from.
#[derive(Debug)]
pub enum DocumentSource {
    /// The document as text.
    Text(String),
    /// A macro that the configuration type exports, in its namespace.
    Macro { namespace: Option<String>, name: String },
}

/// Where a generated Descriptor takes a document from, by the facts.
pub enum SourceView {
    Text(Seq<char>),
    Macro { namespace: Option<Seq<char>>, name: Seq<char> },
}

impl View for DocumentSource {
    type V = SourceView;

    open spec fn view(&self) -> SourceView {
        match *self {
            DocumentSource::Text(document) => SourceView::Text(document@),
            DocumentSource::Macro { namespace, name } => SourceView::Macro { namespace: opt_text(namespace), name: name@ },
        }
    }
}

/// The macro that a configuration type exports under a prefix, or why there is none.
pub open spec fn exported(config_type: TypeShape, prefix: Seq<char>) -> Result<SourceView, Seq<char>> {
    if config_type.path is None || config_type.path->Some_0.segments@.len() == 0 {
        Err("the `#[config]` field type must be a path"@)
    } else {
        let path = config_type.path->Some_0;
        Ok(SourceView::Macro { namespace: path.namespace(), name: prefix + snake_case(path.end().ident@) })
    }
}

/// Names the macro that a configuration type exports under a prefix.
fn exported_macro(config_type: &TypeShape, prefix: &str) -> (r: Result<DocumentSource, AuthoringError>)
    ensures
        source_outcome(r) == exported(*config_type, prefix@),
{
    let path = match &config_type.path {
        Some(path) => path,
        None => return Err(refused("the `#[config]` field type must be a path")),
    };
    if path.segments.len() == 0 {
        return Err(refused("the `#[config]` field type must be a path"));
    }
    let name = generated_name(prefix, path.segments[path.segments.len() - 1].ident.as_str());
    Ok(DocumentSource::Macro { namespace: write_namespace(path), name })
}

/// What a document that may be refused came to.
pub open spec fn source_outcome(r: Result<DocumentSource, AuthoringError>) -> Result<SourceView, Seq<char>> {
    match r {
        Ok(source) => Ok(source@),
        Err(error) => Err(error@),
    }
}

/// Where the configuration Schema of a Plugin comes from: its package file, its configuration type, or
/// else it is the Schema without properties.
pub open spec fn schema_source(schema: Option<Result<JsonView, Seq<char>>>, config_type: Option<TypeShape>) -> Result<SourceView, Seq<char>> {
    match schema {
        Some(Err(detail)) => Err(detail),
        Some(Ok(document)) => Ok(SourceView::Text(json_text(document))),
        None => match config_type {
            None => Ok(SourceView::Text(json_text(schema_tree(Seq::empty(), Seq::empty())))),
            Some(ty) => exported(ty, "__lenso_config_schema_"@),
        },
    }
}

/// Where the configuration defaults of a Plugin come from.
pub open spec fn defaults_source(
    schema: Option<Result<JsonView, Seq<char>>>,
    defaults: Option<Result<JsonView, Seq<char>>>,
    config_type: Option<TypeShape>,
) -> Result<SourceView, Seq<char>> {
    match defaults {
        Some(read) => match schema {
            None => Err("`configuration_defaults` requires an explicit `configuration_schema`"@),
            Some(schema) => match (read, schema) {
                (Err(detail), _) => Err(detail),
                (Ok(_), Err(detail)) => Err(detail),
                (Ok(document), Ok(schema)) => match defaults_fault(document, schema) {
                    Some(detail) => Err("invalid package configuration defaults: "@ + detail),
                    None => Ok(SourceView::Text(json_text(document))),
                },
            },
        },
        None => if schema is Some || config_type is None {
            Ok(SourceView::Text(json_text(JsonView::Object(Seq::empty()))))
        } else {
            exported(config_type->Some_0, "__lenso_config_defaults_"@)
        },
    }
}

/// Decides where the configuration Schema of a Plugin comes from.
pub fn configuration_schema_source(schema: &Option<Result<Json, AuthoringError>>, config_type: Option<&TypeShape>) -> (r: Result<
    DocumentSource,
    AuthoringError,
>)
    requires
        opt_sound(*schema),
    ensures
        source_outcome(r) == schema_source(opt_document(*schema), crate::authoring::fields::opt_type(config_type)),
{
    match schema {
        Some(Err(error)) => Err(refused(error.detail.as_str())),
        Some(Ok(document)) => Ok(DocumentSource::Text(descriptor::document_text(document))),
        None => match config_type {
            None => Ok(DocumentSource::Text(descriptor::empty_schema())),
            Some(ty) => exported_macro(ty, "__lenso_config_schema_"),
        },
    }
}

/// Decides where the configuration defaults of a Plugin come from.
pub fn configuration_defaults_source(
    schema: &Option<Result<Json, AuthoringError>>,
    defaults: &Option<Result<Json, AuthoringError>>,
    config_type: Option<&TypeShape>,
) -> (r: Result<DocumentSource, AuthoringError>)
    requires
        opt_sound(*schema),
        opt_sound(*defaults),
    ensures
        source_outcome(r) == defaults_source(
            opt_document(*schema),
            opt_document(*defaults),
            crate::authoring::fields::opt_type(config_type),
        ),
{
    match defaults {
        Some(read) => match schema {
            None => Err(refused("`configuration_defaults` requires an explicit `configuration_schema`")),
            Some(schema) => {
                let document = match read {
                    Ok(document) => document,
                    Err(error) => return Err(refused(error.detail.as_str())),
                };
                let schema = match schema {
                    Ok(schema) => schema,
                    Err(error) => return Err(refused(error.detail.as_str())),
                };
                match config::validate_configuration_defaults(document, schema) {
                    Ok(()) => {},
                    Err(detail) => return Err(
                        AuthoringError { detail: text::behind("invalid package configuration defaults: ", detail.as_str()) },
                    ),
                }
                Ok(DocumentSource::Text(descriptor::document_text(document)))
            },
        },
        None => match (schema, config_type) {
            (None, Some(ty)) => exported_macro(ty, "__lenso_config_defaults_"),
            _ => Ok(DocumentSource::Text(descriptor::empty_defaults())),
        },
    }
}

/// What a lifecycle phase of a Plugin of the first authoring version calls.
#[derive(Debug)]
pub enum HookPlan {
    /// The Plugin's own lifecycle methods.
    LifecycleTrait,
    /// A function, as written.
    Function(String),
    /// Nothing: the phase is ready at once.
    Ready,
}

/// What a lifecycle phase calls, by the facts.
pub enum HookView {
    LifecycleTrait,
    Function(Seq<char>),
    Ready,
}

impl View for HookPlan {
    type V = HookView;

    open spec fn view(&self) -> HookView {
        match *self {
            HookPlan::LifecycleTrait => HookView::LifecycleTrait,
            HookPlan::Function(path) => HookView::Function(path@),
            HookPlan::Ready => HookView::Ready,
        }
    }
}

/// What a lifecycle phase calls.
pub open spec fn hook_of(lifecycle: bool, function: Option<Seq<char>>) -> HookView {
    if lifecycle {
        HookView::LifecycleTrait
    } else {
        match function {
            Some(path) => HookView::Function(path),
            None => HookView::Ready,
        }
    }
}

/// Decides what a lifecycle phase calls.
pub fn hook(lifecycle: bool, function: &Option<String>) -> (r: HookPlan)
    ensures
        r@ == hook_of(lifecycle, opt_text(*function)),
{
    if lifecycle {
        return HookPlan::LifecycleTrait;
    }
    match function {
        Some(path) => HookPlan::Function(path.clone()),
        None => HookPlan::Ready,
    }
}

/// The names under which a consuming Plugin is registered.
#[derive(Debug)]
pub struct ConsumerPlan {
    pub module_name: String,
    pub link_function: String,
    pub artifact: String,
}

/// What is generated for a struct-level Plugin.
#[derive(Debug)]
pub struct StructPlan<'a> {
    pub plugin_id: String,
    pub inputs_name: String,
    pub construction_module: String,
    pub lifecycle_name: String,
    pub descriptor_macro: String,
    pub fields: StructFields<'a>,
    pub authoring_version: u32,
    pub runtime_profile: &'static str,
    pub schema: DocumentSource,
    pub defaults: DocumentSource,
    pub requirements: Vec<RequirementMacro>,
    /// The Descriptor before the Schema, between the configuration and the provided Capabilities, between
    /// those and the required ones, and behind them.
    pub affixes: (String, &'static str, &'static str, &'static str),
    pub prepare: HookPlan,
    pub activate: HookPlan,
    pub deactivate: HookPlan,
    pub files: Vec<String>,
    pub consumer: Option<ConsumerPlan>,
}

/// What is generated for a struct-level Plugin, by the facts.
pub struct StructView {
    pub plugin_id: Seq<char>,
    pub inputs_name: Seq<char>,
    pub construction_module: Seq<char>,
    pub lifecycle_name: Seq<char>,
    pub descriptor_macro: Seq<char>,
    pub fields: FieldsView,
    pub authoring_version: u32,
    pub runtime_profile: Seq<char>,
    pub schema: SourceView,
    pub defaults: SourceView,
    pub requirements: Seq<(Seq<char>, Seq<char>, Option<Seq<char>>)>,
    pub affixes: (Seq<char>, Seq<char>, Seq<char>, Seq<char>),
    pub prepare: HookView,
    pub activate: HookView,
    pub deactivate: HookView,
    pub files: Seq<Seq<char>>,
    pub consumer: Option<(Seq<char>, Seq<char>, Seq<char>)>,
}

/// The facts of requirement macros.
pub open spec fn all_requirements(items: Seq<RequirementMacro>) -> Seq<(Seq<char>, Seq<char>, Option<Seq<char>>)> {
    items.map_values(|item: RequirementMacro| requirement_facts(item))
}

impl<'a> View for StructPlan<'a> {
    type V = StructView;

    open spec fn view(&self) -> StructView {
        StructView {
            plugin_id: self.plugin_id@,
            inputs_name: self.inputs_name@,
            construction_module: self.construction_module@,
            lifecycle_name: self.lifecycle_name@,
            descriptor_macro: self.descriptor_macro@,
            fields: self.fields@,
            authoring_version: self.authoring_version,
            runtime_profile: self.runtime_profile@,
            schema: self.schema@,
            defaults: self.defaults@,
            requirements: all_requirements(self.requirements@),
            affixes: (self.affixes.0@, self.affixes.1@, self.affixes.2@, self.affixes.3@),
            prepare: self.prepare@,
            activate: self.activate@,
            deactivate: self.deactivate@,
            files: texts(self.files@),
            consumer: match self.consumer {
                Some(consumer) => Some((consumer.module_name@, consumer.link_function@, consumer.artifact@)),
                None => None,
            },
        }
    }
}

/// The requirements of the first `n` Ports behind others, or why one is refused.
pub open spec fn port_requirements(ports: Seq<(Seq<char>, PathShape, PortCardinality)>, n: nat) -> Result<
    Seq<(Seq<char>, Seq<char>, Option<Seq<char>>)>,
    Seq<char>,
>
    decreases n,
{
    if n == 0 {
        Ok(Seq::empty())
    } else {
        match port_requirements(ports, (n - 1) as nat) {
            Err(detail) => Err(detail),
            Ok(earlier) => match requirement_of(ports[n - 1].1, port_prefix(ports[n - 1].2), None) {
                Err(detail) => Err(detail),
                Ok(item) => Ok(earlier.push(item)),
            },
        }
    }
}

/// The requirements of the named dependencies among the first `n` fields behind others, or why one is refused.
pub open spec fn dependency_requirements(
    ports: Seq<(Seq<char>, Seq<char>, Option<Seq<char>>)>,
    kinds: Seq<KindView>,
    n: nat,
) -> Result<Seq<(Seq<char>, Seq<char>, Option<Seq<char>>)>, Seq<char>>
    decreases n,
{
    if n == 0 {
        Ok(ports)
    } else {
        match dependency_requirements(ports, kinds, (n - 1) as nat) {
            Err(detail) => Err(detail),
            Ok(earlier) => match kinds[n - 1] {
                KindView::Dependency { id, client, cardinality } => match named_requirement(client, cardinality, id) {
                    Err(detail) => Err(detail),
                    Ok(item) => Ok(earlier.push(item)),
                },
                _ => Ok(earlier),
            },
        }
    }
}

/// The requirements of a Plugin, or why one is refused.
pub open spec fn requirements_of(fields: FieldsView) -> Result<Seq<(Seq<char>, Seq<char>, Option<Seq<char>>)>, Seq<char>> {
    match port_requirements(fields.ports, fields.ports.len()) {
        Err(detail) => Err(detail),
        Ok(ports) => dependency_requirements(ports, fields.construction_fields, fields.construction_fields.len()),
    }
}

proof fn port_fault_stays(ports: Seq<(Seq<char>, PathShape, PortCardinality)>, n: nat, m: nat)
    requires
        n <= m,
        port_requirements(ports, n) is Err,
    ensures
        port_requirements(ports, m) == port_requirements(ports, n),
    decreases m,
{
    if n < m {
        port_fault_stays(ports, n, (m - 1) as nat);
    }
}

proof fn dependency_fault_stays(ports: Seq<(Seq<char>, Seq<char>, Option<Seq<char>>)>, kinds: Seq<KindView>, n: nat, m: nat)
    requires
        n <= m,
        dependency_requirements(ports, kinds, n) is Err,
    ensures
        dependency_requirements(ports, kinds, m) == dependency_requirements(ports, kinds, n),
    decreases m,
{
    if n < m {
        dependency_fault_stays(ports, kinds, n, (m - 1) as nat);
    }
}

/// Lists the requirements of a Plugin: of its Ports, and then of its named dependencies.
pub fn requirement_macros<'a>(fields: &StructFields<'a>) -> (r: Result<Vec<RequirementMacro>, AuthoringError>)
    ensures
        match requirements_of(fields@) {
            Ok(items) => r is Ok && all_requirements(r->Ok_0@) == items,
            Err(detail) => r is Err && r->Err_0@ == detail,
        },
{
    let mut r: Vec<RequirementMacro> = Vec::new();
    let ghost ports = fields@.ports;
    let ghost kinds = fields@.construction_fields;
    assert(all_requirements(r@) =~= Seq::empty());
    let mut i: usize = 0;
    while i < fields.ports.len()
        invariant
            i <= fields.ports.len(),
            ports == fields@.ports,
            port_requirements(ports, i as nat) == Ok::<Seq<(Seq<char>, Seq<char>, Option<Seq<char>>)>, Seq<char>>(all_requirements(r@)),
        decreases fields.ports.len() - i,
    {
        let ghost before = all_requirements(r@);
        let port = &fields.ports[i];
        assert(ports[i as int] == (port.name@, *port.client, port.cardinality));
        match requirement_macro(port.client, port.cardinality) {
            Ok(item) => {
                r.push(item);
                assert(all_requirements(r@) =~= before.push(requirement_facts(item)));
            },
            Err(error) => {
                proof {
                    port_fault_stays(ports, (i + 1) as nat, ports.len());
                }
                return Err(error);
            },
        }
        i = i + 1;
    }
    let ghost first = all_requirements(r@);
    let mut k: usize = 0;
    while k < fields.construction_fields.len()
        invariant
            k <= fields.construction_fields.len(),
            ports == fields@.ports,
            kinds == fields@.construction_fields,
            port_requirements(ports, ports.len()) == Ok::<Seq<(Seq<char>, Seq<char>, Option<Seq<char>>)>, Seq<char>>(first),
            dependency_requirements(first, kinds, k as nat) == Ok::<Seq<(Seq<char>, Seq<char>, Option<Seq<char>>)>, Seq<char>>(
                all_requirements(r@),
            ),
        decreases fields.construction_fields.len() - k,
    {
        let ghost before = all_requirements(r@);
        let kind = &fields.construction_fields[k];
        assert(kinds[k as int] == kind@);
        match kind {
            ConstructionFieldKind::Dependency { id, client, cardinality } => match named_requirement_macro(*client, *cardinality, id.as_str()) {
                Ok(item) => {
                    r.push(item);
                    assert(all_requirements(r@) =~= before.push(requirement_facts(item)));
                },
                Err(error) => {
                    proof {
                        dependency_fault_stays(first, kinds, (k + 1) as nat, kinds.len());
                    }
                    return Err(error);
                },
            },
            _ => {},
        }
        k = k + 1;
    }
    Ok(r)
}

/// The Plugin uses the first authoring version.
pub open spec fn uses_legacy(attributes: PluginAttributes, kinds: Seq<KindView>) -> bool {
    ||| exists|i: int| 0 <= i < kinds.len() && (#[trigger] kinds[i]) is Legacy
    ||| attributes.lifecycle
    ||| attributes.prepare is Some
    ||| attributes.activate is Some
    ||| attributes.deactivate is Some
}

/// Decides whether a Plugin uses the first authoring version.
fn is_legacy<'a>(attributes: &PluginAttributes, kinds: &Vec<ConstructionFieldKind<'a>>) -> (r: bool)
    ensures
        r == uses_legacy(*attributes, all_kinds(kinds@)),
{
    let ghost facts = all_kinds(kinds@);
    let mut i: usize = 0;
    while i < kinds.len()
        invariant
            i <= kinds.len(),
            facts == all_kinds(kinds@),
            forall|k: int| 0 <= k < i ==> !((#[trigger] facts[k]) is Legacy),
        decreases kinds.len() - i,
    {
        assert(facts[i as int] == kinds@[i as int]@);
        match &kinds[i] {
            ConstructionFieldKind::Legacy => {
                assert(facts[i as int] is Legacy);
                return true;
            },
            _ => {},
        }
        i = i + 1;
    }
    attributes.lifecycle || attributes.prepare.is_some() || attributes.activate.is_some() || attributes.deactivate.is_some()
}

/// The runtime profile of an authoring version.
pub open spec fn profile_of(legacy: bool) -> Seq<char> {
    if legacy {
        "lenso.native-authoring@1"@
    } else {
        "lenso.native-authoring@2"@
    }
}

/// Why the attributes do not go together.
pub open spec fn attribute_fault(attributes: PluginAttributes, has_config: bool) -> Option<Seq<char>> {
    if !has_config && attributes.configuration_schema is Some {
        Some("`configuration_schema` requires a `#[config]` field"@)
    } else if !has_config && attributes.validate is Some {
        Some("`validate` requires a `#[config]` field"@)
    } else if !has_config && attributes.configuration_defaults is Some {
        Some("`configuration_defaults` requires a `#[config]` field"@)
    } else if attributes.lifecycle && (attributes.prepare is Some || attributes.activate is Some || attributes.deactivate is Some) {
        Some("`lifecycle` replaces the `prepare`, `activate`, and `deactivate` function attributes"@)
    } else {
        None
    }
}

/// Checks that the attributes go together.
fn check_attributes(attributes: &PluginAttributes, has_config: bool) -> (r: Result<(), AuthoringError>)
    ensures
        match attribute_fault(*attributes, has_config) {
            Some(detail) => r is Err && r->Err_0@ == detail,
            None => r is Ok,
        },
{
    if !has_config && attributes.configuration_schema.is_some() {
        return Err(refused("`configuration_schema` requires a `#[config]` field"));
    }
    if !has_config && attributes.validate.is_some() {
        return Err(refused("`validate` requires a `#[config]` field"));
    }
    if !has_config && attributes.configuration_defaults.is_some() {
        return Err(refused("`configuration_defaults` requires a `#[config]` field"));
    }
    if attributes.lifecycle && (attributes.prepare.is_some() || attributes.activate.is_some() || attributes.deactivate.is_some()) {
        return Err(refused("`lifecycle` replaces the `prepare`, `activate`, and `deactivate` function attributes"));
    }
    Ok(())
}

/// A Plugin item: its name, whether its fields are named, and the fields.
#[derive(Debug)]
pub struct PluginItem {
    pub name: String,
    pub named: bool,
    pub fields: Vec<FieldShape>,
}

/// What the fields of an item come to.
pub open spec fn item_fields(item: PluginItem) -> Result<FieldsView, Seq<char>> {
    if item.named {
        analyzed(item.fields@, item.fields@.len())
    } else {
        Err("a struct-level Plugin requires named fields"@)
    }
}

/// What is generated for an accepted Plugin.
pub open spec fn generated(
    attributes: PluginAttributes,
    name: Seq<char>,
    plugin_id: Seq<char>,
    root_slot: Seq<char>,
    version: Seq<char>,
    fields: FieldsView,
    schema: SourceView,
    defaults: SourceView,
    requirements: Seq<(Seq<char>, Seq<char>, Option<Seq<char>>)>,
) -> StructView {
    let legacy = uses_legacy(attributes, fields.construction_fields);
    let authoring_version: u32 = if legacy {
        1
    } else {
        2
    };
    StructView {
        plugin_id,
        inputs_name: "__LensoInputs"@ + name,
        construction_module: "__lenso_construction_"@ + snake_case(name),
        lifecycle_name: "__LensoLifecycle"@ + name,
        descriptor_macro: "__lenso_plugin_descriptor_"@ + snake_case(name),
        fields,
        authoring_version,
        runtime_profile: profile_of(legacy),
        schema,
        defaults,
        requirements,
        affixes: (
            descriptor_prefix(plugin_id, version, root_slot, authoring_version, profile_of(legacy)),
            AFTER_SCHEMA@,
            AFTER_PROVIDED@,
            AFTER_REQUIRED@,
        ),
        prepare: hook_of(attributes.lifecycle, opt_text(attributes.prepare)),
        activate: hook_of(attributes.lifecycle, opt_text(attributes.activate)),
        deactivate: hook_of(attributes.lifecycle, opt_text(attributes.deactivate)),
        files: tracked_files(opt_text(attributes.configuration_schema), opt_text(attributes.configuration_defaults)),
        consumer: if attributes.consumer {
            Some(
                (
                    "__lenso_consumer_"@ + snake_case(name),
                    "__lenso_link_"@ + snake_case(name),
                    "__LENSO_PLUGIN_DESCRIPTOR_ARTIFACT_"@ + name,
                ),
            )
        } else {
            None
        },
    }
}

/// What is generated for a struct-level Plugin, or why it is refused.
pub open spec fn struct_plan(
    attributes: PluginAttributes,
    item: PluginItem,
    metadata: Result<(Seq<char>, Seq<char>), Seq<char>>,
    version: Option<Seq<char>>,
    schema: Option<Result<JsonView, Seq<char>>>,
    defaults: Option<Result<JsonView, Seq<char>>>,
) -> Result<StructView, Seq<char>> {
    if attributes.descriptor is Some {
        Err("struct-level Plugins derive their Descriptor; remove `descriptor`"@)
    } else {
        match (metadata, version) {
            (Err(detail), _) => Err(detail),
            (Ok(_), None) => Err("CARGO_PKG_VERSION is unavailable while deriving Plugin Descriptor"@),
            (Ok((plugin_id, root_slot)), Some(version)) => match item_fields(item) {
                Err(detail) => Err(detail),
                Ok(fields) => match schema_source(schema, fields.config_type) {
                    Err(detail) => Err(detail),
                    Ok(schema_text) => match defaults_source(schema, defaults, fields.config_type) {
                        Err(detail) => Err(detail),
                        Ok(defaults_text) => match requirements_of(fields) {
                            Err(detail) => Err(detail),
                            Ok(requirements) => match attribute_fault(attributes, fields.config_type is Some) {
                                Some(detail) => Err(detail),
                                None => Ok(
                                    generated(
                                        attributes,
                                        item.name@,
                                        plugin_id,
                                        root_slot,
                                        version,
                                        fields,
                                        schema_text,
                                        defaults_text,
                                        requirements,
                                    ),
                                ),
                            },
                        },
                    },
                },
            },
        }
    }
}

/// Plans what is generated for a struct-level Plugin. The Schema and the defaults are those read from the
/// package files that the attributes name.
pub fn expand_plugin_struct<'a>(
    attributes: &PluginAttributes,
    item: &'a PluginItem,
    metadata: Result<(String, String), AuthoringError>,
    version: Option<&str>,
    schema: &Option<Result<Json, AuthoringError>>,
    defaults: &Option<Result<Json, AuthoringError>>,
) -> (r: Result<StructPlan<'a>, AuthoringError>)
    requires
        opt_sound(*schema),
        opt_sound(*defaults),
    ensures
        match struct_plan(*attributes, *item, metadata_facts(metadata), opt_str(version), opt_document(*schema), opt_document(*defaults)) {
            Ok(plan) => r is Ok && r->Ok_0@ == plan,
            Err(detail) => r is Err && r->Err_0@ == detail,
        },
{
    if attributes.descriptor.is_some() {
        return Err(refused("struct-level Plugins derive their Descriptor; remove `descriptor`"));
    }
    let (plugin_id, root_slot) = match metadata {
        Ok(found) => found,
        Err(error) => return Err(error),
    };
    let version = match version {
        Some(version) => version,
        None => return Err(refused("CARGO_PKG_VERSION is unavailable while deriving Plugin Descriptor")),
    };
    let fields = match analyze_struct_fields(item.named, &item.fields) {
        Ok(fields) => fields,
        Err(error) => return Err(error),
    };
    let schema_text = match configuration_schema_source(schema, fields.config_type) {
        Ok(source) => source,
        Err(error) => return Err(error),
    };
    let defaults_text = match configuration_defaults_source(schema, defaults, fields.config_type) {
        Ok(source) => source,
        Err(error) => return Err(error),
    };
    let requirements = match requirement_macros(&fields) {
        Ok(requirements) => requirements,
        Err(error) => return Err(error),
    };
    match check_attributes(attributes, fields.config_type.is_some()) {
        Ok(()) => {},
        Err(error) => return Err(error),
    }
    let legacy: bool = is_legacy(attributes, &fields.construction_fields);
    let authoring_version: u32 = if legacy {
        1
    } else {
        2
    };
    let runtime_profile: &'static str = if legacy {
        "lenso.native-authoring@1"
    } else {
        "lenso.native-authoring@2"
    };
    let affixes = descriptor::descriptor_affixes(
        plugin_id.as_str(),
        version,
        root_slot.as_str(),
        authoring_version,
        runtime_profile,
    );
    let name = item.name.as_str();
    let consumer: Option<ConsumerPlan> = if attributes.consumer {
        Some(
            ConsumerPlan {
                module_name: generated_name("__lenso_consumer_", name),
                link_function: generated_name("__lenso_link_", name),
                artifact: text::behind("__LENSO_PLUGIN_DESCRIPTOR_ARTIFACT_", name),
            },
        )
    } else {
        None
    };
    Ok(
        StructPlan {
            plugin_id,
            inputs_name: text::behind("__LensoInputs", name),
            construction_module: generated_name("__lenso_construction_", name),
            lifecycle_name: text::behind("__LensoLifecycle", name),
            descriptor_macro: generated_name("__lenso_plugin_descriptor_", name),
            fields,
            authoring_version,
            runtime_profile,
            schema: schema_text,
            defaults: defaults_text,
            requirements,
            affixes,
            prepare: hook(attributes.lifecycle, &attributes.prepare),
            activate: hook(attributes.lifecycle, &attributes.activate),
            deactivate: hook(attributes.lifecycle, &attributes.deactivate),
            files: package_file_tracking(&attributes.configuration_schema, &attributes.configuration_defaults),
            consumer,
        },
    )
}

/// A Plugin of the second authoring version has no legacy field and no lifecycle function, and its
/// profile is one that the native Adapter runs.
pub proof fn authoring_version_fits_the_plugin(
    attributes: PluginAttributes,
    item: PluginItem,
    metadata: Result<(Seq<char>, Seq<char>), Seq<char>>,
    version: Option<Seq<char>>,
    schema: Option<Result<JsonView, Seq<char>>>,
    defaults: Option<Result<JsonView, Seq<char>>>,
)
    requires
        struct_plan(attributes, item, metadata, version, schema, defaults) is Ok,
    ensures
        ({
            let plan = struct_plan(attributes, item, metadata, version, schema, defaults)->Ok_0;
            &&& plan.authoring_version == 1 || plan.authoring_version == 2
            &&& plan.authoring_version == 2 <==> !uses_legacy(attributes, plan.fields.construction_fields)
            &&& plan.authoring_version == 2 ==> plan.prepare is Ready && plan.activate is Ready && plan.deactivate is Ready
                && plan.fields.construction_fields.len() == item.fields@.len()
            &&& crate::native::supported_profile(plan.authoring_version, plan.runtime_profile)
        }),
{
    crate::authoring::fields::analysis_covers_every_field(item.fields@, item.fields@.len());
}

} // verus!
