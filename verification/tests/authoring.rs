use lenso_runtime::authoring::attributes::{AttributeEntry, PluginAttributes};
use lenso_runtime::authoring::config::{configuration_type_schema, equal_json, validate_configuration_defaults};
use lenso_runtime::authoring::descriptor::{
    check_package_path, complete_plugin_descriptor, default_value, expect_default, plugin_descriptor, plugin_metadata, read_configuration_defaults,
    read_configuration_schema, serde_field_name, ConfigSchema,
};
use lenso_runtime::authoring::expansion::{
    check_authoring_item, expand_create_call, expand_plugin_function, expand_plugin_impl, expand_provides, expand_stop_call, CallArgument,
    ImplShape, InputShape, ItemKind, MethodShape,
};
use lenso_runtime::authoring::fields::{
    analyze_struct_fields, port_client, take_dependency, v2_field_initializer, v2_input_initializer, ConstructionFieldKind,
    DependencyCardinality, DependencyEntry, FieldShape, FieldSource, InitialValue, PortCardinality,
};
use lenso_runtime::authoring::plugin_struct::{expand_plugin_struct, DocumentSource, HookPlan, PluginItem, StructPlan};
use lenso_runtime::authoring::shape::{snake, write_path, ArgumentShape, ArgumentsShape, PathShape, SegmentShape, TypeShape};
use lenso_runtime::authoring::AuthoringError;
use lenso_runtime::json::{from_bytes, get, Json};
use quote::ToTokens;

fn json(text: &str) -> Json {
    from_bytes(text.as_bytes()).unwrap()
}

fn at<'a>(value: &'a Json, path: &[&str]) -> &'a Json {
    path.iter().fold(value, |value, key| get(value, key).unwrap())
}

fn text(value: &str) -> Json {
    Json::Text(value.to_owned())
}

fn written(tokens: &impl ToTokens) -> String {
    tokens.to_token_stream().to_string()
}

fn path_shape(path: &syn::Path) -> PathShape {
    PathShape {
        leading: path.leading_colon.is_some(),
        segments: path
            .segments
            .iter()
            .map(|segment| SegmentShape {
                source: written(segment),
                ident: segment.ident.to_string(),
                arguments: match &segment.arguments {
                    syn::PathArguments::None => ArgumentsShape::Absent,
                    syn::PathArguments::Parenthesized(_) => ArgumentsShape::Parenthesized,
                    syn::PathArguments::AngleBracketed(arguments) => ArgumentsShape::Angle(
                        arguments
                            .args
                            .iter()
                            .map(|argument| match argument {
                                syn::GenericArgument::Type(inner) => ArgumentShape::Type(type_shape(inner)),
                                _ => ArgumentShape::Other,
                            })
                            .collect(),
                    ),
                },
            })
            .collect(),
    }
}

fn type_shape(ty: &syn::Type) -> TypeShape {
    TypeShape {
        source: written(ty),
        path: match ty {
            syn::Type::Path(path) => Some(path_shape(&path.path)),
            _ => None,
        },
    }
}

fn ty(source: &str) -> TypeShape {
    type_shape(&syn::parse_str(source).unwrap())
}

fn path(source: &str) -> PathShape {
    path_shape(&syn::parse_str(source).unwrap())
}

fn is_marked(attributes: &[syn::Attribute], name: &str) -> bool {
    attributes.iter().any(|attribute| attribute.path().is_ident(name))
}

fn item(source: &str) -> PluginItem {
    let item: syn::ItemStruct = syn::parse_str(source).unwrap();
    let named = matches!(item.fields, syn::Fields::Named(_));
    let fields = item
        .fields
        .iter()
        .map(|field| FieldShape {
            name: field.ident.as_ref().map(|ident| ident.to_string()).unwrap_or_default(),
            ty: type_shape(&field.ty),
            config: is_marked(&field.attrs, "config"),
            tasks: is_marked(&field.attrs, "tasks"),
            resources: is_marked(&field.attrs, "resources"),
            dependencies: field
                .attrs
                .iter()
                .filter(|attribute| attribute.path().is_ident("dependency"))
                .map(|attribute| {
                    let mut entries = Vec::new();
                    attribute
                        .parse_nested_meta(|meta| {
                            let value: syn::LitStr = meta.value()?.parse()?;
                            entries.push(DependencyEntry { key: meta.path.get_ident().unwrap().to_string(), value: value.value() });
                            Ok(())
                        })
                        .unwrap();
                    entries
                })
                .collect(),
        })
        .collect();
    PluginItem { name: item.ident.to_string(), named, fields }
}

fn block(source: &str) -> ImplShape {
    let block: syn::ItemImpl = syn::parse_str(source).unwrap();
    let methods = block
        .items
        .iter()
        .filter_map(|item| match item {
            syn::ImplItem::Fn(method) => Some(method),
            _ => None,
        })
        .map(|method| MethodShape {
            name: method.sig.ident.to_string(),
            is_async: method.sig.asyncness.is_some(),
            create: is_marked(&method.attrs, "create"),
            stop: is_marked(&method.attrs, "stop"),
            inputs: method
                .sig
                .inputs
                .iter()
                .map(|input| match input {
                    syn::FnArg::Receiver(receiver) => {
                        InputShape::Receiver { reference: receiver.reference.is_some(), mutable: receiver.mutability.is_some() }
                    }
                    syn::FnArg::Typed(argument) => InputShape::Typed {
                        ident: match argument.pat.as_ref() {
                            syn::Pat::Ident(pattern) => Some(pattern.ident.to_string()),
                            _ => None,
                        },
                        pattern: written(&argument.pat),
                        ty: type_shape(&argument.ty),
                        lifecycle: is_marked(&argument.attrs, "lifecycle"),
                    },
                })
                .collect(),
            output: match &method.sig.output {
                syn::ReturnType::Type(_, ty) => Some(type_shape(ty)),
                syn::ReturnType::Default => None,
            },
        })
        .collect();
    ImplShape {
        of_trait: block.trait_.is_some(),
        generic: !block.generics.params.is_empty(),
        self_type: type_shape(&block.self_ty),
        methods,
    }
}

fn attributes(entries: &[(&str, &str)]) -> PluginAttributes {
    PluginAttributes::parse(
        entries.iter().map(|(name, value)| AttributeEntry { name: name.to_string(), value: value.to_string() }).collect(),
    )
    .unwrap()
}

fn metadata() -> Result<(String, String), AuthoringError> {
    Ok(("lenso.native-adapter".to_owned(), "test".to_owned()))
}

const SCHEMA: &str = "{\"type\":\"object\",\"additionalProperties\":false,\"required\":[\"name\",\"retries\"],\"properties\":{\"name\":{\"type\":\"string\"},\"retries\":{\"type\":\"integer\",\"minimum\":0}}}";
const DEFAULTS: &str = "{\"name\": \"fixture\", \"retries\": 3}";

#[test]
fn generated_descriptor_owns_identity_and_execution_defaults() {
    let supplied = match json("{\"provided_capabilities\":[],\"required_capabilities\":[]}") {
        Json::Object(entries) => entries,
        other => panic!("{other:?}"),
    };
    let descriptor = json(&complete_plugin_descriptor("example.tool", "1.2.3", "tools", supplied));

    assert_eq!(*at(&descriptor, &["plugin_id"]), text("example.tool"));
    assert_eq!(*at(&descriptor, &["release_version"]), text("1.2.3"));
    assert_eq!(*at(&descriptor, &["runtime_package_id"]), text("example.tool"));
    assert_eq!(*at(&descriptor, &["runtime_package_revision"]), text("1.2.3"));
    assert_eq!(*at(&descriptor, &["entrypoint"]), text("default"));
    assert_eq!(*at(&descriptor, &["execution_class"]), text("lenso.native-rust@1"));
    assert_eq!(*at(&descriptor, &["restart_policy", "mode"]), text("never"));
    assert_eq!(*at(&descriptor, &["criticality"]), text("non_critical"));
}

#[test]
fn package_schema_is_embedded_as_descriptor_data() {
    let schema = read_configuration_schema("tests/fixtures/config.schema.json", SCHEMA.as_bytes()).unwrap();

    assert_eq!(*at(&schema, &["type"]), text("object"));
    assert_eq!(*at(&schema, &["required"]), json("[\"name\", \"retries\"]"));
}

#[test]
fn package_defaults_are_embedded_as_descriptor_data() {
    let defaults = read_configuration_defaults("tests/fixtures/config.defaults.json", DEFAULTS.as_bytes()).unwrap();

    assert_eq!(defaults, json("{\"name\": \"fixture\", \"retries\": 3}"));
}

#[test]
fn package_documents_must_be_json_objects_inside_the_package() {
    assert_eq!(
        read_configuration_schema("a.json", b"[]").unwrap_err().detail,
        "configuration Schema must be a JSON object"
    );
    assert!(read_configuration_defaults("b.json", b"{").unwrap_err().detail.starts_with("configuration defaults b.json is invalid JSON: "));
    assert!(check_package_path("configuration Schema", "schemas/./a.json").is_ok());
    for escaping in ["/etc/a.json", "../a.json", "a/../../b.json", "./a.json"] {
        assert_eq!(
            check_package_path("configuration Schema", escaping).unwrap_err().detail,
            "configuration Schema path must stay inside the Plugin package"
        );
    }
}

#[test]
fn factory_function_descriptor_embeds_package_defaults() {
    let schema = read_configuration_schema("tests/fixtures/config.schema.json", SCHEMA.as_bytes());
    let defaults = read_configuration_defaults("tests/fixtures/config.defaults.json", DEFAULTS.as_bytes());
    let generated = plugin_descriptor(
        "example.tool",
        "tools",
        "{\"provided_capabilities\":[],\"required_capabilities\":[]}",
        Some(schema),
        Some(defaults),
        Some("1.2.3"),
    )
    .unwrap();
    let generated = json(&generated);
    assert_eq!(*at(&generated, &["configuration_defaults"]), json("{\"name\": \"fixture\", \"retries\": 3}"));
}

#[test]
fn descriptor_input_cannot_own_generated_fields() {
    let refusal = |descriptor: &str, schema: Option<&str>, defaults: Option<&str>, version: Option<&str>| {
        plugin_descriptor("example.tool", "tools", descriptor, schema.map(|text| Ok(json(text))), defaults.map(|text| Ok(json(text))), version)
            .unwrap_err()
            .detail
    };
    assert!(refusal("{", None, None, Some("1")).starts_with("Plugin Descriptor input is not valid JSON: "));
    assert_eq!(refusal("[]", None, None, Some("1")), "Plugin Descriptor input must be an object");
    assert_eq!(
        refusal("{\"configuration_schema\":{}}", None, None, Some("1")),
        "Plugin Descriptor input cannot contain `configuration_schema`; use the package-owned schema path attribute"
    );
    assert_eq!(
        refusal("{\"configuration_defaults\":{}}", None, None, Some("1")),
        "Plugin Descriptor input cannot contain `configuration_defaults`; use the package-owned defaults path attribute"
    );
    assert_eq!(refusal("{}", None, Some("{}"), Some("1")), "`configuration_defaults` requires `configuration_schema`");
    assert_eq!(
        refusal("{}", Some(SCHEMA), Some("{\"retries\":-1}"), Some("1")),
        "invalid package configuration defaults: $.retries: default must be greater than or equal to 0"
    );
    assert_eq!(
        refusal("{\"criticality\":1,\"root_slot\":2}", None, None, Some("1")),
        "Plugin Descriptor input cannot override generated field `root_slot`"
    );
    assert_eq!(refusal("{}", None, None, None), "CARGO_PKG_VERSION is unavailable while deriving Plugin Descriptor");
}

#[test]
fn typed_configuration_defaults_must_match_the_field_type() {
    let mut schema = ConfigSchema::new();
    let (name_schema, optional) = configuration_type_schema(&ty("String")).unwrap();
    expect_default("default", false).unwrap();
    let default = default_value("3").unwrap();
    let error = schema.enter(serde_field_name("name", &Vec::new()), name_schema, optional, Some(default)).unwrap_err();
    assert!(error.detail.contains("does not match the field type"));
}

#[test]
fn field_defaults_are_json_literals_given_once() {
    assert_eq!(expect_default("other", false).unwrap_err().detail, "expected `default = <JSON literal>`");
    assert_eq!(expect_default("default", true).unwrap_err().detail, "duplicate Plugin configuration default");
    assert!(default_value("- 3").unwrap_err().detail.starts_with("Plugin configuration default must be a JSON literal: "));
    assert_eq!(serde_field_name("own", &vec!["first".to_owned(), "last".to_owned()]), "last");
}

#[test]
fn configuration_schemas_follow_the_field_types() {
    let mut schema = ConfigSchema::new();
    for (name, source, default) in [("name", "String", None), ("retries", "u32", Some("3")), ("tags", "Option<Vec<String>>", Some("[\"local\", \"safe\"]"))] {
        let (field, optional) = configuration_type_schema(&ty(source)).unwrap();
        schema.enter(name.to_owned(), field, optional, default.map(|text| default_value(text).unwrap())).unwrap();
    }
    let plan = schema.finish("ExampleConfig");
    assert_eq!(
        plan.schema,
        "{\"$schema\":\"https://json-schema.org/draft/2020-12/schema\",\"type\":\"object\",\"additionalProperties\":false,\"required\":[\"name\",\"retries\"],\"properties\":{\"name\":{\"type\":\"string\"},\"retries\":{\"type\":\"integer\"},\"tags\":{\"type\":\"array\",\"items\":{\"type\":\"string\"}}}}"
    );
    assert_eq!(plan.defaults, "{\"retries\":3,\"tags\":[\"local\",\"safe\"]}");
    assert_eq!(plan.schema_macro, "__lenso_config_schema_example_config");
    assert_eq!(plan.defaults_macro, "__lenso_config_defaults_example_config");

    let refusal = |source: &str| configuration_type_schema(&ty(source)).unwrap_err().detail;
    assert_eq!(refusal("[u8; 4]"), "Plugin configuration fields must use portable named types");
    assert_eq!(refusal("Vec"), "configuration container requires one type");
    assert_eq!(refusal("Option<'a>"), "configuration container requires one type");
    assert_eq!(
        refusal("std::path::PathBuf"),
        "unsupported Plugin configuration field type; use String, bool, a number, Option<T>, or Vec<T>"
    );
    assert_eq!(configuration_type_schema(&ty("f64")).unwrap(), (json("{\"type\":\"number\"}"), false));
    assert_eq!(configuration_type_schema(&ty("bool")).unwrap(), (json("{\"type\":\"boolean\"}"), false));
}

#[test]
fn package_defaults_fail_closed_against_schema_constraints() {
    let schema = json(
        "{\"type\": \"object\", \"properties\": {\"retries\": {\"type\": \"integer\", \"minimum\": 1}, \"token\": {\"x-lenso-sensitive\": true}}, \"additionalProperties\": false}",
    );

    assert_eq!(
        validate_configuration_defaults(&json("{\"retries\": 0}"), &schema),
        Err("$.retries: default must be greater than or equal to 1".to_owned())
    );
    assert_eq!(
        validate_configuration_defaults(&json("{\"token\": {\"secret_ref\": \"TOKEN\"}}"), &schema),
        Err("$.token: sensitive configuration cannot have a package default".to_owned())
    );
}

#[test]
fn package_defaults_meet_every_kind_of_constraint() {
    let verdict = |defaults: &str, schema: &str| validate_configuration_defaults(&json(defaults), &json(schema)).err().unwrap_or_default();
    assert_eq!(verdict("[]", "{}"), "$: defaults must be an object");
    assert_eq!(verdict("{}", "[]"), "$: configuration Schema must be an object");
    assert_eq!(verdict("{}", "{\"type\":\"string\"}"), "$: default does not match Schema type `string`");
    assert_eq!(verdict("{\"a\":1.5}", "{\"properties\":{\"a\":{\"type\":\"integer\"}}}"), "$.a: default does not match Schema type `integer`");
    assert_eq!(verdict("{\"a\":1}", "{\"properties\":{\"a\":{\"minimum\":\"x\"}}}"), "$.a: Schema minimum must be a number");
    assert_eq!(verdict("{\"a\":-2.5}", "{\"properties\":{\"a\":{\"minimum\":-1.5}}}"), "$.a: default must be greater than or equal to -1.5");
    assert_eq!(verdict("{\"a\":-0.0}", "{\"properties\":{\"a\":{\"minimum\":0}}}"), "");
    assert_eq!(verdict("{\"a\":1}", "{\"properties\":{\"a\":{\"const\":2}}}"), "$.a: default does not match Schema const");
    assert_eq!(verdict("{\"a\":{\"x\":1,\"y\":2}}", "{\"properties\":{\"a\":{\"const\":{\"y\":2,\"x\":1}}}}"), "");
    assert_eq!(verdict("{\"a\":1}", "{\"properties\":{\"a\":{\"enum\":{}}}}"), "$.a: Schema enum must be an array");
    assert_eq!(verdict("{\"a\":1}", "{\"properties\":{\"a\":{\"enum\":[2,\"1\"]}}}"), "$.a: default is not in Schema enum");
    assert_eq!(verdict("{\"a\":1}", "{\"properties\":[]}"), "$: Schema properties must be an object");
    assert_eq!(verdict("{\"a\":1}", "{\"additionalProperties\":false}"), "$.a: additional property is not allowed");
    assert_eq!(verdict("{\"a\":1}", "{\"additionalProperties\":{\"type\":\"null\"}}"), "$.a: default does not match Schema type `null`");
    assert_eq!(
        verdict("{\"a\":[[true],[true,0]]}", "{\"properties\":{\"a\":{\"items\":{\"items\":{\"type\":\"boolean\"}}}}}"),
        "$.a[1][1]: default does not match Schema type `boolean`"
    );
    assert_eq!(verdict("{\"a\":1}", "{\"additionalProperties\":true}"), "");
}

#[test]
fn trees_are_equal_whatever_the_order_of_fields() {
    assert!(equal_json(&json("{\"a\":[1,{\"b\":null}],\"c\":-1}"), &json("{\"c\":-1,\"a\":[1,{\"b\":null}]}")));
    assert!(!equal_json(&json("1"), &json("1.0")));
    assert!(equal_json(&json("0.0"), &json("-0.0")));
    assert!(!equal_json(&json("0.1"), &json("0.2")));
    assert!(!equal_json(&json("[1,2]"), &json("[2,1]")));
}

#[test]
fn typed_ports_preserve_client_paths_and_cardinality() {
    let one = ty("Port<secrets::SecretsClient>");
    let many = ty("ManyPort<auth::AuthClient>");

    let (one_client, one_cardinality) = port_client(&one).unwrap().unwrap();
    let (many_client, many_cardinality) = port_client(&many).unwrap().unwrap();

    let tokens = |path: &PathShape| write_path(path).parse::<proc_macro2::TokenStream>().unwrap().to_string();
    assert_eq!(tokens(one_client), "secrets :: SecretsClient");
    assert!(matches!(one_cardinality, PortCardinality::One));
    assert_eq!(tokens(many_client), "auth :: AuthClient");
    assert!(matches!(many_cardinality, PortCardinality::Many));
    assert!(port_client(&ty("String")).unwrap().is_none());
    assert_eq!(port_client(&ty("Port")).unwrap_err().detail, "Port or ManyPort requires one Capability client type");
}

#[test]
fn named_dependency_fields_determine_cardinality_without_type_only_matching() {
    let plugin = item(
        "struct Consumer { #[dependency(id = \"source\")] source: store::StoreClient, #[dependency(id = \"fallback\")] fallback: Option<store::StoreClient>, #[dependency(id = \"replicas\")] replicas: Vec<BoundCapabilityClient<store::StoreClient>> }",
    );
    let fields = analyze_struct_fields(plugin.named, &plugin.fields).unwrap();

    assert_eq!(fields.construction_fields.len(), 3);
    let ids: Vec<(String, &str)> = fields
        .construction_fields
        .iter()
        .map(|kind| match kind {
            ConstructionFieldKind::Dependency { id, cardinality, .. } => (
                id.clone(),
                match cardinality {
                    DependencyCardinality::One => "one",
                    DependencyCardinality::Optional => "optional",
                    DependencyCardinality::Many => "many",
                },
            ),
            _ => panic!("expected dependency field"),
        })
        .collect();
    assert_eq!(
        ids,
        vec![("source".to_owned(), "one"), ("fallback".to_owned(), "optional"), ("replicas".to_owned(), "many")]
    );
    assert!(fields.initializers.iter().all(|initial| *initial == InitialValue::NeedsVersionTwo));
    assert!(matches!(v2_field_initializer(&fields.construction_fields[1]), FieldSource::Optional { id: "fallback", .. }));
    assert!(matches!(v2_input_initializer(&fields.construction_fields[2]), Some(FieldSource::Many { id: "replicas", .. })));
}

#[test]
fn managed_tasks_fields_are_initialized_and_connected_on_activate() {
    let plugin = item("struct Worker { #[tasks] tasks: ManagedTasks }");
    let fields = analyze_struct_fields(plugin.named, &plugin.fields).unwrap();
    assert_eq!(fields.tasks, vec!["tasks"]);
    assert_eq!(fields.initializers, vec![InitialValue::Default]);
    assert!(matches!(fields.construction_fields[0], ConstructionFieldKind::Legacy));
    assert!(v2_input_initializer(&fields.construction_fields[0]).is_none());
    assert!(matches!(v2_field_initializer(&fields.construction_fields[0]), FieldSource::Refused));
}

#[test]
fn fields_with_conflicting_or_wrong_markers_are_refused() {
    let refusal = |source: &str| {
        let plugin = item(source);
        let detail = analyze_struct_fields(plugin.named, &plugin.fields).unwrap_err().detail;
        detail
    };
    assert_eq!(refusal("struct P(String);"), "a struct-level Plugin requires named fields");
    assert_eq!(refusal("struct P { #[config] #[tasks] a: ManagedTasks }"), "a Plugin field can have only one construction marker");
    assert_eq!(refusal("struct P { #[config] a: A, #[config] b: B }"), "a Plugin has exactly one `#[config]` field");
    assert_eq!(refusal("struct P { #[tasks] a: Tasks }"), "a `#[tasks]` field must have type `ManagedTasks`");
    assert_eq!(refusal("struct P { #[tasks] a: ManagedTasks, #[tasks] b: ManagedTasks }"), "a Plugin has at most one `#[tasks]` field");
    assert_eq!(refusal("struct P { #[resources] a: Files }"), "a `#[resources]` field must have type `InstanceResources`");
    assert_eq!(
        refusal("struct P { #[resources] a: InstanceResources, #[resources] b: InstanceResources }"),
        "a Plugin has at most one `#[resources]` field"
    );
    assert_eq!(refusal("struct P { #[dependency(name = \"x\")] a: A }"), "expected `id = \"public_requirement_id\"`");
    assert_eq!(refusal("struct P { #[dependency()] a: A }"), "dependency id is required");
    assert_eq!(
        refusal("struct P { #[dependency(id = \"x\")] #[dependency(id = \"y\")] a: A }"),
        "duplicate `dependency` marker"
    );
    assert_eq!(refusal("struct P { #[dependency(id = \"x\")] a: [u8; 1] }"), "dependency type must be a generated client");
    assert_eq!(refusal("struct P { #[dependency(id = \"x\")] a: Option }"), "dependency wrapper requires one type");
    assert_eq!(refusal("struct P { #[dependency(id = \"x\")] a: Vec<(A, B)> }"), "many dependency must contain a generated client");
    assert_eq!(
        refusal("struct P { #[dependency(id = \"x\")] a: Vec<store::StoreClient> }"),
        "many dependency must be `Vec<BoundCapabilityClient<Client>>`"
    );
    let plain = item("struct P { a: String }");
    assert!(take_dependency(&plain.fields[0]).unwrap().is_none());
}

#[test]
fn multiple_capabilities_reject_trait_impls() {
    let implementation = block("impl fixture::Provider for ExamplePlugin {}");
    let error = expand_provides(&vec![path("fixture::One"), path("fixture::Two")], implementation.of_trait, &implementation.self_type).unwrap_err();
    assert!(error.detail.contains("multiple Capabilities require one inherent impl"));
}

#[test]
fn duplicate_capabilities_are_rejected() {
    let implementation = block("impl ExamplePlugin {}");
    let error = expand_provides(&vec![path("fixture::One"), path("fixture::One")], implementation.of_trait, &implementation.self_type).unwrap_err();
    assert!(error.detail.contains("same Capability more than once"));
}

#[test]
fn capability_paths_must_be_namespace_qualified() {
    let implementation = block("impl ExamplePlugin {}");
    let error = expand_provides(&vec![path("One")], implementation.of_trait, &implementation.self_type).unwrap_err();
    assert!(error.detail.contains("namespace-qualified"));
    assert_eq!(
        expand_provides(&Vec::new(), implementation.of_trait, &implementation.self_type).unwrap_err().detail,
        "`provides` requires at least one namespace-qualified Capability"
    );
    let tuple = block("impl (A, B) {}");
    assert_eq!(
        expand_provides(&vec![path("a::One")], tuple.of_trait, &tuple.self_type).unwrap_err().detail,
        "the Plugin provider type must be a path"
    );
}

#[test]
fn provided_capabilities_are_named_after_their_namespace() {
    let implementation = block("impl ExamplePlugin {}");
    let plan = expand_provides(&vec![path("::echo::AgentTool"), path("other::Two")], implementation.of_trait, &implementation.self_type).unwrap();
    assert!(plan.lowers_domain_methods);
    assert_eq!(plan.plugin, "ExamplePlugin");
    assert_eq!(plan.descriptor_macro, "__lenso_plugin_descriptor_example_plugin");
    assert_eq!(plan.module_name, "__lenso_provider_example_plugin");
    assert_eq!(plan.link_function, "__lenso_link_example_plugin");
    assert_eq!(plan.lifecycle, "__LensoLifecycleExamplePlugin");
    assert_eq!(plan.artifact, "__LENSO_PLUGIN_DESCRIPTOR_ARTIFACT_ExamplePlugin");
    let first = &plan.contributions[0];
    assert_eq!(first.namespace, "::echo");
    assert_eq!(first.descriptor, "__lenso_provided_agent_tool");
    assert_eq!(first.endpoints, "__lenso_native_endpoints_agent_tool");
    assert_eq!(first.lower, "__lenso_native_lower_agent_tool");
    assert_eq!(first.object_lower, "__lenso_native_lower_object_agent_tool");
    assert_eq!(first.trait_object_lower, "__lenso_native_lower_trait_object_agent_tool");
    assert_eq!((first.provider_wrapper, first.projection_module.as_str()), ("Provider", "projection_0"));
    assert_eq!(plan.contributions[1].projection_module, "projection_1");
}

#[test]
fn names_are_written_in_snake_case() {
    assert_eq!(snake("ExamplePlugin"), "example_plugin");
    assert_eq!(snake("HTTPClient"), "h_t_t_p_client");
    assert_eq!(snake("a_b"), "a_b");
    assert_eq!(snake("Äb"), "Äb");
}

#[test]
fn plugin_attributes_are_known_and_given_once() {
    let refusal = |entries: &[&str]| {
        PluginAttributes::parse(entries.iter().map(|name| AttributeEntry { name: name.to_string(), value: String::new() }).collect())
            .unwrap_err()
            .detail
    };
    assert_eq!(refusal(&["lifecycle", "lifecycle"]), "duplicate Plugin attribute");
    assert_eq!(refusal(&["validate", "validate"]), "duplicate Plugin attribute");
    assert_eq!(
        refusal(&["consumer", "name"]),
        "expected `descriptor`, `configuration_schema`, `configuration_defaults`, `validate`, `prepare`, `activate`, `deactivate`, `lifecycle`, or `consumer`"
    );
    let given = attributes(&[("validate", "self::check"), ("consumer", "")]);
    assert_eq!(given.validate.as_deref(), Some("self::check"));
    assert!(given.consumer && !given.lifecycle && given.prepare.is_none());
}

#[test]
fn only_functions_and_structs_declare_plugins() {
    assert!(check_authoring_item(ItemKind::Function).is_ok());
    assert!(check_authoring_item(ItemKind::Struct).is_ok());
    assert_eq!(
        check_authoring_item(ItemKind::Other).unwrap_err().detail,
        "a native Plugin must be declared by a factory function or a named-field struct"
    );
}

#[test]
fn factory_functions_embed_their_descriptor() {
    let given = attributes(&[("descriptor", "{}"), ("configuration_schema", "config.json")]);
    let plan = expand_plugin_function(&given, "factory", metadata(), Some("1.0.0"), Some(Ok(json("{}"))), None).unwrap();
    assert_eq!(plan.plugin_id, "lenso.native-adapter");
    assert_eq!(plan.module_name, "__lenso_plugin_factory");
    assert_eq!(plan.link_function, "__lenso_link_factory");
    let embedded = plan.descriptor.unwrap();
    assert_eq!(embedded.artifact, format!("LENSO_PLUGIN_DESCRIPTOR_V1\0{}\0END_LENSO_PLUGIN_DESCRIPTOR_V1", embedded.descriptor));
    assert_eq!(embedded.files, ["config.json"]);
    let plain = expand_plugin_function(&attributes(&[]), "factory", metadata(), None, None, None).unwrap();
    assert!(plain.descriptor.is_none());
    assert_eq!(
        expand_plugin_function(&attributes(&[("configuration_schema", "a")]), "f", metadata(), None, Some(Ok(json("{}"))), None).unwrap_err().detail,
        "`configuration_schema` and `configuration_defaults` require `descriptor` on a factory function"
    );
    assert_eq!(
        expand_plugin_function(&attributes(&[("lifecycle", "")]), "f", metadata(), None, None, None).unwrap_err().detail,
        "struct-level Plugin attributes are unavailable on factory functions"
    );
}

/// The Descriptor that generated code puts together from a plan.
fn descriptor(plan: &StructPlan, schema: &str, defaults: &str, provided: &[&str], required: &[String]) -> Json {
    let (prefix, after_schema, after_provided, after_required) = &plan.affixes;
    json(&format!(
        "{prefix}{schema},\"configuration_defaults\":{defaults}{after_schema}{}{after_provided}{}{after_required}",
        provided.join(","),
        required.join(",")
    ))
}

#[test]
fn explicit_package_schema_embeds_package_local_defaults() {
    let plugin = item("struct ManualDefaultsModule { #[config] config: ManualConfig }");
    let given = attributes(&[
        ("consumer", ""),
        ("configuration_schema", "tests/fixtures/manual-config.schema.json"),
        ("configuration_defaults", "tests/fixtures/manual-config.defaults.json"),
    ]);
    let schema = read_configuration_schema("schema", SCHEMA.as_bytes());
    let defaults = read_configuration_defaults("defaults", b"{\"retries\": 3}");
    let (schema, defaults) = (Some(schema), Some(defaults));
    let plan = expand_plugin_struct(&given, &plugin, metadata(), Some("0.1.0"), &schema, &defaults).unwrap();
    let (schema_text, defaults_text) = match (&plan.schema, &plan.defaults) {
        (DocumentSource::Text(schema), DocumentSource::Text(defaults)) => (schema, defaults),
        other => panic!("{other:?}"),
    };
    let descriptor = descriptor(&plan, schema_text, defaults_text, &[], &[]);
    assert_eq!(*at(&descriptor, &["configuration_defaults"]), json("{\"retries\": 3}"));
    assert_eq!(*at(&descriptor, &["configuration_schema", "type"]), text("object"));
    assert_eq!(plan.files.len(), 2);
    let consumer = plan.consumer.unwrap();
    assert_eq!(consumer.module_name, "__lenso_consumer_manual_defaults_module");
    assert_eq!(consumer.link_function, "__lenso_link_manual_defaults_module");
    assert_eq!(consumer.artifact, "__LENSO_PLUGIN_DESCRIPTOR_ARTIFACT_ManualDefaultsModule");
}

#[test]
fn same_client_type_can_fill_three_named_dependency_roles() {
    let plugin = item(
        "struct NamedDependencies { #[dependency(id = \"source\")] source: store::StoreClient, #[dependency(id = \"cache\")] cache: Option<store::StoreClient>, #[dependency(id = \"replicas\")] replicas: Vec<BoundCapabilityClient<store::StoreClient>> }",
    );
    let plan = expand_plugin_struct(&attributes(&[("consumer", "")]), &plugin, metadata(), Some("0.1.0"), &None, &None).unwrap();
    let required: Vec<String> = plan
        .requirements
        .iter()
        .map(|requirement| {
            assert_eq!(requirement.namespace, "store");
            let cardinality = match requirement.name.as_str() {
                "__lenso_required_store_client" => "one",
                "__lenso_required_optional_store_client" => "optional",
                "__lenso_required_many_store_client" => "many",
                other => panic!("{other}"),
            };
            format!(
                "{{\"requirement_id\":\"{}\",\"capability_id\":\"example.store@1\",\"descriptor_version\":\"1.0.0\",\"cardinality\":\"{cardinality}\"}}",
                requirement.id.as_ref().unwrap()
            )
        })
        .collect();
    let (schema, defaults) = match (&plan.schema, &plan.defaults) {
        (DocumentSource::Text(schema), DocumentSource::Text(defaults)) => (schema.clone(), defaults.clone()),
        other => panic!("{other:?}"),
    };
    let descriptor = descriptor(&plan, &schema, &defaults, &[], &required);
    assert_eq!(*at(&descriptor, &["authoring_version"]), Json::Unsigned(2));
    assert_eq!(*at(&descriptor, &["runtime_profile"]), text("lenso.native-authoring@2"));
    assert_eq!(
        *at(&descriptor, &["required_capabilities"]),
        json(
            "[{\"requirement_id\":\"source\",\"capability_id\":\"example.store@1\",\"descriptor_version\":\"1.0.0\",\"cardinality\":\"one\"},{\"requirement_id\":\"cache\",\"capability_id\":\"example.store@1\",\"descriptor_version\":\"1.0.0\",\"cardinality\":\"optional\"},{\"requirement_id\":\"replicas\",\"capability_id\":\"example.store@1\",\"descriptor_version\":\"1.0.0\",\"cardinality\":\"many\"}]"
        )
    );
    assert!(matches!(plan.prepare, HookPlan::Ready));
}

#[test]
fn struct_plugin_derives_descriptor_factory_and_host_catalog() {
    let plugin = item("struct ExamplePlugin { #[config] config: ExampleConfig, #[resources] resources: InstanceResources, echoes: ManyPort<echo::EchoClient> }");
    let given = attributes(&[("validate", "validate"), ("lifecycle", "")]);
    let plan = expand_plugin_struct(&given, &plugin, metadata(), Some("0.1.0"), &None, &None).unwrap();
    assert!(matches!(&plan.schema, DocumentSource::Macro { namespace: None, name } if name == "__lenso_config_schema_example_config"));
    assert!(matches!(&plan.defaults, DocumentSource::Macro { namespace: None, name } if name == "__lenso_config_defaults_example_config"));
    let mut config = ConfigSchema::new();
    for (name, source, default) in [("name", "String", None), ("retries", "u32", Some("3")), ("tags", "Option<Vec<String>>", Some("[\"local\", \"safe\"]"))] {
        let (field, optional) = configuration_type_schema(&ty(source)).unwrap();
        config.enter(name.to_owned(), field, optional, default.map(|text| default_value(text).unwrap())).unwrap();
    }
    let config = config.finish("ExampleConfig");
    assert_eq!(plan.requirements.len(), 1);
    assert_eq!(plan.requirements[0].name, "__lenso_required_many_echo_client");
    let required = "{\"capability_id\":\"example.echo@1\",\"descriptor_version\":\"1.0.0\",\"cardinality\":\"many\"}".to_owned();
    let descriptor = descriptor(&plan, &config.schema, &config.defaults, &["{\"capability_id\":\"example.echo@1\"}"], &[required]);
    assert_eq!(*at(&descriptor, &["plugin_id"]), text("lenso.native-adapter"));
    assert_eq!(*at(&descriptor, &["root_slot"]), text("test"));
    assert_eq!(*at(&descriptor, &["authoring_version"]), Json::Unsigned(1));
    assert_eq!(*at(&descriptor, &["runtime_profile"]), text("lenso.native-authoring@1"));
    assert_eq!(*at(&descriptor, &["provided_capabilities"]), json("[{\"capability_id\":\"example.echo@1\"}]"));
    assert_eq!(
        *at(&descriptor, &["required_capabilities"]),
        json("[{\"capability_id\":\"example.echo@1\",\"descriptor_version\":\"1.0.0\",\"cardinality\":\"many\"}]")
    );
    assert_eq!(*at(&descriptor, &["configuration_schema", "type"]), text("object"));
    assert_eq!(*at(&descriptor, &["configuration_schema", "required"]), json("[\"name\", \"retries\"]"));
    assert_eq!(*at(&descriptor, &["configuration_schema", "properties", "tags", "items", "type"]), text("string"));
    assert_eq!(*at(&descriptor, &["configuration_defaults"]), json("{\"retries\": 3, \"tags\": [\"local\", \"safe\"]}"));
    assert!(matches!(plan.activate, HookPlan::LifecycleTrait));
    assert_eq!(plan.inputs_name, "__LensoInputsExamplePlugin");
    assert_eq!(plan.construction_module, "__lenso_construction_example_plugin");
}

#[test]
fn struct_attributes_must_go_together() {
    let refusal = |source: &str, entries: &[(&str, &str)]| {
        let plugin = item(source);
        let given = attributes(entries);
        let schema = given.configuration_schema.as_ref().map(|_| Ok(json("{}")));
        let defaults = given.configuration_defaults.as_ref().map(|_| Ok(json("{}")));
        let detail = expand_plugin_struct(&given, &plugin, metadata(), Some("1"), &schema, &defaults).unwrap_err().detail;
        detail
    };
    assert_eq!(refusal("struct P {}", &[("descriptor", "{}")]), "struct-level Plugins derive their Descriptor; remove `descriptor`");
    assert_eq!(refusal("struct P {}", &[("configuration_schema", "a")]), "`configuration_schema` requires a `#[config]` field");
    assert_eq!(refusal("struct P {}", &[("validate", "v")]), "`validate` requires a `#[config]` field");
    assert_eq!(
        refusal("struct P { #[config] c: C }", &[("configuration_defaults", "a")]),
        "`configuration_defaults` requires an explicit `configuration_schema`"
    );
    assert_eq!(
        refusal("struct P {}", &[("lifecycle", ""), ("prepare", "p")]),
        "`lifecycle` replaces the `prepare`, `activate`, and `deactivate` function attributes"
    );
    assert_eq!(refusal("struct P { #[config] c: (A, B) }", &[]), "the `#[config]` field type must be a path");
    assert_eq!(
        refusal("struct P { a: Port<Client> }", &[]),
        "a Capability client must be namespace-qualified, for example `model::ModelClient`"
    );
    assert_eq!(
        refusal("struct P { #[dependency(id = \"x\")] a: Option<(A, B)> }", &[]),
        "dependency client must be a namespace-qualified generated client"
    );
    let plugin = item("struct P {}");
    let none = attributes(&[]);
    assert_eq!(
        expand_plugin_struct(&none, &plugin, metadata(), None, &None, &None).unwrap_err().detail,
        "CARGO_PKG_VERSION is unavailable while deriving Plugin Descriptor"
    );
}

#[test]
fn package_metadata_names_the_plugin_and_its_slot() {
    let manifest = "[package]\nname = \"x\"\n[package.metadata.lenso]\nplugin-id = \"example.tool\"\nroot-slot = \"tools\"\n";
    assert_eq!(plugin_metadata("Cargo.toml", manifest).unwrap(), ("example.tool".to_owned(), "tools".to_owned()));
    let refusal = |manifest: &str| plugin_metadata("Cargo.toml", manifest).unwrap_err().detail;
    assert!(refusal("[package").starts_with("failed to parse Cargo.toml: "));
    assert_eq!(refusal("[package]\n"), "missing `[package.metadata.lenso]` in Cargo.toml");
    assert_eq!(refusal("[package.metadata]\nlenso = 1979-05-27\n"), "missing `[package.metadata.lenso]` in Cargo.toml");
    assert_eq!(
        refusal("[package.metadata.lenso]\nplugin-id = 3\nroot-slot = \"tools\"\n"),
        "missing `plugin-id = \"...\"` in `[package.metadata.lenso]`"
    );
    assert_eq!(
        refusal("[package.metadata.lenso]\nplugin-id = \"example.tool\"\n"),
        "missing `root-slot = \"...\"` in `[package.metadata.lenso]`"
    );
}

#[test]
fn plugin_impl_constructs_a_non_default_non_clone_complete_object() {
    let implementation = block(
        "impl MacroConstructedPlugin { #[create] async fn create(config: MacroConfig, #[lifecycle] lifecycle: LifecycleContext) -> Result<Self, &'static str> { todo!() } #[stop] fn stop(&self, #[lifecycle] lifecycle: LifecycleContext) -> Result<(), &'static str> { Ok(()) } }",
    );
    let plan = expand_plugin_impl(&implementation).unwrap().unwrap();
    assert_eq!(plan.inputs_name, "__LensoInputsMacroConstructedPlugin");
    assert_eq!(plan.module_name, "__lenso_custom_construction_macro_constructed_plugin");
    let create = plan.create.unwrap();
    assert_eq!((create.method.as_str(), create.awaits, create.fallible), ("create", true, true));
    assert_eq!(create.names, ["config"]);
    assert_eq!(create.arguments, [CallArgument::Input("config".to_owned()), CallArgument::Lifecycle]);
    let stop = plan.stop.unwrap();
    assert_eq!((stop.method.as_str(), stop.takes_lifecycle, stop.awaits, stop.fallible), ("stop", true, false, true));
}

#[test]
fn plugin_impl_accepts_sync_create_and_async_stop() {
    let implementation = block(
        "impl Plugin { #[create] fn create() -> Self { todo!() } #[stop] async fn stop(&self, #[lifecycle] lifecycle: LifecycleContext) {} fn other(self) {} }",
    );
    let plan = expand_plugin_impl(&implementation).unwrap().unwrap();
    let create = plan.create.unwrap();
    assert!(!create.awaits && !create.fallible && create.names.is_empty() && create.arguments.is_empty());
    let stop = plan.stop.unwrap();
    assert!(stop.awaits && !stop.fallible && stop.takes_lifecycle);
    assert!(expand_plugin_impl(&block("impl Plugin { fn other(&self) {} }")).unwrap().is_none());
}

#[test]
fn constructors_and_stop_hooks_of_other_shapes_are_refused() {
    let refusal = |source: &str| expand_plugin_impl(&block(source)).unwrap_err().detail;
    assert_eq!(refusal("impl Drop for Plugin {}"), "#[plugin_impl] requires a non-generic inherent impl");
    assert_eq!(refusal("impl<T> Plugin<T> {}"), "#[plugin_impl] requires a non-generic inherent impl");
    assert_eq!(refusal("impl (A, B) {}"), "Plugin implementation type must be a path");
    assert_eq!(refusal("impl P { #[create] #[stop] fn a() {} }"), "one method cannot be both create and stop");
    assert_eq!(refusal("impl P { #[create] fn a() {} #[create] fn b() {} }"), "duplicate #[create] method");
    assert_eq!(refusal("impl P { #[stop] fn a(&self) {} #[stop] fn b(&self) {} }"), "duplicate #[stop] method");
    assert_eq!(refusal("impl P { #[create] fn a(&self) {} }"), "#[create] is an associated function without a receiver");
    assert_eq!(refusal("impl P { #[create] fn a((x, y): (A, B)) {} }"), "#[create] inputs must be plain identifiers");
    assert_eq!(refusal("impl P { #[create] fn a(#[lifecycle] x: Other) {} }"), "#[lifecycle] input must have type LifecycleContext");
    assert_eq!(refusal("impl P { #[stop] fn a(x: u8) {} }"), "#[stop] requires an &self receiver");
    assert_eq!(refusal("impl P { #[stop] fn a(&mut self) {} }"), "#[stop] requires &self");
    assert_eq!(refusal("impl P { #[stop] fn a(self) {} }"), "#[stop] requires &self");
    assert_eq!(refusal("impl P { #[stop] fn a(&self, x: u8) {} }"), "#[stop] accepts only an optional #[lifecycle] LifecycleContext");
    assert_eq!(
        refusal("impl P { #[stop] fn a(&self, #[lifecycle] x: LifecycleContext, #[lifecycle] y: LifecycleContext) {} }"),
        "#[stop] accepts at most one lifecycle input"
    );
    let plain = block("impl P { fn a(&self) -> Result<(), E> { Ok(()) } }");
    assert!(expand_create_call(&plain.methods[0]).is_err());
    assert!(expand_stop_call(&plain.methods[0]).unwrap().fallible);
}

#[test]
fn only_flags_stand_without_a_value() {
    for name in ["descriptor", "configuration_schema", "configuration_defaults", "validate", "prepare", "activate", "deactivate", "other"] {
        assert!(PluginAttributes::takes_value(name), "{name}");
    }
    assert!(!PluginAttributes::takes_value("lifecycle"));
    assert!(!PluginAttributes::takes_value("consumer"));
}
