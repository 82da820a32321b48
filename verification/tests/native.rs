use std::cell::RefCell;
use std::rc::Rc;

use lenso_runtime::failure::RuntimeFailure;
use lenso_runtime::native::{
    check_linked_descriptors, check_no_configuration, check_plan, factory_identity, link_native_plugin, linked_factories, note_instance, prepare_bindings, select_constructor, supports_runtime_profile,
    wrong_type, CompleteObjectLifecycle, ConstructionCandidate, EndpointFacts, FactoryFacts, InstanceEndpoints, LinkedNativePluginFactory,
    ManagedTasks, NativePluginRegistry, PluginObject, NATIVE_RUST_CLASS,
};
use lenso_runtime::plan::{AppPlan, PlanBinding, PlanCapability, PlanInstance};
use lenso_runtime::text_map::TextMap;

fn instance(key: &str, package: &str) -> PlanInstance {
    PlanInstance {
        instance_key: key.to_owned(),
        package_id: package.to_owned(),
        package_revision: String::new(),
        entrypoint: "default".to_owned(),
        configuration: "{}".to_owned(),
        execution_class: NATIVE_RUST_CLASS.to_owned(),
        runtime_profile: "lenso.native-authoring@1".to_owned(),
        provided_capabilities: Vec::new(),
    }
}

fn plan(instances: Vec<PlanInstance>) -> AppPlan {
    AppPlan { instances, bindings: Vec::new(), bytes: Vec::new() }
}

fn factory(package: &str, version: &str) -> FactoryFacts {
    FactoryFacts {
        package_id: package.to_owned(),
        package_version: version.to_owned(),
        runtime_profile: "lenso.native-authoring@1".to_owned(),
        identity: factory_identity(package, version),
    }
}

/// Instantiates every native Instance of a Plan and records what each factory receives.
fn start(registry: &NativePluginRegistry, plan: &AppPlan) -> Result<Vec<(String, String, String)>, RuntimeFailure> {
    let mut observed = Vec::new();
    let mut noted = TextMap::new();
    let mut from = 0;
    while let Some(next) = registry.next_instantiation(plan, from)? {
        let instance = &plan.instances[next.instance];
        assert_eq!(registry.factories[next.factory].package_id, instance.package_id);
        observed.push((instance.instance_key.clone(), instance.entrypoint.clone(), instance.configuration.clone()));
        let endpoints = InstanceEndpoints { request: Vec::new(), stream: Vec::new(), event: Vec::new() };
        note_instance(&mut noted, &instance.instance_key, endpoints)?;
        from = next.instance + 1;
    }
    Ok(observed)
}

#[test]
fn native_factory_version_must_match_the_authoring_resolved_version() {
    let mut configured = instance("configured", "test.configured");
    configured.package_revision = "2.0.0".to_owned();
    let registry = NativePluginRegistry::new().with_factory(factory("test.configured", "1.0.0"));
    let error = start(&registry, &plan(vec![configured])).unwrap_err();
    assert!(matches!(error, RuntimeFailure::MissingPluginFactory { .. }));
    assert_eq!(
        error,
        RuntimeFailure::MissingPluginFactory { instance: "configured".to_owned(), package_id: "test.configured".to_owned() }
    );
}

#[test]
fn native_factory_authoring_profile_is_not_the_plan_execution_profile() {
    let mut configured = instance("configured", "test.configured");
    configured.package_revision = "1.0.0".to_owned();
    configured.runtime_profile = "lenso.native-rust@1".to_owned();
    let registry = NativePluginRegistry::new().with_factory(factory("test.configured", "1.0.0"));
    assert_eq!(start(&registry, &plan(vec![configured])).unwrap().len(), 1);
}

#[test]
fn native_factory_identity_matches_a_plugin_resolved_revision() {
    let mut configured = instance("configured", "test.configured");
    configured.package_revision = "test.configured@host-build-a".to_owned();
    let mut facts = factory("test.configured", "1.0.0");
    facts.identity = "test.configured@host-build-a".to_owned();
    let registry = NativePluginRegistry::new().with_factory(facts);
    assert_eq!(
        start(&registry, &plan(vec![configured])).unwrap(),
        vec![("configured".to_owned(), "default".to_owned(), "{}".to_owned())]
    );
}

#[test]
fn legacy_native_rust_profile_selects_a_v1_authoring_factory() {
    let mut configured = instance("configured", "test.configured");
    configured.runtime_profile = "lenso.native-rust@1".to_owned();
    configured.package_revision = "1.0.0".to_owned();
    let registry = NativePluginRegistry::new().with_factory(factory("test.configured", "1.0.0"));
    assert!(supports_runtime_profile(1, &configured.runtime_profile));
    assert_eq!(
        start(&registry, &plan(vec![configured])).unwrap(),
        vec![("configured".to_owned(), "default".to_owned(), "{}".to_owned())]
    );
}

#[test]
fn an_authoring_profile_of_another_version_selects_no_factory() {
    let mut configured = instance("configured", "test.configured");
    configured.runtime_profile = "lenso.native-authoring@2".to_owned();
    let registry = NativePluginRegistry::new().with_factory(factory("test.configured", "1.0.0"));
    assert!(start(&registry, &plan(vec![configured])).is_err());
    assert!(supports_runtime_profile(2, "lenso.native-authoring@2"));
    assert!(!supports_runtime_profile(2, "lenso.native-rust@1"));
    assert!(!supports_runtime_profile(1, "lenso.native-authoring@2"));
}

#[test]
fn native_factory_receives_the_exact_immutable_instance_input() {
    let mut configured = instance("configured", "test.configured");
    configured.entrypoint = "native.main".to_owned();
    configured.configuration = "{\"mode\":\"test\"}".to_owned();
    let plan = plan(vec![configured]);
    let registry = NativePluginRegistry::new().with_factory(factory("test.configured", "1.0.0"));
    let mut observed = start(&registry, &plan).unwrap();
    let again = registry.recreate(&plan, "configured").unwrap();
    let instance = &plan.instances[again.instance];
    observed.push((instance.instance_key.clone(), instance.entrypoint.clone(), instance.configuration.clone()));
    let expected = ("configured".to_owned(), "native.main".to_owned(), "{\"mode\":\"test\"}".to_owned());
    assert_eq!(observed, vec![expected.clone(), expected]);
}

#[test]
fn two_factories_for_one_package_are_refused() {
    let registry = NativePluginRegistry::new().with_factory(factory("test.configured", "1.0.0")).with_factory(factory("test.configured", "2.0.0"));
    assert_eq!(
        start(&registry, &plan(vec![instance("configured", "test.configured")])).unwrap_err(),
        RuntimeFailure::InvalidResolvedPlan { detail: "multiple statically linked factories declare package `test.configured`".to_owned() }
    );
}

#[test]
fn an_instance_key_is_prepared_once() {
    let registry = NativePluginRegistry::new().with_factory(factory("test.configured", ""));
    let twice = plan(vec![instance("configured", "test.configured"), instance("configured", "test.configured")]);
    assert_eq!(
        start(&registry, &twice).unwrap_err(),
        RuntimeFailure::InvalidResolvedPlan { detail: "duplicate Plugin Instance `configured`".to_owned() }
    );
    assert_eq!(
        registry.recreate(&twice, "other").unwrap_err(),
        RuntimeFailure::InvalidResolvedPlan { detail: "unknown Plugin Instance `other`".to_owned() }
    );
}

#[test]
fn instances_of_other_classes_are_left_to_their_adapters() {
    let mut process = instance("process", "test.process");
    process.execution_class = "lenso.process@1".to_owned();
    let registry = NativePluginRegistry::new().with_factory(factory("test.native", "1.0.0"));
    let observed = start(&registry, &plan(vec![process, instance("native", "test.native")])).unwrap();
    assert_eq!(observed, vec![("native".to_owned(), "default".to_owned(), "{}".to_owned())]);
}

#[test]
fn a_factory_without_a_version_is_identified_by_its_package() {
    assert_eq!(factory_identity("example.tool", ""), "example.tool");
    assert_eq!(factory_identity("example.tool", "1.2.3"), "example.tool@1.2.3");
}

#[test]
fn linked_factories_are_kept_once_and_by_identity() {
    let linked = |descriptor: &str, constructor: usize| LinkedNativePluginFactory { descriptor: descriptor.to_owned(), constructor };
    let mut explicit = Vec::new();
    link_native_plugin(&mut explicit, linked("a", 1));
    link_native_plugin(&mut explicit, linked("a", 1));
    link_native_plugin(&mut explicit, linked("b", 1));
    assert_eq!(explicit.len(), 2);
    let all = linked_factories(vec![linked("b", 1), linked("c", 3)], explicit);
    let facts: Vec<(&str, usize)> = all.iter().map(|factory| (factory.descriptor.as_str(), factory.constructor)).collect();
    assert_eq!(facts, [("b", 1), ("c", 3), ("a", 1)]);

    let registry = NativePluginRegistry::new()
        .with_factory(factory("z", "1"))
        .with_linked_factories(vec![factory("a", "2"), factory("z", "1"), factory("a", "1")]);
    let identities: Vec<&str> = registry.factories.iter().map(|factory| factory.identity.as_str()).collect();
    assert_eq!(identities, ["a@1", "a@2", "z@1"]);
}

#[derive(Debug)]
struct NonClonePlugin {
    configuration: String,
}

/// Runs a construction as the Adapter does.
fn construct(
    lifecycle: &mut CompleteObjectLifecycle<NonClonePlugin>,
    cancelled_before: bool,
    constructor: impl FnOnce() -> (Result<Rc<NonClonePlugin>, RuntimeFailure>, bool),
) -> Result<(), RuntimeFailure> {
    lifecycle.begin_construct()?;
    CompleteObjectLifecycle::<NonClonePlugin>::check_cancelled(cancelled_before)?;
    let (constructed, cancelled) = constructor();
    lifecycle.finish_construct(constructed, cancelled)
}

#[test]
fn complete_object_profile_constructs_once_without_clone_and_stops_once() {
    let constructed = RefCell::new(0);
    let mut lifecycle = CompleteObjectLifecycle::new(PluginObject::empty()).with_stop();
    construct(&mut lifecycle, false, || {
        *constructed.borrow_mut() += 1;
        (Ok(Rc::new(NonClonePlugin { configuration: "{\"mode\":\"v2\"}".to_owned() })), false)
    })
    .unwrap();
    let first = lifecycle.object.get().unwrap();
    let second = lifecycle.object.get().unwrap();
    assert!(Rc::ptr_eq(&first, &second));
    assert_eq!(first.configuration, "{\"mode\":\"v2\"}");
    assert_eq!(*constructed.borrow(), 1);

    assert_eq!(
        lifecycle.begin_construct().unwrap_err(),
        RuntimeFailure::InvalidResolvedPlan { detail: "Plugin construction was attempted more than once".to_owned() }
    );
    let stopped = lifecycle.deactivate().unwrap();
    assert!(Rc::ptr_eq(&first, &stopped));
    assert!(lifecycle.deactivate().is_none());
}

#[test]
fn failed_construction_does_not_stop_an_object_that_never_existed() {
    let mut lifecycle = CompleteObjectLifecycle::new(PluginObject::<NonClonePlugin>::empty()).with_stop();
    let error = construct(&mut lifecycle, false, || {
        (Err(RuntimeFailure::PluginFailure { detail: "constructor failed".to_owned() }), false)
    })
    .unwrap_err();
    assert!(matches!(error, RuntimeFailure::PluginFailure { .. }));
    assert!(lifecycle.object.get().is_err());
    assert!(lifecycle.deactivate().is_none());
}

#[test]
fn late_constructor_success_after_cancellation_is_owned_and_stopped_once() {
    let mut lifecycle = CompleteObjectLifecycle::new(PluginObject::empty()).with_stop();
    let error = construct(&mut lifecycle, false, || {
        (Ok(Rc::new(NonClonePlugin { configuration: "{\"mode\":\"exit\"}".to_owned() })), true)
    })
    .unwrap_err();
    assert_eq!(error, RuntimeFailure::AdmissionClosed);
    assert_eq!(lifecycle.object.get().unwrap().configuration, "{\"mode\":\"exit\"}");
    assert!(lifecycle.deactivate().is_some());
    assert!(lifecycle.deactivate().is_none());
}

#[test]
fn a_cancelled_construction_never_calls_its_constructor() {
    let mut lifecycle = CompleteObjectLifecycle::new(PluginObject::<NonClonePlugin>::empty());
    let error = construct(&mut lifecycle, true, || panic!("constructed")).unwrap_err();
    assert_eq!(error, RuntimeFailure::AdmissionClosed);
}

#[test]
fn an_object_without_a_stop_hook_is_not_handed_out() {
    let mut lifecycle = CompleteObjectLifecycle::new(PluginObject::from_value(Rc::new(3)));
    assert_eq!(*lifecycle.object.get().unwrap(), 3);
    assert!(lifecycle.object.install(Rc::new(4)).is_err());
    assert_eq!(*lifecycle.object.get().unwrap(), 3);
    assert!(lifecycle.deactivate().is_none());
}

#[test]
fn one_custom_constructor_wins_over_defaults() {
    let candidate = |constructs: bool, custom: bool| ConstructionCandidate { constructs, custom };
    let other = candidate(false, true);
    assert_eq!(select_constructor(&vec![candidate(true, false), other, candidate(true, true)]).unwrap(), 2);
    assert_eq!(select_constructor(&vec![other, candidate(true, false)]).unwrap(), 1);
    let detail = |found: Result<usize, RuntimeFailure>| match found.unwrap_err() {
        RuntimeFailure::InvalidResolvedPlan { detail } => detail,
        other => panic!("{other:?}"),
    };
    assert_eq!(detail(select_constructor(&vec![other])), "Plugin type has no linked constructor");
    assert_eq!(
        detail(select_constructor(&vec![candidate(true, true), candidate(true, true)])),
        "Plugin type has multiple custom constructors"
    );
    assert_eq!(
        detail(select_constructor(&vec![candidate(true, false), candidate(true, false)])),
        "Plugin type has multiple default constructors"
    );
    assert_eq!(
        wrong_type(),
        RuntimeFailure::InvalidResolvedPlan { detail: "linked Plugin constructor returned the wrong type".to_owned() }
    );
}

#[test]
fn a_task_field_is_connected_once() {
    let mut tasks = ManagedTasks { scope: None };
    assert!(!tasks.is_active());
    tasks.connect("scope").unwrap();
    assert!(tasks.is_active());
    assert_eq!(tasks.active(), Some(&"scope"));
    assert_eq!(
        tasks.connect("other").unwrap_err(),
        RuntimeFailure::PluginFailure { detail: "managed task field was connected more than once".to_owned() }
    );
    assert_eq!(tasks.disconnect(), Some("scope"));
    assert!(!tasks.is_active());
}

fn capability(requests: &[&str], streams: &[&str], events: &[&str]) -> PlanCapability {
    let owned = |items: &[&str]| items.iter().map(|item| item.to_string()).collect();
    PlanCapability {
        capability_id: "example.echo@1".to_owned(),
        descriptor_version: "1.0.0".to_owned(),
        request_operations: owned(requests),
        stream_operations: owned(streams),
        event_operations: owned(events),
    }
}

fn endpoint() -> EndpointFacts {
    EndpointFacts { capability_id: "example.echo@1".to_owned(), descriptor_version: "1.0.0".to_owned() }
}

fn bound(capability: PlanCapability) -> AppPlan {
    let mut provider = instance("provider", "test.provider");
    provider.provided_capabilities = vec![capability];
    AppPlan {
        instances: vec![instance("consumer", "test.consumer"), provider],
        bindings: vec![
            PlanBinding {
                consumer_instance: "consumer".to_owned(),
                provider_instance: "provider".to_owned(),
                capability_id: "example.echo@1".to_owned(),
                descriptor_version: "1.0.0".to_owned(),
                requirement_id: "echo".to_owned(),
            },
        ],
        bytes: Vec::new(),
    }
}

#[test]
fn bindings_find_the_endpoints_of_their_provider() {
    let plan = bound(capability(&["echo"], &[], &["changed"]));
    let mut instances = TextMap::new();
    let other = EndpointFacts { capability_id: "example.other@1".to_owned(), descriptor_version: "1.0.0".to_owned() };
    instances.insert(
        "provider".to_owned(),
        InstanceEndpoints { request: vec![other, endpoint()], stream: vec![endpoint()], event: vec![endpoint()] },
    );
    let prepared = prepare_bindings(&plan, &instances).unwrap();
    assert_eq!(prepared.request.len(), 1);
    assert_eq!(prepared.request[0].endpoint, 1);
    assert_eq!(prepared.request[0].consumer_instance, "consumer");
    assert_eq!(prepared.request[0].requirement_id, "echo");
    assert!(prepared.stream.is_empty());
    assert_eq!(prepared.event[0].endpoint, 0);
}

#[test]
fn a_missing_endpoint_fails_the_preparation() {
    let plan = bound(capability(&["echo"], &["chat"], &[]));
    let mut instances = TextMap::new();
    instances.insert("provider".to_owned(), InstanceEndpoints { request: vec![endpoint()], stream: Vec::new(), event: Vec::new() });
    assert_eq!(
        prepare_bindings(&plan, &instances).unwrap_err(),
        RuntimeFailure::InvalidResolvedPlan {
            detail: "Capability `example.echo@1` version `1.0.0` has no stream endpoint on provider `provider`".to_owned()
        }
    );
    let absent = TextMap::new();
    let prepared = prepare_bindings(&plan, &absent).unwrap();
    assert!(prepared.request.is_empty() && prepared.stream.is_empty() && prepared.event.is_empty());
}

#[test]
fn a_plan_is_checked_before_it_is_prepared() {
    let bytes = |plan: &lenso_app_plan::ResolvedAppPlan| serde_json::to_vec(plan).unwrap();
    let valid = lenso_app_plan::ResolvedAppPlan::empty();
    let plan = |bytes: Vec<u8>| AppPlan { instances: Vec::new(), bindings: Vec::new(), bytes };
    assert!(check_plan(&plan(bytes(&valid))).is_ok());
    let twice = lenso_app_plan::ResolvedAppPlan::new(
        vec![lenso_app_plan::PluginInstancePlan::new("a", "p"), lenso_app_plan::PluginInstancePlan::new("a", "p")],
        Vec::new(),
    );
    match check_plan(&plan(bytes(&twice))).unwrap_err() {
        RuntimeFailure::InvalidResolvedPlan { detail } => assert_eq!(detail, twice.validate().unwrap_err().to_string()),
        other => panic!("{other:?}"),
    }
}

#[test]
fn a_plugin_without_configuration_takes_the_empty_object_only() {
    assert!(check_no_configuration("example.tool", " {} ").is_ok());
    for configuration in ["{\"a\":1}", "[]", "null"] {
        assert_eq!(
            check_no_configuration("example.tool", configuration).unwrap_err(),
            RuntimeFailure::InvalidResolvedPlan { detail: "example.tool does not accept configuration".to_owned() }
        );
    }
    match check_no_configuration("example.tool", "{").unwrap_err() {
        RuntimeFailure::InvalidResolvedPlan { detail } => assert!(detail.starts_with("invalid example.tool configuration: ")),
        other => panic!("{other:?}"),
    }
}

#[test]
fn the_first_linked_descriptor_that_cannot_be_read_refuses_the_catalog() {
    let descriptor = lenso_app_plan::authoring::PluginDescriptor::new("company.plugin", "1.0.0", "company.slot");
    let good = serde_json::to_string(&descriptor).unwrap();
    assert!(check_linked_descriptors(&vec![good.clone()]).is_ok());
    let refused = check_linked_descriptors(&vec![good, "{}".to_owned(), "[".to_owned()]).unwrap_err();
    let RuntimeFailure::InvalidResolvedPlan { detail } = refused else { panic!("another failure") };
    assert!(detail.starts_with("invalid linked Plugin Descriptor: missing field"), "{detail}");
}
