//! Laws of the native Adapter: how one object lives, which constructor and which factory are used, and
//! which endpoint a binding is given.
use std::rc::Rc;

use vstd::prelude::*;

use crate::failure::{FailureView, RuntimeFailure};
use crate::json::JsonView;
use crate::native::{
    bound_capability, chosen_factory, configuration_fault, construction_begun, construction_settled, constructors, deactivated, default_identity,
    endpoint_for, fitting_factories, instantiation_found, is_catalog, linked, named, next_native, prepared, provided, recreated,
    selected_constructor, supported_profile, unique_links, CompleteObjectLifecycle, ConstructionCandidate, EndpointFacts, FactoryFacts,
    InstanceEndpoints, Instantiation,
};
use crate::plan::{a_position_is_the_first_with_its_key, instance_position, AppPlan, PlanBinding, PlanCapability, PlanInstance};

verus! {

/// A construction begins the first time and never again, and nothing else changes by it.
pub proof fn a_construction_begins_once<T>(lifecycle: CompleteObjectLifecycle<T>)
    ensures
        construction_begun(lifecycle).0 is Ok <==> !lifecycle.construction_started,
        construction_begun(lifecycle).1.construction_started,
        construction_begun(lifecycle).1.object == lifecycle.object,
        construction_begun(lifecycle).1.has_stop == lifecycle.has_stop,
        construction_begun(lifecycle).1.stop_attempted == lifecycle.stop_attempted,
{
}

/// The first object that is constructed is kept, also where the construction was cancelled meanwhile, so
/// that it can be stopped. Success is reported exactly where the object was kept and nobody cancelled.
pub proof fn a_constructed_object_is_kept<T>(
    before: CompleteObjectLifecycle<T>,
    constructed: Result<Rc<T>, RuntimeFailure>,
    cancelled: bool,
    r: Result<(), RuntimeFailure>,
    after: CompleteObjectLifecycle<T>,
)
    requires
        construction_settled(before, constructed, cancelled, r, after),
    ensures
        constructed is Ok && before.object.value is None ==> after.object.value == Some(constructed->Ok_0),
        constructed is Err || before.object.value is Some ==> after.object == before.object,
        r is Ok <==> constructed is Ok && before.object.value is None && !cancelled,
        after.has_stop == before.has_stop,
        after.construction_started == before.construction_started,
        after.stop_attempted == before.stop_attempted,
{
}

/// The first deactivation hands out the object that was constructed, where the Plugin has a stop hook.
/// The object stays where it is.
pub proof fn a_deactivation_stops_the_object<T>(lifecycle: CompleteObjectLifecycle<T>)
    ensures
        !lifecycle.stop_attempted && lifecycle.has_stop ==> deactivated(lifecycle).0 == lifecycle.object.value,
        lifecycle.stop_attempted || !lifecycle.has_stop ==> deactivated(lifecycle).0 is None,
        deactivated(lifecycle).1.stop_attempted,
        deactivated(lifecycle).1.object == lifecycle.object,
        deactivated(lifecycle).1.has_stop == lifecycle.has_stop,
        deactivated(lifecycle).1.construction_started == lifecycle.construction_started,
{
}

proof fn lemma_constructors(candidates: Seq<ConstructionCandidate>, custom: bool, n: nat)
    requires
        n <= candidates.len(),
    ensures
        forall|k: int| 0 <= k < constructors(candidates, custom, n).len() ==> {
            let i = #[trigger] constructors(candidates, custom, n)[k];
            0 <= i < n && candidates[i].constructs && candidates[i].custom == custom
        },
        forall|i: int|
            0 <= i < n && (#[trigger] candidates[i]).constructs && candidates[i].custom == custom ==> constructors(candidates, custom, n).contains(i),
        forall|k: int, m: int|
            0 <= k < m < constructors(candidates, custom, n).len() ==> #[trigger] constructors(candidates, custom, n)[k]
                < #[trigger] constructors(candidates, custom, n)[m],
    decreases n,
{
    if n > 0 {
        let earlier = constructors(candidates, custom, (n - 1) as nat);
        let all = constructors(candidates, custom, n);
        lemma_constructors(candidates, custom, (n - 1) as nat);
        assert forall|i: int| 0 <= i < n && (#[trigger] candidates[i]).constructs && candidates[i].custom == custom implies all.contains(i) by {
            if i < n - 1 {
                let k = choose|k: int| 0 <= k < earlier.len() && earlier[k] == i;
                assert(all[k] == i);
            } else {
                assert(all[all.len() - 1] == i);
            }
        }
    }
}

/// The constructor that is used constructs the Plugin type and is the only one of its sort; one that an
/// author wrote comes before any default.
pub proof fn a_selected_constructor_is_unique(candidates: Seq<ConstructionCandidate>, other: int)
    requires
        selected_constructor(candidates) is Ok,
        0 <= other < candidates.len(),
    ensures
        ({
            let chosen = selected_constructor(candidates)->Ok_0;
            &&& 0 <= chosen < candidates.len()
            &&& candidates[chosen].constructs
            &&& candidates[other].constructs && other != chosen ==> candidates[chosen].custom && !candidates[other].custom
        }),
{
    lemma_constructors(candidates, true, candidates.len());
    lemma_constructors(candidates, false, candidates.len());
    let customs = constructors(candidates, true, candidates.len());
    let defaults = constructors(candidates, false, candidates.len());
    if customs.len() == 1 {
        assert(candidates[customs[0]].constructs);
    } else {
        assert(candidates[defaults[0]].constructs);
    }
    if candidates[other].constructs {
        if candidates[other].custom {
            assert(customs.contains(other));
        } else {
            assert(defaults.contains(other));
        }
    }
}

/// A constructor is selected exactly where one of an author is linked alone, or no such one and one
/// default alone.
pub proof fn a_constructor_is_selected_where_one_is_due(candidates: Seq<ConstructionCandidate>, i: int)
    requires
        0 <= i < candidates.len(),
        candidates[i].constructs,
        forall|j: int|
            0 <= j < candidates.len() && j != i && (#[trigger] candidates[j]).constructs ==> candidates[i].custom && !candidates[j].custom,
    ensures
        selected_constructor(candidates) == Ok::<int, FailureView>(i),
{
    lemma_constructors(candidates, true, candidates.len());
    lemma_constructors(candidates, false, candidates.len());
    let customs = constructors(candidates, true, candidates.len());
    let defaults = constructors(candidates, false, candidates.len());
    if candidates[i].custom {
        assert(customs.contains(i));
        assert forall|k: int| 0 <= k < customs.len() implies #[trigger] customs[k] == i by {
            let j = customs[k];
            assert(candidates[j].constructs && candidates[j].custom);
        }
        if customs.len() > 1 {
            assert(customs[0] < customs[1]);
        }
    } else {
        assert(defaults.contains(i));
        assert forall|k: int| 0 <= k < defaults.len() implies #[trigger] defaults[k] == i by {
            let j = defaults[k];
            assert(candidates[j].constructs && !candidates[j].custom);
        }
        if defaults.len() > 1 {
            assert(defaults[0] < defaults[1]);
        }
        if customs.len() > 0 {
            let j = customs[0];
            assert(candidates[j].constructs && candidates[j].custom);
        }
    }
}

/// A Plugin that takes no configuration accepts an object without entries and nothing else.
pub proof fn only_the_empty_object_configures_nothing(plugin_id: Seq<char>, read: Result<JsonView, Seq<char>>)
    ensures
        configuration_fault(plugin_id, read) is None <==> read is Ok && read->Ok_0 is Object && read->Ok_0->Object_0.len() == 0,
{
}

/// Every contribution stays, once, in the order of its first occurrence.
pub proof fn every_contribution_stays_once(factories: Seq<(Seq<char>, usize)>)
    ensures
        forall|link: (Seq<char>, usize)| #[trigger] unique_links(factories).contains(link) <==> factories.contains(link),
        unique_links(factories).no_duplicates(),
        factories.no_duplicates() ==> unique_links(factories) == factories,
    decreases factories.len(),
{
    if factories.len() > 0 {
        let before = factories.drop_last();
        let earlier = unique_links(before);
        let all = unique_links(factories);
        every_contribution_stays_once(before);
        assert forall|link: (Seq<char>, usize)| #[trigger] all.contains(link) <==> factories.contains(link) by {
            if all.contains(link) {
                let k = choose|k: int| 0 <= k < all.len() && all[k] == link;
                if k < earlier.len() {
                    assert(earlier[k] == link);
                    assert(earlier.contains(link));
                    assert(before.contains(link));
                    let m = choose|m: int| 0 <= m < before.len() && before[m] == link;
                    assert(factories[m] == link);
                } else {
                    assert(factories[factories.len() - 1] == link);
                }
            }
            if factories.contains(link) {
                let m = choose|m: int| 0 <= m < factories.len() && factories[m] == link;
                if m < before.len() {
                    assert(before[m] == link);
                    assert(earlier.contains(link));
                    let k = choose|k: int| 0 <= k < earlier.len() && earlier[k] == link;
                    assert(all[k] == link);
                } else if !earlier.contains(link) {
                    assert(all[all.len() - 1] == link);
                }
            }
        }
        if factories.no_duplicates() {
            assert(before.no_duplicates());
            if earlier.contains(factories.last()) {
                let m = choose|m: int| 0 <= m < before.len() && before[m] == factories.last();
                assert(factories[m] == factories[factories.len() - 1]);
            }
            assert(all =~= factories);
        }
    }
}

/// What an Instance of the Plan asks of its factory.
pub open spec fn made_for(factory: FactoryFacts, expected: PlanInstance) -> bool {
    &&& factory.package_id@ == expected.package_id@
    &&& factory.runtime_profile@ == expected.runtime_profile@ || (expected.runtime_profile@ == "lenso.native-rust@1"@ && factory.runtime_profile@
        == "lenso.native-authoring@1"@)
    &&& expected.package_revision@ == Seq::<char>::empty() || factory.package_version@ == expected.package_revision@ || factory.identity@
        == expected.package_revision@
}

proof fn lemma_fitting(factories: Seq<FactoryFacts>, expected: PlanInstance, n: nat)
    requires
        n <= factories.len(),
    ensures
        forall|k: int| 0 <= k < fitting_factories(factories, expected, n).len() ==> {
            let i = #[trigger] fitting_factories(factories, expected, n)[k];
            0 <= i < n && made_for(factories[i], expected)
        },
        forall|i: int| 0 <= i < n && made_for(#[trigger] factories[i], expected) ==> fitting_factories(factories, expected, n).contains(i),
        forall|k: int, m: int|
            0 <= k < m < fitting_factories(factories, expected, n).len() ==> #[trigger] fitting_factories(factories, expected, n)[k]
                < #[trigger] fitting_factories(factories, expected, n)[m],
    decreases n,
{
    if n > 0 {
        let earlier = fitting_factories(factories, expected, (n - 1) as nat);
        let all = fitting_factories(factories, expected, n);
        lemma_fitting(factories, expected, (n - 1) as nat);
        assert(expected.package_revision@.len() == 0 ==> expected.package_revision@ =~= Seq::<char>::empty());
        assert forall|i: int| 0 <= i < n && made_for(#[trigger] factories[i], expected) implies all.contains(i) by {
            if i < n - 1 {
                let k = choose|k: int| 0 <= k < earlier.len() && earlier[k] == i;
                assert(all[k] == i);
            } else {
                assert(all[all.len() - 1] == i);
            }
        }
    }
}

/// The factory of an Instance is made for its package, its profile and its revision, and no other factory
/// is.
pub proof fn a_chosen_factory_is_the_only_one(factories: Seq<FactoryFacts>, expected: PlanInstance, other: int)
    requires
        chosen_factory(factories, expected) is Ok,
        0 <= other < factories.len(),
    ensures
        0 <= chosen_factory(factories, expected)->Ok_0 < factories.len(),
        made_for(factories[chosen_factory(factories, expected)->Ok_0], expected),
        other != chosen_factory(factories, expected)->Ok_0 ==> !made_for(factories[other], expected),
{
    lemma_fitting(factories, expected, factories.len());
    let found = fitting_factories(factories, expected, factories.len());
    assert(made_for(factories[found[0]], expected));
    if made_for(factories[other], expected) {
        assert(found.contains(other));
    }
}

/// The one factory that is made for an Instance is chosen. Where none is, the failure names the Instance
/// and its package.
pub proof fn a_factory_is_chosen_where_one_is_due(factories: Seq<FactoryFacts>, expected: PlanInstance, i: int)
    ensures
        (0 <= i < factories.len() && made_for(factories[i], expected) && forall|j: int|
            0 <= j < factories.len() && j != i ==> !made_for(#[trigger] factories[j], expected)) ==> chosen_factory(factories, expected) == Ok::<
            int,
            FailureView,
        >(i),
        (forall|j: int| 0 <= j < factories.len() ==> !made_for(#[trigger] factories[j], expected)) ==> chosen_factory(factories, expected) == Err::<
            int,
            FailureView,
        >(FailureView::MissingPluginFactory { instance: expected.instance_key@, package_id: expected.package_id@ }),
{
    lemma_fitting(factories, expected, factories.len());
    let found = fitting_factories(factories, expected, factories.len());
    if 0 <= i < factories.len() && made_for(factories[i], expected) && forall|j: int|
        0 <= j < factories.len() && j != i ==> !made_for(#[trigger] factories[j], expected) {
        assert(found.contains(i));
        assert forall|k: int| 0 <= k < found.len() implies #[trigger] found[k] == i by {
            assert(made_for(factories[found[k]], expected));
        }
        if found.len() > 1 {
            assert(found[0] < found[1]);
        }
    }
    if forall|j: int| 0 <= j < factories.len() ==> !made_for(#[trigger] factories[j], expected) {
        if found.len() > 0 {
            assert(made_for(factories[found[0]], expected));
        }
    }
}

/// The Adapter runs two authoring protocols, each under its own profile; the first also under the name
/// of the execution class.
pub proof fn each_protocol_has_its_profile(version: u32, profile: Seq<char>)
    ensures
        supported_profile(version, profile) ==> version == 1 || version == 2,
        supported_profile(1, profile) ==> !supported_profile(2, profile),
        supported_profile(2, profile) <==> profile == "lenso.native-authoring@2"@,
        supported_profile(1, profile) <==> profile == "lenso.native-authoring@1"@ || profile == "lenso.native-rust@1"@,
{
    reveal_strlit("lenso.native-authoring@1");
    reveal_strlit("lenso.native-authoring@2");
    reveal_strlit("lenso.native-rust@1");
    assert("lenso.native-authoring@1"@[23] != "lenso.native-authoring@2"@[23]);
    assert("lenso.native-rust@1"@.len() != "lenso.native-authoring@2"@.len());
}

/// The next native Instance is native, and none is passed over.
pub proof fn no_native_instance_is_passed_over(instances: Seq<PlanInstance>, k: nat, i: int)
    ensures
        next_native(instances, k) matches Some(found) ==> k <= found < instances.len() && instances[found].execution_class@ == "lenso.native-rust@1"@,
        k <= i < instances.len() && instances[i].execution_class@ == "lenso.native-rust@1"@ ==> next_native(instances, k) is Some && next_native(
            instances,
            k,
        )->Some_0 <= i,
    decreases instances.len() - k,
{
    if k < instances.len() {
        no_native_instance_is_passed_over(instances, k + 1, i);
    }
}

/// What is instantiated next is a native Instance with the factory that is made for it, and the last call
/// says that no native Instance is left.
pub proof fn what_is_instantiated_is_native(
    factories: Seq<FactoryFacts>,
    instances: Seq<PlanInstance>,
    from: usize,
    r: Result<Option<Instantiation>, RuntimeFailure>,
    i: int,
)
    requires
        instantiation_found(factories, instances, from, r),
        from <= i < instances.len(),
        instances[i].execution_class@ == "lenso.native-rust@1"@,
    ensures
        r is Ok ==> r->Ok_0 is Some,
        r is Ok ==> ({
            let next = r->Ok_0->Some_0;
            &&& from <= next.instance <= i
            &&& instances[next.instance as int].execution_class@ == "lenso.native-rust@1"@
            &&& next.factory < factories.len()
            &&& made_for(factories[next.factory as int], instances[next.instance as int])
        }),
{
    no_native_instance_is_passed_over(instances, from as nat, i);
    let found = next_native(instances, from as nat)->Some_0;
    if r is Ok {
        assert(factories.len() > 0) by {
            lemma_fitting(factories, instances[found], factories.len());
        }
        a_chosen_factory_is_the_only_one(factories, instances[found], 0);
    }
}

/// What is recreated is the Instance with the key, with the factory that is made for it.
pub proof fn what_is_recreated_has_the_key(
    factories: Seq<FactoryFacts>,
    instances: Seq<PlanInstance>,
    key: Seq<char>,
    r: Result<Instantiation, RuntimeFailure>,
)
    requires
        recreated(factories, instances, key, r),
    ensures
        r is Ok ==> ({
            let next = r->Ok_0;
            &&& next.instance < instances.len()
            &&& instances[next.instance as int].instance_key@ == key
            &&& next.factory < factories.len()
            &&& made_for(factories[next.factory as int], instances[next.instance as int])
        }),
        (forall|i: int| 0 <= i < instances.len() ==> (#[trigger] instances[i]).instance_key@ != key) ==> r is Err,
{
    a_position_is_the_first_with_its_key(instances, key);
    if r is Ok {
        let i = instance_position(instances, key)->Some_0;
        lemma_fitting(factories, instances[i], factories.len());
        a_chosen_factory_is_the_only_one(factories, instances[i], 0);
    }
}

proof fn lemma_named(factories: Seq<FactoryFacts>, identity: Seq<char>)
    ensures
        named(factories, identity) is Some ==> factories.contains(named(factories, identity)->Some_0) && named(factories, identity)->Some_0.identity@
            == identity,
        forall|i: int| 0 <= i < factories.len() && (#[trigger] factories[i]).identity@ == identity ==> named(factories, identity) is Some,
    decreases factories.len(),
{
    if factories.len() > 0 {
        let before = factories.drop_last();
        lemma_named(before, identity);
        if named(before, identity) is Some {
            let k = choose|k: int| 0 <= k < before.len() && before[k] == named(before, identity)->Some_0;
            assert(factories[k] == before[k]);
        } else {
            assert(factories[factories.len() - 1] == factories.last());
        }
        assert forall|i: int| 0 <= i < factories.len() && (#[trigger] factories[i]).identity@ == identity implies named(factories, identity) is Some by {
            if i < before.len() {
                assert(before[i].identity@ == identity);
            }
        }
    }
}

/// The catalog has every identity that was linked, once, and only factories that were.
pub proof fn a_catalog_has_each_identity_once(catalog: Seq<FactoryFacts>, all: Seq<FactoryFacts>)
    requires
        is_catalog(catalog, all),
    ensures
        forall|i: int, j: int|
            0 <= i < catalog.len() && 0 <= j < catalog.len() && (#[trigger] catalog[i]).identity@ == (#[trigger] catalog[j]).identity@ ==> i == j,
        forall|i: int|
            0 <= i < all.len() ==> exists|k: int| 0 <= k < catalog.len() && (#[trigger] catalog[k]).identity@ == (#[trigger] all[i]).identity@,
        forall|k: int| 0 <= k < catalog.len() ==> all.contains(#[trigger] catalog[k]),
{
    assert forall|i: int, j: int|
        0 <= i < catalog.len() && 0 <= j < catalog.len() && (#[trigger] catalog[i]).identity@ == (#[trigger] catalog[j]).identity@ implies i == j by {
        crate::text::text_lt_strict_total(catalog[i].identity@, catalog[i].identity@);
    }
    assert forall|i: int| 0 <= i < all.len() implies exists|k: int|
        0 <= k < catalog.len() && (#[trigger] catalog[k]).identity@ == (#[trigger] all[i]).identity@ by {
        let identity = all[i].identity@;
        lemma_named(all, identity);
        lemma_named(catalog, identity);
        let found = named(catalog, identity)->Some_0;
        let k = choose|k: int| 0 <= k < catalog.len() && catalog[k] == found;
        assert(catalog[k].identity@ == identity);
    }
    assert forall|k: int| 0 <= k < catalog.len() implies all.contains(#[trigger] catalog[k]) by {
        let identity = catalog[k].identity@;
        lemma_named(all, identity);
        lemma_named(catalog, identity);
        let found = named(catalog, identity)->Some_0;
        let m = choose|m: int| 0 <= m < catalog.len() && catalog[m] == found;
        assert(catalog[m].identity@ == catalog[k].identity@);
    }
}


proof fn lemma_endpoint(endpoints: Seq<EndpointFacts>, binding: PlanBinding, k: nat)
    ensures
        endpoint_for(endpoints, binding, k) matches Some(i) ==> k <= i < endpoints.len() && endpoints[i].capability_id@ == binding.capability_id@
            && endpoints[i].descriptor_version@ == binding.descriptor_version@,
    decreases endpoints.len() - k,
{
    if k < endpoints.len() {
        lemma_endpoint(endpoints, binding, k + 1);
    }
}

proof fn lemma_provided(capabilities: Seq<PlanCapability>, id: Seq<char>, k: nat)
    ensures
        provided(capabilities, id, k) matches Some(i) ==> k <= i < capabilities.len() && capabilities[i].capability_id@ == id,
        forall|i: int| k <= i < capabilities.len() && (#[trigger] capabilities[i]).capability_id@ == id ==> provided(capabilities, id, k) is Some,
    decreases capabilities.len() - k,
{
    if k < capabilities.len() {
        lemma_provided(capabilities, id, k + 1);
    }
}

/// The Capability of a binding is one that its provider provides, under the identity that the binding
/// names.
pub proof fn a_bound_capability_is_its_providers(plan: AppPlan, binding: PlanBinding)
    requires
        exists|i: int| 0 <= i < plan.instances@.len() && (#[trigger] plan.instances@[i]).instance_key@ == binding.provider_instance@,
        provided(
            plan.instances@[instance_position(plan.instances@, binding.provider_instance@)->Some_0].provided_capabilities@,
            binding.capability_id@,
            0,
        ) is Some,
    ensures
        bound_capability(plan, binding).capability_id@ == binding.capability_id@,
        exists|i: int|
            0 <= i < plan.instances@.len() && (#[trigger] plan.instances@[i]).instance_key@ == binding.provider_instance@
                && plan.instances@[i].provided_capabilities@.contains(bound_capability(plan, binding)),
{
    a_position_is_the_first_with_its_key(plan.instances@, binding.provider_instance@);
    let i = instance_position(plan.instances@, binding.provider_instance@)->Some_0;
    lemma_provided(plan.instances@[i].provided_capabilities@, binding.capability_id@, 0);
    assert(plan.instances@[i].provided_capabilities@.contains(bound_capability(plan, binding)));
}

/// A prepared entry is one of a binding: it has the binding's texts, and its endpoint is one of the
/// provider's for the Capability and the Descriptor version that the binding names.
pub open spec fn entry_of(entry: (Seq<char>, Seq<char>, Seq<char>, int), binding: PlanBinding, endpoints: Seq<EndpointFacts>) -> bool {
    &&& entry.0 == binding.consumer_instance@
    &&& entry.1 == binding.provider_instance@
    &&& entry.2 == binding.requirement_id@
    &&& 0 <= entry.3 < endpoints.len()
    &&& endpoints[entry.3].capability_id@ == binding.capability_id@
    &&& endpoints[entry.3].descriptor_version@ == binding.descriptor_version@
}

/// Every binding to a prepared Instance has an entry in the list of each kind of Operation that its
/// Capability has, and that entry is the binding's own.
pub proof fn every_binding_is_prepared(plan: AppPlan, instances: Map<Seq<char>, InstanceEndpoints>, m: nat, n: int)
    requires
        prepared(plan, instances, m) is Ok,
        0 <= n < m,
        instances.dom().contains(plan.bindings@[n].provider_instance@),
    ensures
        ({
            let binding = plan.bindings@[n];
            let endpoints = instances[binding.provider_instance@];
            let capability = bound_capability(plan, binding);
            let lists = prepared(plan, instances, m)->Ok_0;
            &&& capability.request_operations@.len() > 0 ==> exists|k: int|
                0 <= k < lists.request.len() && entry_of(#[trigger] lists.request[k], binding, endpoints.request@)
            &&& capability.stream_operations@.len() > 0 ==> exists|k: int|
                0 <= k < lists.stream.len() && entry_of(#[trigger] lists.stream[k], binding, endpoints.stream@)
            &&& capability.event_operations@.len() > 0 ==> exists|k: int|
                0 <= k < lists.event.len() && entry_of(#[trigger] lists.event[k], binding, endpoints.event@)
        }),
    decreases m,
{
    let binding = plan.bindings@[n];
    let endpoints = instances[binding.provider_instance@];
    let capability = bound_capability(plan, binding);
    let lists = prepared(plan, instances, m)->Ok_0;
    let earlier = prepared(plan, instances, (m - 1) as nat)->Ok_0;
    if n == m - 1 {
        lemma_endpoint(endpoints.request@, binding, 0);
        lemma_endpoint(endpoints.stream@, binding, 0);
        lemma_endpoint(endpoints.event@, binding, 0);
        if capability.request_operations@.len() > 0 {
            assert(entry_of(lists.request[lists.request.len() - 1], binding, endpoints.request@));
        }
        if capability.stream_operations@.len() > 0 {
            assert(entry_of(lists.stream[lists.stream.len() - 1], binding, endpoints.stream@));
        }
        if capability.event_operations@.len() > 0 {
            assert(entry_of(lists.event[lists.event.len() - 1], binding, endpoints.event@));
        }
    } else {
        every_binding_is_prepared(plan, instances, (m - 1) as nat, n);
        if capability.request_operations@.len() > 0 {
            let k = choose|k: int| 0 <= k < earlier.request.len() && entry_of(#[trigger] earlier.request[k], binding, endpoints.request@);
            assert(lists.request[k] == earlier.request[k]);
        }
        if capability.stream_operations@.len() > 0 {
            let k = choose|k: int| 0 <= k < earlier.stream.len() && entry_of(#[trigger] earlier.stream[k], binding, endpoints.stream@);
            assert(lists.stream[k] == earlier.stream[k]);
        }
        if capability.event_operations@.len() > 0 {
            let k = choose|k: int| 0 <= k < earlier.event.len() && entry_of(#[trigger] earlier.event[k], binding, endpoints.event@);
            assert(lists.event[k] == earlier.event[k]);
        }
    }
}

/// How many entries a list of prepared bindings has: one for each binding to a prepared Instance whose
/// Capability has Operations of that kind.
pub open spec fn due(plan: AppPlan, instances: Map<Seq<char>, InstanceEndpoints>, kind: spec_fn(PlanCapability) -> bool, n: nat) -> nat
    decreases n,
{
    if n == 0 {
        0
    } else {
        let binding = plan.bindings@[n - 1];
        due(plan, instances, kind, (n - 1) as nat) + if instances.dom().contains(binding.provider_instance@) && kind(
            bound_capability(plan, binding),
        ) {
            1nat
        } else {
            0
        }
    }
}

/// Nothing is prepared but what the bindings ask for.
pub proof fn nothing_else_is_prepared(plan: AppPlan, instances: Map<Seq<char>, InstanceEndpoints>, n: nat)
    requires
        prepared(plan, instances, n) is Ok,
    ensures
        ({
            let lists = prepared(plan, instances, n)->Ok_0;
            &&& lists.request.len() == due(plan, instances, |c: PlanCapability| c.request_operations@.len() > 0, n)
            &&& lists.stream.len() == due(plan, instances, |c: PlanCapability| c.stream_operations@.len() > 0, n)
            &&& lists.event.len() == due(plan, instances, |c: PlanCapability| c.event_operations@.len() > 0, n)
        }),
    decreases n,
{
    if n > 0 {
        nothing_else_is_prepared(plan, instances, (n - 1) as nat);
    }
}

/// The bindings can be prepared exactly where the provider of each has an endpoint for each kind of
/// Operation that is bound.
pub proof fn preparation_needs_only_endpoints(plan: AppPlan, instances: Map<Seq<char>, InstanceEndpoints>, n: nat)
    requires
        forall|i: int|
            0 <= i < n && instances.dom().contains((#[trigger] plan.bindings@[i]).provider_instance@) ==> {
                let binding = plan.bindings@[i];
                let endpoints = instances[binding.provider_instance@];
                &&& exists|k: int| 0 <= k < endpoints.request@.len() && serves(#[trigger] endpoints.request@[k], binding)
                &&& exists|k: int| 0 <= k < endpoints.stream@.len() && serves(#[trigger] endpoints.stream@[k], binding)
                &&& exists|k: int| 0 <= k < endpoints.event@.len() && serves(#[trigger] endpoints.event@[k], binding)
            },
    ensures
        prepared(plan, instances, n) is Ok,
    decreases n,
{
    if n > 0 {
        preparation_needs_only_endpoints(plan, instances, (n - 1) as nat);
        let binding = plan.bindings@[n - 1];
        if instances.dom().contains(binding.provider_instance@) {
            let endpoints = instances[binding.provider_instance@];
            lemma_served(endpoints.request@, binding, 0);
            lemma_served(endpoints.stream@, binding, 0);
            lemma_served(endpoints.event@, binding, 0);
        }
    }
}

/// An endpoint is for the Capability and the Descriptor version of a binding.
pub open spec fn serves(endpoint: EndpointFacts, binding: PlanBinding) -> bool {
    endpoint.capability_id@ == binding.capability_id@ && endpoint.descriptor_version@ == binding.descriptor_version@
}

proof fn lemma_served(endpoints: Seq<EndpointFacts>, binding: PlanBinding, k: nat)
    ensures
        (exists|i: int| k <= i < endpoints.len() && serves(#[trigger] endpoints[i], binding)) ==> endpoint_for(endpoints, binding, k) is Some,
    decreases endpoints.len() - k,
{
    if k < endpoints.len() {
        lemma_served(endpoints, binding, k + 1);
    }
}

/// A contribution that is linked is there, once, and linking it again changes nothing.
pub proof fn linking_twice_is_linking_once(
    before: Seq<(Seq<char>, usize)>,
    factory: (Seq<char>, usize),
    between: Seq<(Seq<char>, usize)>,
    after: Seq<(Seq<char>, usize)>,
)
    requires
        linked(before, factory, between),
        linked(between, factory, after),
    ensures
        between.contains(factory),
        after == between,
        before.is_prefix_of(between),
        before.no_duplicates() ==> between.no_duplicates(),
{
    if !before.contains(factory) {
        assert(between[between.len() - 1] == factory);
    }
    assert(before =~= between.take(before.len() as int));
}

/// A factory goes by its package and its version, or by its package alone where it has no version. Two
/// versions of a package are two identities.
pub proof fn a_factory_goes_by_its_version(package_id: Seq<char>, a: Seq<char>, b: Seq<char>)
    ensures
        default_identity(package_id, Seq::empty()) == package_id,
        package_id.is_prefix_of(default_identity(package_id, a)),
        default_identity(package_id, a) == default_identity(package_id, b) ==> a == b,
        a.len() > 0 ==> default_identity(package_id, a) == package_id + seq!['@'] + a,
{
    reveal_strlit("@");
    assert("@"@ =~= seq!['@']);
    let x = default_identity(package_id, a);
    let y = default_identity(package_id, b);
    assert(package_id =~= x.take(package_id.len() as int));
    if x == y {
        if a.len() > 0 {
            assert(x.len() == package_id.len() + 1 + a.len());
            assert(a =~= x.skip(package_id.len() as int + 1));
        }
        if b.len() > 0 {
            assert(b =~= y.skip(package_id.len() as int + 1));
        }
        assert(a =~= b);
    }
}
} // verus!
