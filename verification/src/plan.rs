//! Resolved App Plans as the runtime reads them.
use lenso_app_plan::{CapabilityBinding, CapabilityEndpointPlan, PluginInstancePlan, ResolvedAppPlan};
use vstd::prelude::*;
use vstd::string::*;

use crate::text::texts;

verus! {

/// One Capability that a Plugin Instance provides.
#[derive(Clone, Debug)]
pub struct PlanCapability {
    pub capability_id: String,
    pub descriptor_version: String,
    pub request_operations: Vec<String>,
    pub stream_operations: Vec<String>,
    pub event_operations: Vec<String>,
}

/// One Plugin Instance of a resolved App Plan.
#[derive(Clone, Debug)]
pub struct PlanInstance {
    pub instance_key: String,
    pub package_id: String,
    pub package_revision: String,
    pub entrypoint: String,
    pub configuration: String,
    pub execution_class: String,
    pub runtime_profile: String,
    pub provided_capabilities: Vec<PlanCapability>,
}

/// One resolved Capability binding.
#[derive(Clone, Debug)]
pub struct PlanBinding {
    pub consumer_instance: String,
    pub provider_instance: String,
    pub capability_id: String,
    pub descriptor_version: String,
    pub requirement_id: String,
}

/// A resolved App Plan: its Instances, its bindings and its serialized form.
#[derive(Clone, Debug)]
pub struct AppPlan {
    pub instances: Vec<PlanInstance>,
    pub bindings: Vec<PlanBinding>,
    /// The Plan as canonical authority serializes it.
    pub bytes: Vec<u8>,
}

/// Whether serialized bytes are a valid Plan, or the text of the error.
pub uninterp spec fn plan_verdict(bytes: Seq<u8>) -> Result<(), Seq<char>>;

/// `serde_json::from_slice` reads a `ResolvedAppPlan`, and `ResolvedAppPlan::validate` checks that it is
/// complete and consistent. An error of either is given by its text.
#[verifier::external_body]
fn validate_plan(bytes: &[u8]) -> (r: Result<(), String>)
    ensures
        r is Ok <==> plan_verdict(bytes@) is Ok,
        r is Err ==> plan_verdict(bytes@) == Err::<(), Seq<char>>(r->Err_0@),
{
    let plan: ResolvedAppPlan = serde_json::from_slice(bytes).map_err(|error| error.to_string())?;
    plan.validate().map_err(|error| error.to_string())
}

/// What an Instance says of itself, apart from its Capabilities.
pub open spec fn instance_facts(instance: PlanInstance) -> (Seq<char>, Seq<char>, Seq<char>, Seq<char>, Seq<char>, Seq<char>, Seq<char>) {
    (
        instance.instance_key@,
        instance.package_id@,
        instance.package_revision@,
        instance.entrypoint@,
        instance.configuration@,
        instance.execution_class@,
        instance.runtime_profile@,
    )
}

/// What a provided Capability says.
pub open spec fn capability_facts(item: PlanCapability) -> (Seq<char>, Seq<char>, Seq<Seq<char>>, Seq<Seq<char>>, Seq<Seq<char>>) {
    (
        item.capability_id@,
        item.descriptor_version@,
        texts(item.request_operations@),
        texts(item.stream_operations@),
        texts(item.event_operations@),
    )
}

/// What a list of provided Capabilities says.
pub open spec fn endpoint_facts(items: Seq<PlanCapability>) -> Seq<
    (Seq<char>, Seq<char>, Seq<Seq<char>>, Seq<Seq<char>>, Seq<Seq<char>>),
> {
    items.map_values(|item: PlanCapability| capability_facts(item))
}

/// What a binding says.
pub open spec fn binding_facts(binding: PlanBinding) -> (Seq<char>, Seq<char>, Seq<char>, Seq<char>, Seq<char>) {
    (
        binding.consumer_instance@,
        binding.provider_instance@,
        binding.capability_id@,
        binding.descriptor_version@,
        binding.requirement_id@,
    )
}

/// The Instances of the Plan that serialized bytes are, apart from their Capabilities, or the text of the
/// error in reading it.
pub uninterp spec fn plan_instances(bytes: Seq<u8>) -> Result<
    Seq<(Seq<char>, Seq<char>, Seq<char>, Seq<char>, Seq<char>, Seq<char>, Seq<char>)>,
    Seq<char>,
>;

/// The Capabilities that the Instances of a serialized Plan provide.
pub uninterp spec fn plan_endpoints(bytes: Seq<u8>) -> Seq<Seq<(Seq<char>, Seq<char>, Seq<Seq<char>>, Seq<Seq<char>>, Seq<Seq<char>>)>>;

/// The bindings of a serialized Plan.
pub uninterp spec fn plan_bindings(bytes: Seq<u8>) -> Seq<(Seq<char>, Seq<char>, Seq<char>, Seq<char>, Seq<char>)>;

/// `serde_json::from_slice` reads a `ResolvedAppPlan`; its `plugin_instances` are read off by their own
/// accessors, without their Capabilities. An error is given by its text.
#[verifier::external_body]
fn instances_of(bytes: &[u8]) -> (r: Result<Vec<PlanInstance>, String>)
    ensures
        r is Ok <==> plan_instances(bytes@) is Ok,
        r matches Ok(items) ==> items@.map_values(|item: PlanInstance| instance_facts(item)) == plan_instances(bytes@)->Ok_0,
        r matches Err(detail) ==> plan_instances(bytes@)->Err_0 == detail@,
{
    let plan: ResolvedAppPlan = serde_json::from_slice(bytes).map_err(|error| error.to_string())?;
    let facts = |item: &PluginInstancePlan| PlanInstance {
        instance_key: item.instance_key().to_owned(),
        package_id: item.package_id().to_owned(),
        package_revision: item.package_revision().to_owned(),
        entrypoint: item.entrypoint().to_owned(),
        configuration: item.configuration().to_owned(),
        execution_class: item.execution_class().as_str().to_owned(),
        runtime_profile: item.runtime_profile().to_owned(),
        provided_capabilities: Vec::new(),
    };
    Ok(plan.plugin_instances().iter().map(facts).collect())
}

/// `serde_json::from_slice` reads a `ResolvedAppPlan`; the `provided_capabilities` of each of its
/// `plugin_instances` are read off by their own accessors.
#[verifier::external_body]
fn endpoints_of(bytes: &[u8]) -> (r: Result<Vec<Vec<PlanCapability>>, String>)
    ensures
        r is Ok <==> plan_instances(bytes@) is Ok,
        r matches Ok(lists) ==> lists@.len() == plan_instances(bytes@)->Ok_0.len() && lists@.map_values(
            |items: Vec<PlanCapability>| endpoint_facts(items@),
        ) == plan_endpoints(bytes@),
{
    let plan: ResolvedAppPlan = serde_json::from_slice(bytes).map_err(|error| error.to_string())?;
    let texts = |items: Vec<&str>| items.into_iter().map(str::to_owned).collect();
    let facts = |item: &CapabilityEndpointPlan| PlanCapability {
        capability_id: item.capability_id().to_owned(),
        descriptor_version: item.descriptor_version().to_owned(),
        request_operations: texts(item.request_operations()),
        stream_operations: texts(item.stream_operations()),
        event_operations: texts(item.event_operations()),
    };
    Ok(plan.plugin_instances().iter().map(|item| item.provided_capabilities().iter().map(facts).collect()).collect())
}

/// `serde_json::from_slice` reads a `ResolvedAppPlan`; its `capability_bindings` are read off by their
/// own accessors.
#[verifier::external_body]
fn bindings_of(bytes: &[u8]) -> (r: Result<Vec<PlanBinding>, String>)
    ensures
        r is Ok <==> plan_instances(bytes@) is Ok,
        r matches Ok(items) ==> items@.map_values(|item: PlanBinding| binding_facts(item)) == plan_bindings(bytes@),
{
    let plan: ResolvedAppPlan = serde_json::from_slice(bytes).map_err(|error| error.to_string())?;
    let facts = |item: &CapabilityBinding| PlanBinding {
        consumer_instance: item.consumer_instance().to_owned(),
        provider_instance: item.provider_instance().to_owned(),
        capability_id: item.capability_id().to_owned(),
        descriptor_version: item.descriptor_version().to_owned(),
        requirement_id: item.requirement_id().to_owned(),
    };
    Ok(plan.capability_bindings().iter().map(facts).collect())
}

impl AppPlan {
    /// The Instances and the bindings are those that the serialized form holds.
    pub open spec fn whole(self) -> bool {
        &&& plan_instances(self.bytes@) matches Ok(items) && self.instances@.map_values(|item: PlanInstance| instance_facts(item)) == items
        &&& self.instances@.map_values(|item: PlanInstance| endpoint_facts(item.provided_capabilities@)) == plan_endpoints(self.bytes@)
        &&& self.bindings@.map_values(|item: PlanBinding| binding_facts(item)) == plan_bindings(self.bytes@)
    }

    /// Reads a Plan from its serialized form; an error is given by its text.
    pub fn read(bytes: Vec<u8>) -> (r: Result<Self, String>)
        ensures
            match plan_instances(bytes@) {
                Ok(_) => r is Ok && r->Ok_0.bytes@ == bytes@ && r->Ok_0.whole(),
                Err(detail) => r is Err && r->Err_0@ == detail,
            },
    {
        let mut instances = match instances_of(bytes.as_slice()) {
            Ok(instances) => instances,
            Err(detail) => return Err(detail),
        };
        let mut endpoints = match endpoints_of(bytes.as_slice()) {
            Ok(endpoints) => endpoints,
            Err(detail) => return Err(detail),
        };
        let bindings = match bindings_of(bytes.as_slice()) {
            Ok(bindings) => bindings,
            Err(detail) => return Err(detail),
        };
        let ghost read = instances@;
        let ghost lists = endpoints@;
        let mut whole: Vec<PlanInstance> = Vec::new();
        let n: usize = instances.len();
        proof {
            assert(read.map_values(|item: PlanInstance| instance_facts(item)).len() == read.len());
        }
        while whole.len() < n
            invariant
                n == read.len(),
                lists.len() == n,
                whole@.len() <= n,
                instances@ == read.skip(whole@.len() as int),
                endpoints@ == lists.skip(whole@.len() as int),
                forall|k: int| 0 <= k < whole@.len() ==> instance_facts(#[trigger] whole@[k]) == instance_facts(read[k]),
                forall|k: int| 0 <= k < whole@.len() ==> (#[trigger] whole@[k]).provided_capabilities == lists[k],
            decreases n - whole@.len(),
        {
            let ghost i = whole@.len() as int;
            let mut instance = instances.remove(0);
            instance.provided_capabilities = endpoints.remove(0);
            whole.push(instance);
            proof {
                assert(read.skip(i).remove(0) =~= read.skip(i + 1));
                assert(lists.skip(i).remove(0) =~= lists.skip(i + 1));
            }
        }
        proof {
            assert(whole@.map_values(|item: PlanInstance| instance_facts(item)) =~= read.map_values(|item: PlanInstance| instance_facts(item)));
            assert(whole@.map_values(|item: PlanInstance| endpoint_facts(item.provided_capabilities@)) =~= lists.map_values(
                |items: Vec<PlanCapability>| endpoint_facts(items@),
            ));
        }
        Ok(AppPlan { instances: whole, bindings, bytes })
    }

    /// Validates the Plan, by its serialized form; an error is given by its text.
    pub fn validate(&self) -> (r: Result<(), String>)
        ensures
            match plan_verdict(self.bytes@) {
                Ok(()) => r is Ok,
                Err(detail) => r is Err && r->Err_0@ == detail,
            },
    {
        validate_plan(self.bytes.as_slice())
    }
}

/// The position of the first of the first `n` Instances with a key.
pub open spec fn instance_position(instances: Seq<PlanInstance>, key: Seq<char>) -> Option<int> {
    if exists|i: int| 0 <= i < instances.len() && (#[trigger] instances[i]).instance_key@ == key {
        Some(
            choose|i: int|
                0 <= i < instances.len() && (#[trigger] instances[i]).instance_key@ == key && (forall|k: int|
                    0 <= k < i ==> (#[trigger] instances[k]).instance_key@ != key),
        )
    } else {
        None
    }
}

/// Where some Instance has a key, its position is that of the first one.
pub proof fn a_position_is_the_first_with_its_key(instances: Seq<PlanInstance>, key: Seq<char>)
    ensures
        instance_position(instances, key) is Some <==> exists|i: int| 0 <= i < instances.len() && (#[trigger] instances[i]).instance_key@ == key,
        instance_position(instances, key) matches Some(i) ==> 0 <= i < instances.len() && instances[i].instance_key@ == key && forall|k: int|
            0 <= k < i ==> (#[trigger] instances[k]).instance_key@ != key,
{
    if exists|i: int| 0 <= i < instances.len() && (#[trigger] instances[i]).instance_key@ == key {
        let some = choose|i: int| 0 <= i < instances.len() && (#[trigger] instances[i]).instance_key@ == key;
        lemma_first_with_key(instances, key, some);
    }
}

proof fn lemma_first_with_key(instances: Seq<PlanInstance>, key: Seq<char>, some: int)
    requires
        0 <= some < instances.len(),
        instances[some].instance_key@ == key,
    ensures
        exists|i: int|
            0 <= i < instances.len() && (#[trigger] instances[i]).instance_key@ == key && (forall|k: int|
                0 <= k < i ==> (#[trigger] instances[k]).instance_key@ != key),
    decreases some,
{
    if exists|k: int| 0 <= k < some && (#[trigger] instances[k]).instance_key@ == key {
        let earlier = choose|k: int| 0 <= k < some && (#[trigger] instances[k]).instance_key@ == key;
        lemma_first_with_key(instances, key, earlier);
    } else {
        assert(instances[some].instance_key@ == key);
    }
}

/// Finds the first Instance with a key.
pub fn find_instance(instances: &Vec<PlanInstance>, key: &str) -> (r: Option<usize>)
    ensures
        match r {
            Some(i) => instance_position(instances@, key@) == Some(i as int) && i < instances@.len() && instances@[i as int].instance_key@
                == key@,
            None => instance_position(instances@, key@) is None,
        },
{
    let mut i: usize = 0;
    while i < instances.len()
        invariant
            i <= instances.len(),
            forall|k: int| 0 <= k < i ==> (#[trigger] instances@[k]).instance_key@ != key@,
        decreases instances.len() - i,
    {
        if crate::text::same(instances[i].instance_key.as_str(), key) {
            proof {
                let found = choose|p: int|
                    0 <= p < instances@.len() && (#[trigger] instances@[p]).instance_key@ == key@ && (forall|k: int|
                        0 <= k < p ==> (#[trigger] instances@[k]).instance_key@ != key@);
                assert(instances@[i as int].instance_key@ == key@);
                assert(instances@[found].instance_key@ == key@);
                if found < i {
                } else if i < found {
                    assert(instances@[i as int].instance_key@ != key@);
                }
            }
            return Some(i);
        }
        i = i + 1;
    }
    None
}

} // verus!
