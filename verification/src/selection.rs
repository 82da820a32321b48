//! Selection of one implementation of a Plugin Release.
use lenso_app_plan::authoring::{PluginContract, PluginDescriptor, PluginImplementation};
use vstd::prelude::*;
use vstd::string::*;

use crate::bundle::{BundleError, BundleFault, PluginArtifactV2, PluginManifestV2};
use crate::json;
use crate::json::{Json, JsonView};
use crate::text;
use crate::text::{decimal, texts};

verus! {

/// Runtime-independent contract shared by every implementation of one Plugin Release.
#[derive(Clone, Debug)]
pub struct ReleaseContract {
    pub plugin_id: String,
    pub release_version: String,
    /// The complete contract.
    pub document: Json,
}

/// Exact runtime selection used to execute one contract.
#[derive(Clone, Debug)]
pub struct RuntimeImplementation {
    pub execution_class: String,
    pub runtime_profile: String,
    /// The complete runtime selection.
    pub document: Json,
}

/// One exact executable implementation of a Plugin contract.
#[derive(Clone, Debug)]
pub struct PluginImplementationV3 {
    pub id: String,
    pub host_targets: Vec<String>,
    pub artifact: PluginArtifactV2,
    pub runtime: RuntimeImplementation,
}

/// One Plugin Release contract with every publisher-provided implementation.
#[derive(Clone, Debug)]
pub struct PluginManifestV3 {
    pub schema_version: u32,
    pub contract: ReleaseContract,
    pub implementations: Vec<PluginImplementationV3>,
}

/// A strictly parsed Plugin Manifest, in its single-artifact form or with several implementations.
#[derive(Clone, Debug)]
pub enum PluginManifest {
    V2(PluginManifestV2),
    V3(PluginManifestV3),
}

impl PluginManifest {
    /// The documents in the manifest are ones that a JSON reader hands out.
    pub open spec fn sound(self) -> bool {
        match self {
            PluginManifest::V2(value) => value.entry.descriptor.model().sound(),
            PluginManifest::V3(value) => value.contract.document.model().sound() && forall|i: int|
                0 <= i < value.implementations@.len() ==> (#[trigger] value.implementations@[i]).runtime.document.model().sound(),
        }
    }

    /// The Plugin that is released.
    pub fn plugin_id(&self) -> (r: &str)
        ensures
            r@ == match *self {
                PluginManifest::V2(value) => value.plugin_id@,
                PluginManifest::V3(value) => value.contract.plugin_id@,
            },
    {
        match self {
            PluginManifest::V2(value) => value.plugin_id.as_str(),
            PluginManifest::V3(value) => value.contract.plugin_id.as_str(),
        }
    }

    /// The version of the Release.
    pub fn release_version(&self) -> (r: &str)
        ensures
            r@ == match *self {
                PluginManifest::V2(value) => value.release_version@,
                PluginManifest::V3(value) => value.contract.release_version@,
            },
    {
        match self {
            PluginManifest::V2(value) => value.release_version.as_str(),
            PluginManifest::V3(value) => value.contract.release_version.as_str(),
        }
    }
}

/// One exact runtime protocol admitted by the Host.
#[derive(Clone, Debug)]
pub struct RuntimeAdmission {
    pub execution_class: String,
    pub runtime_profile: String,
}

/// Host policy used to resolve one implementation before Plan construction.
#[derive(Clone, Debug)]
pub struct ImplementationPolicy {
    pub host_target: String,
    pub runtimes: Vec<RuntimeAdmission>,
}

/// One final implementation selected from a Plugin Release.
#[derive(Clone, Debug)]
pub struct ResolvedPluginImplementation {
    pub implementation_id: String,
    pub descriptor: Json,
    pub artifact: PluginArtifactV2,
}

/// What a selected implementation says.
pub open spec fn selected_facts(selected: ResolvedPluginImplementation) -> (
    Seq<char>,
    JsonView,
    (Seq<char>, Seq<char>, u64, Seq<char>, Seq<char>),
) {
    (selected.implementation_id@, selected.descriptor.model(), selected.artifact.facts())
}

/// What selection came to, by its facts.
pub open spec fn selection_outcome(r: Result<ResolvedPluginImplementation, BundleError>) -> Result<
    (Seq<char>, JsonView, (Seq<char>, Seq<char>, u64, Seq<char>, Seq<char>)),
    BundleFault,
> {
    match r {
        Ok(selected) => Ok(selected_facts(selected)),
        Err(error) => Err(error@),
    }
}

/// What `lenso_app_plan` reads as a Plugin descriptor from JSON: its execution class, its runtime
/// profile and the complete descriptor, or the text of the error.
pub uninterp spec fn read_descriptor(tree: JsonView) -> Result<(Seq<char>, Seq<char>, JsonView), Seq<char>>;

/// `serde_json::from_value` reads a `PluginDescriptor`; its execution class and runtime profile are read
/// off it, and the whole is written again. An error is given by its text.
#[verifier::external_body]
fn descriptor_from_json(json: &Json) -> (r: Result<(String, String, Json), String>)
    requires
        json.model().sound(),
    ensures
        r is Ok <==> read_descriptor(json.model()) is Ok,
        r is Ok ==> read_descriptor(json.model()) == Ok::<(Seq<char>, Seq<char>, JsonView), Seq<char>>(
            (r->Ok_0.0@, r->Ok_0.1@, r->Ok_0.2.model()),
        ),
        r is Err ==> read_descriptor(json.model()) == Err::<(Seq<char>, Seq<char>, JsonView), Seq<char>>(r->Err_0@),
{
    let descriptor: PluginDescriptor = serde_json::from_value(json::value_of(json)).map_err(|error| error.to_string())?;
    let class = descriptor.execution_class().as_str().to_owned();
    let profile = descriptor.runtime_profile().to_owned();
    let value = serde_json::to_value(descriptor).map_err(|error| error.to_string())?;
    Ok((class, profile, json::json_of(&value)))
}

/// The descriptor that `lenso_app_plan` resolves from a contract and a runtime selection, or the text of
/// the error where one of them is none.
pub uninterp spec fn resolved_descriptor(contract: JsonView, runtime: JsonView) -> Result<JsonView, Seq<char>>;

/// `PluginContract::resolve` joins a contract and one runtime selection. Both are read by
/// `serde_json::from_value`, and the descriptor is written again. An error is given by its text.
#[verifier::external_body]
fn resolve_contract(contract: &Json, runtime: &Json) -> (r: Result<Json, String>)
    requires
        contract.model().sound(),
        runtime.model().sound(),
    ensures
        r is Ok <==> resolved_descriptor(contract.model(), runtime.model()) is Ok,
        r is Ok ==> resolved_descriptor(contract.model(), runtime.model()) == Ok::<JsonView, Seq<char>>(r->Ok_0.model()),
        r is Err ==> resolved_descriptor(contract.model(), runtime.model()) == Err::<JsonView, Seq<char>>(r->Err_0@),
{
    let contract: PluginContract = serde_json::from_value(json::value_of(contract)).map_err(|error| error.to_string())?;
    let runtime: PluginImplementation = serde_json::from_value(json::value_of(runtime)).map_err(|error| error.to_string())?;
    let value = serde_json::to_value(contract.resolve(&runtime)).map_err(|error| error.to_string())?;
    Ok(json::json_of(&value))
}

/// The policy admits a runtime protocol.
pub open spec fn admits(runtimes: Seq<RuntimeAdmission>, execution_class: Seq<char>, runtime_profile: Seq<char>) -> bool {
    exists|i: int|
        0 <= i < runtimes.len() && (#[trigger] runtimes[i]).execution_class@ == execution_class && runtimes[i].runtime_profile@ == runtime_profile
}

/// An Artifact runs on a target: WebAssembly runs on every one.
pub open spec fn target_matches(artifact: PluginArtifactV2, host_target: Seq<char>) -> bool {
    artifact.media_type@ == "application/wasm"@ || artifact.target@ == host_target
}

/// Whether one implementation runs under an admitted protocol on a target.
pub open spec fn fits(item: PluginImplementationV3, admission: RuntimeAdmission, host_target: Seq<char>) -> bool {
    &&& item.runtime.execution_class@ == admission.execution_class@
    &&& item.runtime.runtime_profile@ == admission.runtime_profile@
    &&& texts(item.host_targets@).contains("*"@) || texts(item.host_targets@).contains(host_target)
}

/// The positions, among the first `n` implementations, of those that fit.
pub open spec fn fitting(items: Seq<PluginImplementationV3>, admission: RuntimeAdmission, host_target: Seq<char>, n: nat) -> Seq<int>
    decreases n,
{
    if n == 0 {
        Seq::empty()
    } else if fits(items[n - 1], admission, host_target) {
        fitting(items, admission, host_target, (n - 1) as nat).push(n - 1)
    } else {
        fitting(items, admission, host_target, (n - 1) as nat)
    }
}

/// What the admissions from the `k`th on select: the first under which some implementation fits, which
/// must be one alone.
pub open spec fn profiled(items: Seq<PluginImplementationV3>, policy: ImplementationPolicy, k: nat) -> Result<int, BundleFault>
    decreases policy.runtimes@.len() - k,
{
    if k >= policy.runtimes@.len() {
        Err(BundleFault::InvalidBundle("V3 Bundle has no implementation admitted by Host policy"@))
    } else {
        let admission = policy.runtimes@[k as int];
        let found = fitting(items, admission, policy.host_target@, items.len());
        if found.len() == 0 {
            profiled(items, policy, k + 1)
        } else if found.len() == 1 {
            Ok(found[0])
        } else {
            Err(
                BundleFault::InvalidBundle(
                    "Host policy ambiguously matches "@ + decimal(found.len()) + " implementations of `("@ + admission.execution_class@ + ", "@
                        + admission.runtime_profile@ + ")`"@,
                ),
            )
        }
    }
}

/// What selection comes to.
pub open spec fn selection(manifest: PluginManifest, policy: ImplementationPolicy) -> Result<
    (Seq<char>, JsonView, (Seq<char>, Seq<char>, u64, Seq<char>, Seq<char>)),
    BundleFault,
> {
    match manifest {
        PluginManifest::V2(value) => match read_descriptor(value.entry.descriptor.model()) {
            Err(detail) => Err(BundleFault::InvalidManifest(detail)),
            Ok((class, profile, descriptor)) => if !admits(policy.runtimes@, class, profile) || !target_matches(
                value.artifact,
                policy.host_target@,
            ) {
                Err(BundleFault::InvalidBundle("V2 Bundle has no implementation admitted by Host policy"@))
            } else {
                Ok(("default"@, descriptor, value.artifact.facts()))
            },
        },
        PluginManifest::V3(value) => match profiled(value.implementations@, policy, 0) {
            Err(found) => Err(found),
            Ok(i) => match resolved_descriptor(
                value.contract.document.model(),
                value.implementations@[i].runtime.document.model(),
            ) {
                Err(detail) => Err(BundleFault::InvalidManifest(detail)),
                Ok(descriptor) => Ok((value.implementations@[i].id@, descriptor, value.implementations@[i].artifact.facts())),
            },
        },
    }
}

/// Decides whether a policy admits a runtime protocol.
pub fn is_admitted(runtimes: &Vec<RuntimeAdmission>, execution_class: &str, runtime_profile: &str) -> (r: bool)
    ensures
        r == admits(runtimes@, execution_class@, runtime_profile@),
{
    let mut i: usize = 0;
    while i < runtimes.len()
        invariant
            i <= runtimes.len(),
            forall|k: int|
                0 <= k < i ==> !((#[trigger] runtimes@[k]).execution_class@ == execution_class@ && runtimes@[k].runtime_profile@
                    == runtime_profile@),
        decreases runtimes.len() - i,
    {
        if text::same(runtimes[i].execution_class.as_str(), execution_class) && text::same(
            runtimes[i].runtime_profile.as_str(),
            runtime_profile,
        ) {
            return true;
        }
        i = i + 1;
    }
    false
}

/// Selects the implementation that fits the first admitted protocol under which one fits. Selection
/// never falls back from one that is ambiguous.
pub fn resolve_profiled_implementation(items: &Vec<PluginImplementationV3>, policy: &ImplementationPolicy) -> (r: Result<usize, BundleError>)
    ensures
        match profiled(items@, *policy, 0) {
            Err(found) => r is Err && r->Err_0@ == found,
            Ok(i) => r is Ok && r->Ok_0 == i && i < items@.len(),
        },
{
    let mut k: usize = 0;
    while k < policy.runtimes.len()
        invariant
            k <= policy.runtimes.len(),
            profiled(items@, *policy, 0) == profiled(items@, *policy, k as nat),
        decreases policy.runtimes.len() - k,
    {
        let admission = &policy.runtimes[k];
        let mut count: usize = 0;
        let mut chosen: usize = 0;
        let mut i: usize = 0;
        while i < items.len()
            invariant
                i <= items.len(),
                count <= i,
                count == fitting(items@, *admission, policy.host_target@, i as nat).len(),
                count > 0 ==> chosen < i && fitting(items@, *admission, policy.host_target@, i as nat)[0] == chosen,
            decreases items.len() - i,
        {
            let item = &items[i];
            if text::same(item.runtime.execution_class.as_str(), admission.execution_class.as_str()) && text::same(
                item.runtime.runtime_profile.as_str(),
                admission.runtime_profile.as_str(),
            ) && (text::contains(&item.host_targets, "*") || text::contains(&item.host_targets, policy.host_target.as_str())) {
                if count == 0 {
                    chosen = i;
                }
                count = count + 1;
            }
            i = i + 1;
        }
        if count == 1 {
            return Ok(chosen);
        }
        if count > 1 {
            let number = text::print_u128(count as u128);
            let mut detail = text::around("Host policy ambiguously matches ", number.as_str(), " implementations of `(");
            detail.append(admission.execution_class.as_str());
            detail.append(", ");
            detail.append(admission.runtime_profile.as_str());
            detail.append(")`");
            return Err(BundleError::InvalidBundle(detail));
        }
        k = k + 1;
    }
    Err(BundleError::InvalidBundle("V3 Bundle has no implementation admitted by Host policy".to_owned()))
}

/// Selects one implementation deterministically. Selection never implies runtime fallback.
pub fn resolve_implementation(manifest: &PluginManifest, policy: &ImplementationPolicy) -> (r: Result<ResolvedPluginImplementation, BundleError>)
    requires
        manifest.sound(),
    ensures
        selection_outcome(r) == selection(*manifest, *policy),
{
    match manifest {
        PluginManifest::V2(value) => {
            let (class, profile, descriptor) = match descriptor_from_json(&value.entry.descriptor) {
                Ok(found) => found,
                Err(detail) => return Err(BundleError::InvalidManifest(detail)),
            };
            let on_target: bool = text::same(value.artifact.media_type.as_str(), "application/wasm") || text::same(
                value.artifact.target.as_str(),
                policy.host_target.as_str(),
            );
            if !is_admitted(&policy.runtimes, class.as_str(), profile.as_str()) || !on_target {
                return Err(BundleError::InvalidBundle("V2 Bundle has no implementation admitted by Host policy".to_owned()));
            }
            Ok(
                ResolvedPluginImplementation {
                    implementation_id: "default".to_owned(),
                    descriptor,
                    artifact: value.artifact.clone(),
                },
            )
        },
        PluginManifest::V3(value) => {
            let i: usize = match resolve_profiled_implementation(&value.implementations, policy) {
                Ok(i) => i,
                Err(error) => return Err(error),
            };
            let chosen = &value.implementations[i];
            match resolve_contract(&value.contract.document, &chosen.runtime.document) {
                Ok(descriptor) => Ok(
                    ResolvedPluginImplementation {
                        implementation_id: chosen.id.clone(),
                        descriptor,
                        artifact: chosen.artifact.clone(),
                    },
                ),
                Err(detail) => Err(BundleError::InvalidManifest(detail)),
            }
        },
    }
}

/// What the policy names first decides: an implementation is selected under the first admitted protocol
/// under which one fits, and later admissions do not matter.
pub proof fn earlier_admission_decides(items: Seq<PluginImplementationV3>, policy: ImplementationPolicy, other: ImplementationPolicy, k: nat)
    requires
        k < policy.runtimes@.len(),
        k < other.runtimes@.len(),
        policy.host_target@ == other.host_target@,
        forall|i: int| 0 <= i <= k ==> #[trigger] policy.runtimes@[i] == other.runtimes@[i],
        fitting(items, policy.runtimes@[k as int], policy.host_target@, items.len()).len() > 0,
    ensures
        profiled(items, policy, 0) == profiled(items, other, 0),
{
    admission_decides_from(items, policy, other, k, 0);
}

proof fn admission_decides_from(items: Seq<PluginImplementationV3>, policy: ImplementationPolicy, other: ImplementationPolicy, k: nat, from: nat)
    requires
        from <= k < policy.runtimes@.len(),
        k < other.runtimes@.len(),
        policy.host_target@ == other.host_target@,
        forall|i: int| 0 <= i <= k ==> #[trigger] policy.runtimes@[i] == other.runtimes@[i],
        fitting(items, policy.runtimes@[k as int], policy.host_target@, items.len()).len() > 0,
    ensures
        profiled(items, policy, from) == profiled(items, other, from),
    decreases k - from,
{
    assert(policy.runtimes@[from as int] == other.runtimes@[from as int]);
    if from < k {
        admission_decides_from(items, policy, other, k, from + 1);
    }
}

/// An implementation names the protocol and, among its targets, the Host's or every one.
pub open spec fn runs_under(item: PluginImplementationV3, execution_class: Seq<char>, runtime_profile: Seq<char>, host_target: Seq<char>) -> bool {
    &&& item.runtime.execution_class@ == execution_class
    &&& item.runtime.runtime_profile@ == runtime_profile
    &&& exists|t: int| 0 <= t < item.host_targets@.len() && ((#[trigger] item.host_targets@[t])@ == "*"@ || item.host_targets@[t]@ == host_target)
}

proof fn lemma_runs_under(item: PluginImplementationV3, admission: RuntimeAdmission, host_target: Seq<char>)
    ensures
        fits(item, admission, host_target) <==> runs_under(item, admission.execution_class@, admission.runtime_profile@, host_target),
{
    let targets = texts(item.host_targets@);
    if targets.contains("*"@) {
        let t = choose|t: int| 0 <= t < targets.len() && targets[t] == "*"@;
        assert(item.host_targets@[t]@ == "*"@);
    }
    if targets.contains(host_target) {
        let t = choose|t: int| 0 <= t < targets.len() && targets[t] == host_target;
        assert(item.host_targets@[t]@ == host_target);
    }
    if exists|t: int| 0 <= t < item.host_targets@.len() && ((#[trigger] item.host_targets@[t])@ == "*"@ || item.host_targets@[t]@ == host_target) {
        let t = choose|t: int|
            0 <= t < item.host_targets@.len() && ((#[trigger] item.host_targets@[t])@ == "*"@ || item.host_targets@[t]@ == host_target);
        assert(targets[t] == item.host_targets@[t]@);
    }
}

/// The positions that fit are those of the implementations that run under the protocol, in order.
proof fn lemma_fitting(items: Seq<PluginImplementationV3>, admission: RuntimeAdmission, host_target: Seq<char>, n: nat)
    requires
        n <= items.len(),
    ensures
        ({
            let found = fitting(items, admission, host_target, n);
            &&& forall|m: int| 0 <= m < found.len() ==> 0 <= #[trigger] found[m] < n && runs_under(
                items[found[m]],
                admission.execution_class@,
                admission.runtime_profile@,
                host_target,
            )
            &&& forall|i: int| 0 <= i < n && runs_under(#[trigger] items[i], admission.execution_class@, admission.runtime_profile@, host_target)
                ==> found.contains(i)
            &&& forall|a: int, b: int| 0 <= a < b < found.len() ==> #[trigger] found[a] < #[trigger] found[b]
        }),
    decreases n,
{
    if n > 0 {
        lemma_fitting(items, admission, host_target, (n - 1) as nat);
        lemma_runs_under(items[n - 1], admission, host_target);
        let earlier = fitting(items, admission, host_target, (n - 1) as nat);
        let found = fitting(items, admission, host_target, n);
        assert forall|i: int| 0 <= i < n && runs_under(#[trigger] items[i], admission.execution_class@, admission.runtime_profile@, host_target) implies found.contains(
            i,
        ) by {
            if i < n - 1 {
                let m = choose|m: int| 0 <= m < earlier.len() && earlier[m] == i;
                assert(found[m] == i);
            } else {
                assert(found[earlier.len() as int] == i);
            }
        }
    }
}

/// A selected implementation runs on the Host under a protocol that the policy admits, and it is the
/// only one that does: selection never guesses between two.
pub proof fn a_selected_implementation_runs_here(items: Seq<PluginImplementationV3>, policy: ImplementationPolicy, i: int, other: int)
    requires
        profiled(items, policy, 0) == Ok::<int, BundleFault>(i),
    ensures
        0 <= i < items.len(),
        exists|t: int|
            0 <= t < items[i].host_targets@.len() && ((#[trigger] items[i].host_targets@[t])@ == "*"@ || items[i].host_targets@[t]@
                == policy.host_target@),
        exists|k: int|
            0 <= k < policy.runtimes@.len() && (#[trigger] policy.runtimes@[k]).execution_class@ == items[i].runtime.execution_class@
                && policy.runtimes@[k].runtime_profile@ == items[i].runtime.runtime_profile@,
        0 <= other < items.len() && other != i ==> !runs_under(
            items[other],
            items[i].runtime.execution_class@,
            items[i].runtime.runtime_profile@,
            policy.host_target@,
        ),
{
    selected_from(items, policy, 0, i, other);
}

proof fn selected_from(items: Seq<PluginImplementationV3>, policy: ImplementationPolicy, k: nat, i: int, other: int)
    requires
        profiled(items, policy, k) == Ok::<int, BundleFault>(i),
    ensures
        0 <= i < items.len(),
        exists|n: int|
            k <= n < policy.runtimes@.len() && runs_under(
                items[i],
                (#[trigger] policy.runtimes@[n]).execution_class@,
                policy.runtimes@[n].runtime_profile@,
                policy.host_target@,
            ),
        0 <= other < items.len() && other != i ==> !runs_under(
            items[other],
            items[i].runtime.execution_class@,
            items[i].runtime.runtime_profile@,
            policy.host_target@,
        ),
    decreases policy.runtimes@.len() - k,
{
    let admission = policy.runtimes@[k as int];
    let found = fitting(items, admission, policy.host_target@, items.len());
    lemma_fitting(items, admission, policy.host_target@, items.len());
    if found.len() == 0 {
        selected_from(items, policy, k + 1, i, other);
    } else {
        assert(found[0] == i);
        assert(policy.runtimes@[k as int] == admission);
        if 0 <= other < items.len() && other != i && runs_under(
            items[other],
            items[i].runtime.execution_class@,
            items[i].runtime.runtime_profile@,
            policy.host_target@,
        ) {
            assert(found.contains(other));
        }
    }
}

/// Selection finds what is there: where one implementation alone runs under the protocol that the policy
/// names first among those under which any runs, it is selected; where more do, selection is refused;
/// and where none runs under any admitted protocol, it is refused too.
pub proof fn selection_finds_the_one_that_runs(items: Seq<PluginImplementationV3>, policy: ImplementationPolicy, k: int, i: int)
    requires
        0 <= k <= policy.runtimes@.len(),
        forall|n: int, j: int|
            0 <= n < k && 0 <= j < items.len() ==> !runs_under(
                #[trigger] items[j],
                (#[trigger] policy.runtimes@[n]).execution_class@,
                policy.runtimes@[n].runtime_profile@,
                policy.host_target@,
            ),
        k < policy.runtimes@.len() ==> 0 <= i < items.len() && runs_under(
            items[i],
            policy.runtimes@[k].execution_class@,
            policy.runtimes@[k].runtime_profile@,
            policy.host_target@,
        ),
    ensures
        k == policy.runtimes@.len() ==> profiled(items, policy, 0) is Err,
        k < policy.runtimes@.len() && (forall|j: int|
            0 <= j < items.len() && j != i ==> !runs_under(
                #[trigger] items[j],
                policy.runtimes@[k].execution_class@,
                policy.runtimes@[k].runtime_profile@,
                policy.host_target@,
            )) ==> profiled(items, policy, 0) == Ok::<int, BundleFault>(i),
        k < policy.runtimes@.len() && (exists|j: int|
            0 <= j < items.len() && j != i && runs_under(
                #[trigger] items[j],
                policy.runtimes@[k].execution_class@,
                policy.runtimes@[k].runtime_profile@,
                policy.host_target@,
            )) ==> profiled(items, policy, 0) is Err,
{
    reached_from(items, policy, k, 0);
    if k < policy.runtimes@.len() {
        let admission = policy.runtimes@[k];
        let found = fitting(items, admission, policy.host_target@, items.len());
        lemma_fitting(items, admission, policy.host_target@, items.len());
        assert(found.contains(i));
        let m = choose|m: int| 0 <= m < found.len() && found[m] == i;
        if exists|j: int|
            0 <= j < items.len() && j != i && runs_under(
                #[trigger] items[j],
                admission.execution_class@,
                admission.runtime_profile@,
                policy.host_target@,
            ) {
            let j = choose|j: int|
                0 <= j < items.len() && j != i && runs_under(
                    #[trigger] items[j],
                    admission.execution_class@,
                    admission.runtime_profile@,
                    policy.host_target@,
                );
            assert(found.contains(j));
        } else if found.len() > 1 {
            let o = if m == 0 { 1int } else { 0int };
            assert(found[o] != i);
            assert(runs_under(items[found[o]], admission.execution_class@, admission.runtime_profile@, policy.host_target@));
        }
    }
}

proof fn reached_from(items: Seq<PluginImplementationV3>, policy: ImplementationPolicy, k: int, from: nat)
    requires
        from <= k <= policy.runtimes@.len(),
        forall|n: int, j: int|
            0 <= n < k && 0 <= j < items.len() ==> !runs_under(
                #[trigger] items[j],
                (#[trigger] policy.runtimes@[n]).execution_class@,
                policy.runtimes@[n].runtime_profile@,
                policy.host_target@,
            ),
    ensures
        profiled(items, policy, from) == profiled(items, policy, k as nat),
    decreases k - from,
{
    if from < k {
        let admission = policy.runtimes@[from as int];
        let found = fitting(items, admission, policy.host_target@, items.len());
        lemma_fitting(items, admission, policy.host_target@, items.len());
        if found.len() > 0 {
            let j = found[0];
            assert(runs_under(items[j], policy.runtimes@[from as int].execution_class@, policy.runtimes@[from as int].runtime_profile@, policy.host_target@));
        }
        reached_from(items, policy, k, from + 1);
    }
}

/// An implementation for other targets, or for protocols that the policy does not admit, never changes
/// what is selected: without it the same implementation is selected, or selection fails alike.
pub proof fn an_unfit_implementation_changes_nothing(items: Seq<PluginImplementationV3>, policy: ImplementationPolicy, j: int)
    requires
        0 <= j < items.len(),
        (forall|t: int|
            0 <= t < items[j].host_targets@.len() ==> (#[trigger] items[j].host_targets@[t])@ != "*"@ && items[j].host_targets@[t]@
                != policy.host_target@) || (forall|k: int|
            0 <= k < policy.runtimes@.len() ==> (#[trigger] policy.runtimes@[k]).execution_class@ != items[j].runtime.execution_class@
                || policy.runtimes@[k].runtime_profile@ != items[j].runtime.runtime_profile@),
    ensures
        match profiled(items, policy, 0) {
            Ok(i) => i != j && profiled(items.remove(j), policy, 0) == Ok::<int, BundleFault>(if i < j { i } else { i - 1 }),
            Err(fault) => profiled(items.remove(j), policy, 0) == Err::<int, BundleFault>(fault),
        },
{
    unfit_from(items, policy, j, 0);
}

proof fn unfit_from(items: Seq<PluginImplementationV3>, policy: ImplementationPolicy, j: int, k: nat)
    requires
        0 <= j < items.len(),
        forall|n: int|
            0 <= n < policy.runtimes@.len() ==> !runs_under(
                items[j],
                (#[trigger] policy.runtimes@[n]).execution_class@,
                policy.runtimes@[n].runtime_profile@,
                policy.host_target@,
            ),
    ensures
        match profiled(items, policy, k) {
            Ok(i) => i != j && profiled(items.remove(j), policy, k) == Ok::<int, BundleFault>(if i < j { i } else { i - 1 }),
            Err(fault) => profiled(items.remove(j), policy, k) == Err::<int, BundleFault>(fault),
        },
    decreases policy.runtimes@.len() - k,
{
    if k < policy.runtimes@.len() {
        let admission = policy.runtimes@[k as int];
        unfit_fitting(items, admission, policy.host_target@, j, items.len());
        unfit_from(items, policy, j, k + 1);
    }
}

proof fn unfit_fitting(items: Seq<PluginImplementationV3>, admission: RuntimeAdmission, host_target: Seq<char>, j: int, n: nat)
    requires
        0 <= j < items.len(),
        n <= items.len(),
        !runs_under(items[j], admission.execution_class@, admission.runtime_profile@, host_target),
    ensures
        ({
            let found = fitting(items, admission, host_target, n);
            let left = fitting(items.remove(j), admission, host_target, if n > j { (n - 1) as nat } else { n });
            &&& left.len() == found.len()
            &&& forall|m: int| 0 <= m < found.len() ==> #[trigger] found[m] != j && left[m] == (if found[m] < j { found[m] } else { found[m] - 1 })
        }),
    decreases n,
{
    if n > 0 {
        unfit_fitting(items, admission, host_target, j, (n - 1) as nat);
        lemma_runs_under(items[n - 1], admission, host_target);
        lemma_runs_under(items[j], admission, host_target);
        if n - 1 < j {
            assert(items.remove(j)[n - 1] == items[n - 1]);
        } else if n - 1 > j {
            assert(items.remove(j)[n - 2] == items[n - 1]);
        }
    }
}

/// A Release is selected under Host policy alone. In its single-artifact form it is the default
/// implementation: its protocol is admitted, and its Artifact is WebAssembly or built for the Host. With
/// several, it is the one that selection finds, with its own identity and Artifact, and the descriptor
/// that its contract and runtime resolve to.
pub proof fn a_selected_release_runs_here(manifest: PluginManifest, policy: ImplementationPolicy)
    ensures
        selection(manifest, policy) matches Ok((id, descriptor, artifact)) ==> match manifest {
            PluginManifest::V2(value) => {
                &&& id == "default"@
                &&& artifact == value.artifact.facts()
                &&& value.artifact.media_type@ == "application/wasm"@ || value.artifact.target@ == policy.host_target@
                &&& read_descriptor(value.entry.descriptor.model()) matches Ok((class, profile, found)) && descriptor == found && exists|k: int|
                    0 <= k < policy.runtimes@.len() && (#[trigger] policy.runtimes@[k]).execution_class@ == class
                        && policy.runtimes@[k].runtime_profile@ == profile
            },
            PluginManifest::V3(value) => exists|i: int| {
                &&& 0 <= i < value.implementations@.len()
                &&& (#[trigger] value.implementations@[i]).id@ == id
                &&& value.implementations@[i].artifact.facts() == artifact
                &&& resolved_descriptor(value.contract.document.model(), value.implementations@[i].runtime.document.model()) == Ok::<
                    JsonView,
                    Seq<char>,
                >(descriptor)
                &&& exists|t: int|
                    0 <= t < value.implementations@[i].host_targets@.len() && ((#[trigger] value.implementations@[i].host_targets@[t])@ == "*"@
                        || value.implementations@[i].host_targets@[t]@ == policy.host_target@)
                &&& exists|k: int|
                    0 <= k < policy.runtimes@.len() && (#[trigger] policy.runtimes@[k]).execution_class@
                        == value.implementations@[i].runtime.execution_class@ && policy.runtimes@[k].runtime_profile@
                        == value.implementations@[i].runtime.runtime_profile@
            },
        },
        manifest matches PluginManifest::V2(value) ==> (read_descriptor(value.entry.descriptor.model()) matches Ok((class, profile, found)) ==> (exists|k: int|
            0 <= k < policy.runtimes@.len() && (#[trigger] policy.runtimes@[k]).execution_class@ == class && policy.runtimes@[k].runtime_profile@
                == profile) && (value.artifact.media_type@ == "application/wasm"@ || value.artifact.target@ == policy.host_target@) ==> selection(
            manifest,
            policy,
        ) is Ok),
{
    match manifest {
        PluginManifest::V2(value) => {},
        PluginManifest::V3(value) => {
            if selection(manifest, policy) is Ok {
                let i = profiled(value.implementations@, policy, 0)->Ok_0;
                a_selected_implementation_runs_here(value.implementations@, policy, i, i);
            }
        },
    }
}

} // verus!
