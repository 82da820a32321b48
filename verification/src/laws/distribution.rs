//! Laws of distributions: what is accepted as one, and what a Generation that is closed over one is made of.
use vstd::prelude::*;

use crate::canonical::CanonicalDocument;
use crate::distribution::{
    artifact_identity, artifact_location, authority_of, choice, choice_fault, entry_fault, file_fault, first_offer, inside, is_locked, lock_fault,
    locked_file, offered, required_roles, resolution_fault, resolved_artifacts, role_at, roles_fault, BundleInventory, DistributionFile,
    DistributionLock, FoundFile, RuntimeResolution,
};
use crate::digest::{digest_of, digest_syntax};
use crate::generation::ResolvedGeneration;
use crate::model::{AdapterProfile, HostBuildManifest, HostExecutionPolicy};
use crate::paths::{last_name, leads_down};
use crate::plan::{instance_position, plan_verdict, PlanInstance};
use crate::resolver::{artifacts_are_ordered, artifacts_fault, generation_of, input_fault, resources_fault, PlanArtifact, PlanGenerationInput};
use crate::text::{blank, decimal, texts};

verus! {

/// A lock is accepted exactly where it can be read, has the known schema and an App and a target, names
/// the platform and the architecture of this Host by their names in distributions, and is not too long.
pub proof fn a_distribution_opens_on_its_own_platform(lock: DistributionLock, os: Seq<char>, arch: Seq<char>)
    ensures
        lock_fault(Ok(lock), os, arch) is None <==> {
            &&& lock.schema@ == "lenso.host-distribution.v1"@
            &&& !blank(lock.app_id@)
            &&& !blank(lock.target@)
            &&& os == "macos"@ ==> lock.platform@ == "darwin"@
            &&& os != "macos"@ ==> lock.platform@ == os
            &&& arch == "aarch64"@ ==> lock.arch@ == "arm64"@
            &&& arch == "x86_64"@ ==> lock.arch@ == "x64"@
            &&& arch != "aarch64"@ && arch != "x86_64"@ ==> lock.arch@ == arch
            &&& lock.files@.len() <= 2048
        },
{
    reveal_strlit("aarch64");
    reveal_strlit("x86_64");
    assert("aarch64"@.len() != "x86_64"@.len());
}

/// A file of a distribution is accepted exactly as the lock has it: a regular file of the same size and
/// content, and executable where it has to be.
pub proof fn a_file_is_accepted_as_it_is_locked(expected: DistributionFile, found: FoundFile, bytes: Seq<u8>)
    ensures
        file_fault(expected, found, bytes) is None <==> {
            &&& found.regular
            &&& found.size == expected.size
            &&& expected.executable ==> found.executable
            &&& digest_of(bytes) == expected.sha256@
        },
{
}

/// An entry of a lock is accepted exactly where its path stays inside the distribution and has no
/// platform-specific separator, its digest is one, it has a role, and no earlier entry has its path.
pub proof fn a_locked_path_stays_inside(file: DistributionFile, earlier: Seq<Seq<char>>)
    ensures
        entry_fault(file, earlier) is None <==> {
            &&& file.path@.len() > 0
            &&& !file.path@.contains('\\')
            &&& leads_down(file.path@)
            &&& digest_syntax(file.sha256@)
            &&& !blank(file.role@)
            &&& !earlier.contains(file.path@)
        },
{
}

/// One file has the role, no other does, and it is at the path.
pub open spec fn alone_at(files: Seq<DistributionFile>, role: Seq<char>, path: Seq<char>) -> bool {
    exists|i: int|
        0 <= i < files.len() && (#[trigger] files[i]).role@ == role && files[i].path@ == path && forall|k: int|
            0 <= k < files.len() && k != i ==> (#[trigger] files[k]).role@ != role
}

proof fn lemma_roles(files: Seq<DistributionFile>, k: nat, n: int)
    requires
        k <= n < required_roles().len(),
        roles_fault(files, k) is None,
    ensures
        role_at(files, required_roles()[n].0, required_roles()[n].1),
    decreases n - k,
{
    if k < n {
        lemma_roles(files, k + 1, n);
    }
}

/// A Host distribution has what a Host needs, each once and in its place.
pub proof fn a_distribution_has_what_a_host_needs(files: Seq<DistributionFile>)
    requires
        roles_fault(files, 0) is None,
    ensures
        alone_at(files, "host_authority"@, ".lenso/host-build.json"@),
        alone_at(files, "bundle_inventory"@, "bundles.json"@),
        alone_at(files, "host_runtime"@, "runtime/lenso-host-runtime"@),
        alone_at(files, "runtime_resolver"@, "runtime/lenso-resolver"@),
        alone_at(files, "process_owner"@, "runtime/lenso-process-owner"@),
        alone_at(files, "entrypoint"@, "host.js"@),
        alone_at(files, "notices"@, "THIRD_PARTY_NOTICES.txt"@),
{
    let roles = required_roles();
    assert(roles.len() == 7);
    lemma_roles(files, 0, 0);
    lemma_roles(files, 0, 1);
    lemma_roles(files, 0, 2);
    lemma_roles(files, 0, 3);
    lemma_roles(files, 0, 4);
    lemma_roles(files, 0, 5);
    lemma_roles(files, 0, 6);
    assert forall|role: Seq<char>, path: Seq<char>| role_at(files, role, path) implies alone_at(files, role, path) by {
        let i = choose|i: int| {
            &&& 0 <= i < files.len()
            &&& (#[trigger] files[i]).role@ == role
            &&& files[i].path@ == path
            &&& forall|k: int| 0 <= k < files.len() && (#[trigger] files[k]).role@ == role ==> k == i
        };
        assert(files[i].role@ == role);
    }
    assert(alone_at(files, roles[0].0, roles[0].1));
    assert(alone_at(files, roles[1].0, roles[1].1));
    assert(alone_at(files, roles[2].0, roles[2].1));
    assert(alone_at(files, roles[3].0, roles[3].1));
    assert(alone_at(files, roles[4].0, roles[4].1));
    assert(alone_at(files, roles[5].0, roles[5].1));
    assert(alone_at(files, roles[6].0, roles[6].1));
}

/// A resolution belongs to a distribution exactly where it has the known schema, is of the same App,
/// carries digests, has a valid Plan, and was made under the Host authority that the lock holds.
pub proof fn a_resolution_is_of_its_distribution(lock: DistributionLock, resolution: RuntimeResolution)
    ensures
        resolution_fault(lock, resolution) is None <==> {
            &&& resolution.schema@ == "lenso.runtime-app-resolution.v1"@
            &&& resolution.app_id@ == lock.app_id@
            &&& digest_syntax(resolution.authority_digest@)
            &&& digest_syntax(resolution.host_build_digest@)
            &&& digest_syntax(resolution.plugin_root_revision@)
            &&& plan_verdict(resolution.plan.bytes@) is Ok
            &&& resolution.host_build_digest@ == locked_file(lock.files@, ".lenso/host-build.json"@).sha256@
        },
{
}

/// An entry of the inventory is for the Instance: its Plugin, its release, its class, on the target.
pub open spec fn is_for(item: BundleInventory, instance: PlanInstance, target: Seq<char>) -> bool {
    &&& item.plugin_id@ == instance.package_id@
    &&& item.release_version@ == instance.package_revision@
    &&& item.execution_class@ == instance.execution_class@
    &&& item.target@ == target
}

/// Two entries of the inventory have one Artifact.
pub open spec fn one_artifact(a: BundleInventory, b: BundleInventory) -> bool {
    &&& a.implementation_id@ == b.implementation_id@
    &&& a.artifact_digest@ == b.artifact_digest@
    &&& a.artifact_size == b.artifact_size
    &&& a.artifact_media_type@ == b.artifact_media_type@
    &&& a.artifact_target@ == b.artifact_target@
    &&& a.artifact_path@ == b.artifact_path@
}

proof fn lemma_first_offer(inventory: Seq<BundleInventory>, instance: PlanInstance, target: Seq<char>, k: nat)
    ensures
        first_offer(inventory, instance, target, k) matches Some(i) ==> k <= i < inventory.len() && is_for(inventory[i], instance, target)
            && forall|n: int| k <= n < i ==> !is_for(#[trigger] inventory[n], instance, target),
        first_offer(inventory, instance, target, k) is None ==> forall|n: int| k <= n < inventory.len() ==> !is_for(
            #[trigger] inventory[n],
            instance,
            target,
        ),
    decreases inventory.len() - k,
{
    if k < inventory.len() {
        lemma_first_offer(inventory, instance, target, k + 1);
        assert(offered(inventory[k as int], instance, target) <==> is_for(inventory[k as int], instance, target));
    }
}

/// The Artifact that is chosen for an Instance is the first one that the inventory offers for it, every
/// other offer is of the same Artifact, and the distribution holds it: at the place of its position, as a
/// Plugin Artifact, with its digest and its size, beside its Bundle.
pub proof fn a_chosen_artifact_is_offered_and_locked(
    lock: DistributionLock,
    inventory: Seq<BundleInventory>,
    instance: PlanInstance,
    j: int,
    relative: Seq<char>,
    n: int,
)
    requires
        choice(lock, inventory, instance) == Ok::<(int, Seq<char>), Seq<char>>((j, relative)),
    ensures
        0 <= j < inventory.len(),
        is_for(inventory[j], instance, lock.target@),
        0 <= n < inventory.len() && is_for(inventory[n], instance, lock.target@) ==> j <= n && one_artifact(inventory[n], inventory[j]),
        relative == "artifacts/"@ + decimal(j as nat) + "/"@ + last_name(inventory[j].artifact_path@),
        digest_syntax(inventory[j].manifest_digest@),
        digest_syntax(inventory[j].artifact_digest@),
        leads_down(inventory[j].path@),
        leads_down(inventory[j].artifact_path@),
        is_locked(lock.files@, inventory[j].path@),
        locked_file(lock.files@, inventory[j].path@).role@ == "plugin_bundle"@,
        is_locked(lock.files@, relative),
        locked_file(lock.files@, relative).role@ == "plugin_artifact"@,
        locked_file(lock.files@, relative).sha256@ == inventory[j].artifact_digest@,
        locked_file(lock.files@, relative).size == inventory[j].artifact_size,
        !blank(inventory[j].implementation_id@),
        !blank(inventory[j].artifact_media_type@),
        !blank(inventory[j].artifact_target@),
{
    lemma_first_offer(inventory, instance, lock.target@, 0);
    if 0 <= n < inventory.len() && is_for(inventory[n], instance, lock.target@) && n > j {
        assert(offered(inventory[n], instance, lock.target@));
        assert(artifact_identity(inventory[n]) == artifact_identity(inventory[j]));
    }
}

/// Without an offer there is no choice, and neither is there between two Artifacts that are offered for
/// one Instance.
pub proof fn no_artifact_is_guessed(lock: DistributionLock, inventory: Seq<BundleInventory>, instance: PlanInstance, a: int, b: int)
    ensures
        (forall|n: int| 0 <= n < inventory.len() ==> !is_for(#[trigger] inventory[n], instance, lock.target@)) ==> choice(lock, inventory, instance) is Err,
        0 <= a < inventory.len() && 0 <= b < inventory.len() && is_for(inventory[a], instance, lock.target@) && is_for(
            inventory[b],
            instance,
            lock.target@,
        ) && !one_artifact(inventory[a], inventory[b]) ==> choice(lock, inventory, instance) is Err,
        0 <= a < inventory.len() && is_for(inventory[a], instance, lock.target@) && (forall|n: int|
            0 <= n < inventory.len() && n != a ==> !is_for(#[trigger] inventory[n], instance, lock.target@)) && digest_syntax(
            inventory[a].manifest_digest@,
        ) && digest_syntax(inventory[a].artifact_digest@) && inside(inventory[a].path@) && inside(inventory[a].artifact_path@) && is_locked(
            lock.files@,
            inventory[a].path@,
        ) && locked_file(lock.files@, inventory[a].path@).role@ == "plugin_bundle"@ && !blank(inventory[a].implementation_id@) && !blank(
            inventory[a].artifact_media_type@,
        ) && !blank(inventory[a].artifact_target@) && is_locked(lock.files@, artifact_location(a, inventory[a])) && locked_file(
            lock.files@,
            artifact_location(a, inventory[a]),
        ).role@ == "plugin_artifact"@ && locked_file(lock.files@, artifact_location(a, inventory[a])).sha256@ == inventory[a].artifact_digest@
            && locked_file(lock.files@, artifact_location(a, inventory[a])).size == inventory[a].artifact_size ==> choice(lock, inventory, instance)
            == Ok::<(int, Seq<char>), Seq<char>>((a, artifact_location(a, inventory[a]))),
{
    lemma_first_offer(inventory, instance, lock.target@, 0);
    if choice(lock, inventory, instance) is Ok {
        let (j, relative) = choice(lock, inventory, instance)->Ok_0;
        a_chosen_artifact_is_offered_and_locked(lock, inventory, instance, j, relative, a);
        a_chosen_artifact_is_offered_and_locked(lock, inventory, instance, j, relative, b);
    }
    if 0 <= a < inventory.len() && is_for(inventory[a], instance, lock.target@) && (forall|n: int|
        0 <= n < inventory.len() && n != a ==> !is_for(#[trigger] inventory[n], instance, lock.target@)) {
        assert(first_offer(inventory, instance, lock.target@, 0) == Some(a));
        assert(!crate::distribution::ambiguous(inventory, instance, lock.target@, a)) by {
            if crate::distribution::ambiguous(inventory, instance, lock.target@, a) {
                let i = choose|i: int|
                    a < i < inventory.len() && offered(#[trigger] inventory[i], instance, lock.target@) && artifact_identity(inventory[i])
                        != artifact_identity(inventory[a]);
                assert(is_for(inventory[i], instance, lock.target@));
            }
        }
        assert(choice(lock, inventory, instance) == match choice_fault(lock.files@, a, inventory[a]) {
            Some(detail) => Err::<(int, Seq<char>), Seq<char>>(detail),
            None => Ok((a, artifact_location(a, inventory[a]))),
        });
    }
}

/// The Artifacts of a Plan are one for each Instance, in the order of the Instances, each of the Plugin
/// and the kind that the inventory names for it.
pub proof fn every_instance_has_its_artifact(
    lock: DistributionLock,
    inventory: Seq<BundleInventory>,
    instances: Seq<PlanInstance>,
    artifacts: Seq<PlanArtifact>,
    i: int,
)
    requires
        resolved_artifacts(lock, inventory, instances, artifacts),
        0 <= i < instances.len(),
    ensures
        artifacts.len() == instances.len(),
        artifacts[i].instance_key@ == instances[i].instance_key@,
        artifacts[i].plugin_id@ == instances[i].package_id@,
        exists|j: int| {
            &&& 0 <= j < inventory.len()
            &&& is_for(#[trigger] inventory[j], instances[i], lock.target@)
            &&& artifacts[i].artifact_id@ == inventory[j].implementation_id@
            &&& artifacts[i].media_type@ == inventory[j].artifact_media_type@
            &&& artifacts[i].target@ == inventory[j].artifact_target@
        },
{
    let found = choice(lock, inventory, instances[i])->Ok_0;
    assert(crate::distribution::resolved_artifact(lock, inventory, instances[i], artifacts[i]));
    a_chosen_artifact_is_offered_and_locked(lock, inventory, instances[i], found.0, found.1, found.0);
}

/// The Host authority binds the executable that runs and the target, has a profile for every class that
/// the Plan selects, under the build identity of what runs it, and for no other; and the policy binds
/// that authority and prefers the same classes.
pub proof fn host_authority_binds_what_runs(
    host_build: CanonicalDocument<HostBuildManifest>,
    policy: CanonicalDocument<HostExecutionPolicy>,
    lock: DistributionLock,
    instances: Seq<PlanInstance>,
    i: int,
    p: int,
)
    requires
        authority_of(host_build, policy, lock, instances),
        0 <= i < instances.len(),
    ensures
        host_build.typed().app_id@ == lock.app_id@,
        policy.typed().app_id@ == lock.app_id@,
        host_build.typed().target@ == lock.target@,
        policy.typed().target@ == lock.target@,
        host_build.typed().embedded_plugins@.len() == 0,
        host_build.typed().host_executable_digest@ == locked_file(lock.files@, "runtime/lenso-host-runtime"@).sha256@,
        policy.typed().host_build_manifest_digest@ == host_build.identity(),
        texts(policy.typed().preference@).contains(instances[i].execution_class@),
        host_build.typed().adapter_profiles@.len() == policy.typed().preference@.len(),
        0 <= p < policy.typed().preference@.len() ==> {
            let profile = host_build.typed().adapter_profiles@[p];
            let class = policy.typed().preference@[p]@;
            let runtime = locked_file(lock.files@, "runtime/lenso-host-runtime"@).sha256@;
            &&& profile.execution_class@ == class
            &&& texts(profile.targets@) == seq![lock.target@]
            &&& texts(profile.profiles@) == seq!["request"@]
            &&& class != "lenso.bun-process@1"@ ==> profile.adapter_build_identity@ == runtime
            &&& class == "lenso.bun-process@1"@ ==> profile.adapter_build_identity@ == digest_of(
                vstd::utf8::encode_utf8(runtime + "\n"@ + locked_file(lock.files@, "runtime/bun"@).sha256@),
            )
            &&& exists|k: int| 0 <= k < instances.len() && (#[trigger] instances[k]).execution_class@ == class
        },
{
    let preference = texts(policy.typed().preference@);
    assert(crate::catalog::selects(instances, instances[i].execution_class@));
    let facts = host_build.typed().adapter_profiles@.map_values(|item: AdapterProfile| crate::distribution::profile_facts(item));
    let wanted = preference.map_values(
        |class: Seq<char>| (class, crate::distribution::adapter_identity(lock.files@, class), seq![lock.target@], seq!["request"@]),
    );
    assert(facts == wanted);
    assert(facts.len() == wanted.len());
    if 0 <= p < preference.len() {
        assert(facts[p] == crate::distribution::profile_facts(host_build.typed().adapter_profiles@[p]));
        assert(preference[p] == policy.typed().preference@[p]@);
        assert(preference.contains(preference[p]));
        assert(crate::catalog::selects(instances, preference[p]));
    }
}

proof fn lemma_artifacts_fit(instances: Seq<PlanInstance>, artifacts: Seq<PlanArtifact>, n: nat, a: int, b: int)
    requires
        artifacts_fault(instances, artifacts, n) is None,
        0 <= a < n <= artifacts.len(),
    ensures
        exists|k: int| 0 <= k < instances.len() && (#[trigger] instances[k]).instance_key@ == artifacts[a].instance_key@,
        0 <= b < a ==> artifacts[b].instance_key@ != artifacts[a].instance_key@,
    decreases n,
{
    if a < n - 1 {
        lemma_artifacts_fit(instances, artifacts, (n - 1) as nat, a, b);
    } else {
        assert(instance_position(instances, artifacts[a].instance_key@) is Some);
        if 0 <= b < a {
            assert(artifacts[b].instance_key@ != artifacts[a].instance_key@);
        }
    }
}

proof fn lemma_resources_fit(instances: Seq<PlanInstance>, input: PlanGenerationInput, n: nat, a: int)
    requires
        resources_fault(instances, input.resources.entries(), n) is None,
        0 <= a < n <= input.resources.entries().len(),
    ensures
        exists|k: int| 0 <= k < instances.len() && (#[trigger] instances[k]).instance_key@ == input.resources.entries()[a].0,
    decreases n,
{
    if a < n - 1 {
        lemma_resources_fit(instances, input, (n - 1) as nat, a);
    }
}

/// A Generation is closed only over inputs that agree: one App throughout, a digest as authority, and
/// Artifacts and supporting files for Instances of the Plan alone, no two Artifacts for one.
pub proof fn a_generation_is_closed_over_one_app(input: PlanGenerationInput, a: int, b: int)
    requires
        input_fault(input) is None,
    ensures
        !blank(input.app_id@),
        "sha256:"@.is_prefix_of(input.authority_digest@),
        input.host_build.typed().app_id@ == input.app_id@,
        input.policy.typed().app_id@ == input.app_id@,
        0 <= a < input.artifacts@.len() ==> exists|k: int|
            0 <= k < input.plan.instances@.len() && (#[trigger] input.plan.instances@[k]).instance_key@ == input.artifacts@[a].instance_key@,
        0 <= b < a < input.artifacts@.len() ==> input.artifacts@[b].instance_key@ != input.artifacts@[a].instance_key@,
        0 <= a < input.resources.entries().len() ==> exists|k: int|
            0 <= k < input.plan.instances@.len() && (#[trigger] input.plan.instances@[k]).instance_key@ == input.resources.entries()[a].0,
{
    if 0 <= a < input.artifacts@.len() {
        lemma_artifacts_fit(input.plan.instances@, input.artifacts@, input.artifacts@.len(), a, b);
    }
    if 0 <= a < input.resources.entries().len() {
        lemma_resources_fit(input.plan.instances@, input, input.resources.entries().len(), a);
    }
}

/// The identity of a Generation binds everything that it is made of: its App, the Host build, the policy,
/// the bytes of its Plan, the authority behind it, its Artifacts and its grants, of which it has none.
/// Each Instance has the Artifact that was selected for it, and the set names every selected Artifact.
pub proof fn a_generation_binds_what_it_is_made_of(generation: ResolvedGeneration, input: PlanGenerationInput, i: int)
    requires
        generation_of(generation, input),
    ensures
        ({
            let spec = generation.spec.typed();
            &&& spec.app_id@ == input.app_id@
            &&& spec.host_build_manifest_digest@ == input.host_build.identity()
            &&& spec.host_execution_policy_digest@ == input.policy.identity()
            &&& spec.resolved_plan_digest@ == digest_of(input.plan.bytes@)
            &&& spec.resolution_authority_digest@ == input.authority_digest@
            &&& spec.resolved_artifact_set_digest@ == generation.artifact_set.identity()
            &&& spec.effective_host_grant_set_digest@ == generation.grants.identity()
        }),
        generation.plan == input.plan,
        generation.grants.typed().grants@.len() == 0,
        generation.artifact_set.typed().resolution_authority_digest@ == input.authority_digest@,
        generation.artifact_set.typed().host_execution_policy_digest@ == input.policy.identity(),
        generation.artifact_set.typed().artifacts@.len() == input.artifacts@.len(),
        0 <= i < input.artifacts@.len() ==> {
            let given = input.artifacts@[i];
            &&& generation.artifacts.has(given.instance_key@)
            &&& generation.artifacts.at(given.instance_key@) == given.handle
            &&& exists|k: int| {
                let found = #[trigger] generation.artifact_set.typed().artifacts@[k];
                &&& 0 <= k < generation.artifact_set.typed().artifacts@.len()
                &&& found.plugin_id@ == given.plugin_id@
                &&& found.artifact_id@ == given.artifact_id@
                &&& found.digest@ == given.handle.digest@
                &&& found.size == given.handle.size
                &&& found.media_type@ == given.media_type@
                &&& found.target@ == given.target@
            }
        },
        generation.stateful_instances.entries().len() == 0,
        generation.resources == input.resources,
{
    broadcast use vstd::seq_lib::group_to_multiset_ensures;

    let given = input.artifacts@.map_values(|item: PlanArtifact| crate::resolver::resolved_facts(item));
    let set = generation.artifact_set.typed().artifacts@;
    let facts = set.map_values(|item: crate::model::ResolvedArtifact| crate::resolver::artifact_facts(item));
    artifacts_are_ordered(given);
    let sorted = crate::resolver::in_order(given);
    assert(facts == sorted);
    assert(facts.len() == set.len() && given.len() == input.artifacts@.len());
    if 0 <= i < input.artifacts@.len() {
        assert(given[i] == crate::resolver::resolved_facts(input.artifacts@[i]));
        assert(given.contains(given[i]));
        assert(given.to_multiset().count(given[i]) > 0);
        assert(sorted.to_multiset().count(given[i]) > 0);
        assert(sorted.contains(given[i]));
        let k = choose|k: int| 0 <= k < sorted.len() && sorted[k] == given[i];
        assert(facts[k] == crate::resolver::artifact_facts(set[k]));
        let found = generation.artifact_set.typed().artifacts@[k];
    }
}

} // verus!
