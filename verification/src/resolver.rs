//! Closing a resolved App Plan into one executable Generation.
use vstd::prelude::*;
use vstd::string::*;

use crate::canonical;
use crate::canonical::{keys_of, trees, CanonicalDocument, Document};
use crate::digest;
use crate::digest::digest_of;
use crate::error::{ControlPlaneError, ErrorView};
use crate::generation::{ArtifactHandle, InstanceResources, ResolvedGeneration};
use crate::model::{
    AppGenerationSpec, EffectiveGrant, EffectiveHostGrantSet, HostBuildManifest, HostExecutionPolicy, ResolvedArtifact, ResolvedArtifactSet,
    ResolvedInstanceResources,
};
use crate::plan;
use crate::plan::{instance_position, AppPlan, PlanInstance};
use crate::text;
use crate::text::{blank, text_lt};
use crate::text_map::TextMap;

verus! {

/// One digest-verified execution Artifact already selected by a resolved App Plan.
#[derive(Clone, Debug)]
pub struct PlanArtifact {
    pub instance_key: String,
    pub plugin_id: String,
    pub artifact_id: String,
    pub media_type: String,
    pub target: String,
    pub handle: ArtifactHandle,
}

/// Minimal immutable authority required after Host and Plugin Root resolution.
#[derive(Clone, Debug)]
pub struct PlanGenerationInput<'a> {
    pub app_id: &'a str,
    pub authority_digest: &'a str,
    pub plan: AppPlan,
    pub host_build: &'a CanonicalDocument<HostBuildManifest>,
    pub policy: &'a CanonicalDocument<HostExecutionPolicy>,
    pub artifacts: Vec<PlanArtifact>,
    pub resources: TextMap<InstanceResources>,
}

/// What a resolved Artifact says.
pub open spec fn artifact_facts(artifact: ResolvedArtifact) -> (Seq<char>, Seq<char>, Seq<char>, u64, Seq<char>, Seq<char>) {
    (artifact.plugin_id@, artifact.artifact_id@, artifact.digest@, artifact.size, artifact.media_type@, artifact.target@)
}

/// What the resolved Artifact of a selected Artifact says.
pub open spec fn resolved_facts(artifact: PlanArtifact) -> (Seq<char>, Seq<char>, Seq<char>, u64, Seq<char>, Seq<char>) {
    (artifact.plugin_id@, artifact.artifact_id@, artifact.handle.digest@, artifact.handle.size, artifact.media_type@, artifact.target@)
}

/// One Artifact stands before another: by its Plugin, then by its own identity.
pub open spec fn before(
    a: (Seq<char>, Seq<char>, Seq<char>, u64, Seq<char>, Seq<char>),
    b: (Seq<char>, Seq<char>, Seq<char>, u64, Seq<char>, Seq<char>),
) -> bool {
    text_lt(a.0, b.0) || (a.0 == b.0 && text_lt(a.1, b.1))
}

/// An Artifact behind those that do not stand after it.
pub open spec fn placed(
    sorted: Seq<(Seq<char>, Seq<char>, Seq<char>, u64, Seq<char>, Seq<char>)>,
    item: (Seq<char>, Seq<char>, Seq<char>, u64, Seq<char>, Seq<char>),
) -> Seq<(Seq<char>, Seq<char>, Seq<char>, u64, Seq<char>, Seq<char>)>
    decreases sorted.len(),
{
    if sorted.len() > 0 && before(item, sorted.last()) {
        placed(sorted.drop_last(), item).push(sorted.last())
    } else {
        sorted.push(item)
    }
}

/// Artifacts in their order; those that do not differ in it keep the order in which they came.
pub open spec fn in_order(
    items: Seq<(Seq<char>, Seq<char>, Seq<char>, u64, Seq<char>, Seq<char>)>,
) -> Seq<(Seq<char>, Seq<char>, Seq<char>, u64, Seq<char>, Seq<char>)>
    decreases items.len(),
{
    if items.len() == 0 {
        items
    } else {
        placed(in_order(items.drop_last()), items.last())
    }
}

/// Nothing stands before what precedes it.
pub open spec fn ordered(items: Seq<(Seq<char>, Seq<char>, Seq<char>, u64, Seq<char>, Seq<char>)>) -> bool {
    forall|i: int, j: int| 0 <= i < j < items.len() ==> !before(#[trigger] items[j], #[trigger] items[i])
}

proof fn before_is_transitive(
    a: (Seq<char>, Seq<char>, Seq<char>, u64, Seq<char>, Seq<char>),
    b: (Seq<char>, Seq<char>, Seq<char>, u64, Seq<char>, Seq<char>),
    c: (Seq<char>, Seq<char>, Seq<char>, u64, Seq<char>, Seq<char>),
)
    requires
        !before(b, a),
        before(b, c),
    ensures
        !before(c, a),
{
    if before(c, a) {
        text::text_lt_strict_total(b.0, c.0);
        text::text_lt_strict_total(c.0, a.0);
        text::text_lt_strict_total(b.1, c.1);
        text::text_lt_strict_total(c.1, a.1);
        if text_lt(b.0, c.0) && text_lt(c.0, a.0) {
            text::text_lt_transitive(b.0, c.0, a.0);
        }
        if text_lt(b.1, c.1) && text_lt(c.1, a.1) {
            text::text_lt_transitive(b.1, c.1, a.1);
        }
        assert(before(b, a));
    }
}

proof fn placing_keeps_order(
    sorted: Seq<(Seq<char>, Seq<char>, Seq<char>, u64, Seq<char>, Seq<char>)>,
    item: (Seq<char>, Seq<char>, Seq<char>, u64, Seq<char>, Seq<char>),
)
    requires
        ordered(sorted),
    ensures
        ordered(placed(sorted, item)),
        placed(sorted, item).to_multiset() == sorted.to_multiset().insert(item),
        placed(sorted, item).len() == sorted.len() + 1,
        forall|k: int|
            0 <= k < placed(sorted, item).len() ==> (#[trigger] placed(sorted, item)[k]) == item || sorted.contains(placed(sorted, item)[k]),
    decreases sorted.len(),
{
    broadcast use vstd::seq_lib::group_to_multiset_ensures;

    let r = placed(sorted, item);
    if sorted.len() > 0 && before(item, sorted.last()) {
        let rest = sorted.drop_last();
        let last = sorted.last();
        placing_keeps_order(rest, item);
        let inner = placed(rest, item);
        assert(r == inner.push(last));
        assert(sorted =~= rest.push(last));
        assert(r.to_multiset() =~= sorted.to_multiset().insert(item));
        assert forall|k: int| 0 <= k < r.len() implies (#[trigger] r[k]) == item || sorted.contains(r[k]) by {
            if k < inner.len() {
                assert(r[k] == inner[k]);
                if inner[k] != item {
                    let m = choose|m: int| 0 <= m < rest.len() && rest[m] == inner[k];
                    assert(sorted[m] == inner[k]);
                }
            } else {
                assert(sorted[sorted.len() - 1] == r[k]);
            }
        }
        assert forall|i: int, j: int| 0 <= i < j < r.len() implies !before(#[trigger] r[j], #[trigger] r[i]) by {
            if j < inner.len() {
                assert(r[i] == inner[i] && r[j] == inner[j]);
            } else {
                assert(r[i] == inner[i]);
                if inner[i] == item {
                    text::text_lt_strict_total(item.0, last.0);
                    text::text_lt_strict_total(item.1, last.1);
                } else {
                    let m = choose|m: int| 0 <= m < rest.len() && rest[m] == inner[i];
                    assert(sorted[m] == inner[i]);
                    assert(!before(sorted[sorted.len() - 1], sorted[m]));
                }
            }
        }
    } else {
        assert forall|k: int| 0 <= k < r.len() implies (#[trigger] r[k]) == item || sorted.contains(r[k]) by {
            if k < sorted.len() {
                assert(sorted[k] == r[k]);
            }
        }
        assert forall|i: int, j: int| 0 <= i < j < r.len() implies !before(#[trigger] r[j], #[trigger] r[i]) by {
            if j == sorted.len() && i < sorted.len() - 1 {
                assert(!before(sorted[sorted.len() - 1], sorted[i]));
                if before(item, sorted[i]) {
                    if before(sorted.last(), item) {
                        before_is_transitive(sorted[i], sorted.last(), item);
                    } else {
                        same_place(sorted.last(), item, sorted[i]);
                    }
                }
            }
        }
    }
}

/// What stands neither before nor after another stands before the same.
proof fn same_place(
    a: (Seq<char>, Seq<char>, Seq<char>, u64, Seq<char>, Seq<char>),
    b: (Seq<char>, Seq<char>, Seq<char>, u64, Seq<char>, Seq<char>),
    c: (Seq<char>, Seq<char>, Seq<char>, u64, Seq<char>, Seq<char>),
)
    requires
        !before(a, b),
        !before(b, a),
    ensures
        before(b, c) ==> before(a, c),
{
    text::text_lt_strict_total(a.0, b.0);
    text::text_lt_strict_total(a.1, b.1);
}

/// The order of Artifacts in a resolved set does not depend on chance: they are ordered by Plugin and
/// identity, and they are the selected ones, each as often as it was selected.
pub proof fn artifacts_are_ordered(items: Seq<(Seq<char>, Seq<char>, Seq<char>, u64, Seq<char>, Seq<char>)>)
    ensures
        ordered(in_order(items)),
        in_order(items).to_multiset() == items.to_multiset(),
        in_order(items).len() == items.len(),
    decreases items.len(),
{
    broadcast use vstd::seq_lib::group_to_multiset_ensures;

    if items.len() > 0 {
        artifacts_are_ordered(items.drop_last());
        placing_keeps_order(in_order(items.drop_last()), items.last());
        assert(items =~= items.drop_last().push(items.last()));
        assert(in_order(items).to_multiset() =~= items.to_multiset());
    }
}

/// The failure of a resolution for the stated reason.
pub open spec fn failure(detail: Seq<char>) -> ErrorView {
    ErrorView::ResolutionFailed { detail }
}

fn failed(detail: &str) -> (r: ControlPlaneError)
    ensures
        r@ == failure(detail@),
{
    ControlPlaneError::ResolutionFailed { detail: detail.to_owned() }
}

fn failed_about(prefix: &str, subject: &str, suffix: &str) -> (r: ControlPlaneError)
    ensures
        r@ == failure(prefix@ + subject@ + suffix@),
{
    ControlPlaneError::ResolutionFailed { detail: text::around(prefix, subject, suffix) }
}

/// An earlier Artifact is for the same Instance.
pub open spec fn taken(artifacts: Seq<PlanArtifact>, n: int) -> bool {
    exists|k: int| 0 <= k < n && (#[trigger] artifacts[k]).instance_key@ == artifacts[n].instance_key@
}

/// Why the first `n` Artifacts do not fit the Plan.
pub open spec fn artifacts_fault(instances: Seq<PlanInstance>, artifacts: Seq<PlanArtifact>, n: nat) -> Option<Seq<char>>
    decreases n,
{
    if n == 0 {
        None
    } else {
        match artifacts_fault(instances, artifacts, (n - 1) as nat) {
            Some(detail) => Some(detail),
            None => {
                let key = artifacts[n - 1].instance_key@;
                if instance_position(instances, key) is None {
                    Some("Artifact selects unknown Plugin Instance `"@ + key + "`"@)
                } else if taken(artifacts, n - 1) {
                    Some("duplicate Artifact authority for Plugin Instance `"@ + key + "`"@)
                } else {
                    None
                }
            },
        }
    }
}

/// Why the first `n` supporting files do not fit the Plan.
pub open spec fn resources_fault(instances: Seq<PlanInstance>, entries: Seq<(Seq<char>, InstanceResources)>, n: nat) -> Option<Seq<char>>
    decreases n,
{
    if n == 0 {
        None
    } else {
        match resources_fault(instances, entries, (n - 1) as nat) {
            Some(detail) => Some(detail),
            None => if instance_position(instances, entries[n - 1].0) is None {
                Some("resources select unknown Plugin Instance `"@ + entries[n - 1].0 + "`"@)
            } else {
                None
            },
        }
    }
}

/// Why an input cannot be closed into a Generation.
pub open spec fn input_fault(input: PlanGenerationInput) -> Option<Seq<char>> {
    if blank(input.app_id@) {
        Some("App identity cannot be empty"@)
    } else if !"sha256:"@.is_prefix_of(input.authority_digest@) {
        Some("Plugin Root authority must be a SHA-256 digest"@)
    } else if input.host_build.typed().app_id@ != input.app_id@ || input.policy.typed().app_id@ != input.app_id@ {
        Some("App identity differs across resolved Plan authority"@)
    } else {
        match artifacts_fault(input.plan.instances@, input.artifacts@, input.artifacts@.len()) {
            Some(detail) => Some(detail),
            None => resources_fault(input.plan.instances@, input.resources.entries(), input.resources.entries().len()),
        }
    }
}

/// What the supporting files of an Instance say.
pub open spec fn resource_facts(item: ResolvedInstanceResources) -> (Seq<char>, Seq<char>, u64, u64) {
    (item.instance_key@, item.digest@, item.file_count, item.total_size)
}

/// The Artifact set is the one that an input resolves to.
pub open spec fn artifact_set_of(set: ResolvedArtifactSet, input: PlanGenerationInput) -> bool {
    &&& set.schema_version == 3
    &&& set.resolution_authority_digest@ == input.authority_digest@
    &&& set.host_execution_policy_digest@ == input.policy.identity()
    &&& set.artifacts@.map_values(|item: ResolvedArtifact| artifact_facts(item)) == in_order(
        input.artifacts@.map_values(|item: PlanArtifact| resolved_facts(item)),
    )
    &&& set.instance_resources@.map_values(|item: ResolvedInstanceResources| resource_facts(item)) == input.resources.entries().map_values(
        |entry: (Seq<char>, InstanceResources)| (entry.0, entry.1.digest@, entry.1.file_count, entry.1.total_size),
    )
}

/// The Generation is the one that an input closes into.
pub open spec fn generation_of(generation: ResolvedGeneration, input: PlanGenerationInput) -> bool {
    &&& generation.wf()
    &&& generation.plan == input.plan
    &&& artifact_set_of(generation.artifact_set.typed(), input)
    &&& generation.grants.typed().schema_version == 2
    &&& generation.grants.typed().resolution_authority_digest@ == input.authority_digest@
    &&& generation.grants.typed().grants@.len() == 0
    &&& spec_of(generation.spec.typed(), input, generation.artifact_set.identity(), generation.grants.identity())
    &&& forall|i: int|
        0 <= i < input.artifacts@.len() ==> generation.artifacts.has((#[trigger] input.artifacts@[i]).instance_key@)
            && generation.artifacts.at(input.artifacts@[i].instance_key@) == input.artifacts@[i].handle
    &&& forall|key: Seq<char>| #[trigger]
        generation.artifacts.has(key) ==> exists|i: int| 0 <= i < input.artifacts@.len() && (#[trigger] input.artifacts@[i]).instance_key@ == key
    &&& generation.resources == input.resources
    &&& generation.stateful_instances.entries().len() == 0
}

/// The Generation spec binds the identities of everything that the Generation is made of.
pub open spec fn spec_of(spec: AppGenerationSpec, input: PlanGenerationInput, artifact_set: Seq<char>, grants: Seq<char>) -> bool {
    &&& spec.schema_version == 2
    &&& spec.app_id@ == input.app_id@
    &&& spec.host_build_manifest_digest@ == input.host_build.identity()
    &&& spec.host_execution_policy_digest@ == input.policy.identity()
    &&& spec.resolved_plan_digest@ == digest_of(input.plan.bytes@)
    &&& spec.resolution_authority_digest@ == input.authority_digest@
    &&& spec.resolved_artifact_set_digest@ == artifact_set
    &&& spec.effective_host_grant_set_digest@ == grants
}

proof fn artifact_is_strict(item: ResolvedArtifact)
    ensures
        item.tree().strict(),
{
    reveal_strlit("plugin_id");
    reveal_strlit("artifact_id");
    reveal_strlit("digest");
    reveal_strlit("size");
    reveal_strlit("media_type");
    reveal_strlit("target");
    let entries = item.tree()->Object_0;
    let keys = keys_of(entries);
    assert(keys =~= seq!["plugin_id"@, "artifact_id"@, "digest"@, "size"@, "media_type"@, "target"@]);
    assert(keys[0].len() == 9 && keys[1].len() == 11 && keys[2].len() == 6 && keys[3].len() == 4 && keys[4].len() == 10 && keys[5].len() == 6);
    assert(keys[2][0] == 'd' && keys[5][0] == 't');
    canonical::object_is_strict(entries);
}

proof fn resources_are_strict(item: ResolvedInstanceResources)
    ensures
        item.tree().strict(),
{
    reveal_strlit("instance_key");
    reveal_strlit("digest");
    reveal_strlit("file_count");
    reveal_strlit("total_size");
    let entries = item.tree()->Object_0;
    let keys = keys_of(entries);
    assert(keys =~= seq!["instance_key"@, "digest"@, "file_count"@, "total_size"@]);
    assert(keys[0].len() == 12 && keys[1].len() == 6 && keys[2].len() == 10 && keys[3].len() == 10);
    assert(keys[2][0] == 'f' && keys[3][0] == 't');
    canonical::object_is_strict(entries);
}

/// Every resolved Artifact set is strict.
pub proof fn artifact_set_is_strict(set: ResolvedArtifactSet)
    ensures
        set.tree().strict(),
{
    reveal_strlit("schema_version");
    reveal_strlit("resolution_authority_digest");
    reveal_strlit("host_execution_policy_digest");
    reveal_strlit("artifacts");
    reveal_strlit("instance_resources");
    let entries = set.tree()->Object_0;
    let keys = keys_of(entries);
    assert(keys =~= seq![
        "schema_version"@,
        "resolution_authority_digest"@,
        "host_execution_policy_digest"@,
        "artifacts"@,
        "instance_resources"@,
    ]);
    assert(keys[0].len() == 14 && keys[1].len() == 27 && keys[2].len() == 28 && keys[3].len() == 9 && keys[4].len() == 18);
    assert forall|i: int| 0 <= i < trees(set.artifacts@).len() implies (#[trigger] trees(set.artifacts@)[i]).strict() by {
        artifact_is_strict(set.artifacts@[i]);
    }
    canonical::list_is_strict(trees(set.artifacts@));
    assert forall|i: int| 0 <= i < trees(set.instance_resources@).len() implies (#[trigger] trees(set.instance_resources@)[i]).strict() by {
        resources_are_strict(set.instance_resources@[i]);
    }
    canonical::list_is_strict(trees(set.instance_resources@));
    canonical::object_is_strict(entries);
}

proof fn no_grants_are_strict(set: EffectiveHostGrantSet)
    requires
        set.grants@.len() == 0,
    ensures
        set.tree().strict(),
{
    reveal_strlit("schema_version");
    reveal_strlit("resolution_authority_digest");
    reveal_strlit("grants");
    let entries = set.tree()->Object_0;
    let keys = keys_of(entries);
    assert(keys =~= seq!["schema_version"@, "resolution_authority_digest"@, "grants"@]);
    assert(keys[0].len() == 14 && keys[1].len() == 27 && keys[2].len() == 6);
    canonical::list_is_strict(trees(set.grants@));
    canonical::object_is_strict(entries);
}

/// Every Generation spec is strict.
pub proof fn generation_spec_is_strict(spec: AppGenerationSpec)
    ensures
        spec.tree().strict(),
{
    reveal_strlit("schema_version");
    reveal_strlit("app_id");
    reveal_strlit("host_build_manifest_digest");
    reveal_strlit("host_execution_policy_digest");
    reveal_strlit("resolved_plan_digest");
    reveal_strlit("resolution_authority_digest");
    reveal_strlit("resolved_artifact_set_digest");
    reveal_strlit("effective_host_grant_set_digest");
    let entries = spec.tree()->Object_0;
    let keys = keys_of(entries);
    assert(keys =~= seq![
        "schema_version"@,
        "app_id"@,
        "host_build_manifest_digest"@,
        "host_execution_policy_digest"@,
        "resolved_plan_digest"@,
        "resolution_authority_digest"@,
        "resolved_artifact_set_digest"@,
        "effective_host_grant_set_digest"@,
    ]);
    assert(keys[0].len() == 14 && keys[1].len() == 6 && keys[2].len() == 26 && keys[3].len() == 28 && keys[4].len() == 20 && keys[5].len() == 27
        && keys[6].len() == 28 && keys[7].len() == 31);
    assert(keys[3][0] == 'h' && keys[6][0] == 'r');
    canonical::object_is_strict(entries);
}

/// Puts one Artifact behind those that do not stand after it.
fn place(sorted: &mut Vec<ResolvedArtifact>, item: ResolvedArtifact)
    ensures
        final(sorted)@.map_values(|item: ResolvedArtifact| artifact_facts(item)) == placed(
            old(sorted)@.map_values(|item: ResolvedArtifact| artifact_facts(item)),
            artifact_facts(item),
        ),
{
    let ghost start = sorted@.map_values(|item: ResolvedArtifact| artifact_facts(item));
    let ghost entry = artifact_facts(item);
    let mut i: usize = sorted.len();
    let mut settled: bool = false;
    proof {
        assert(start.take(i as int) =~= start);
        assert(placed(start, entry) =~= placed(start.take(i as int), entry) + start.skip(i as int));
    }
    while i > 0 && !settled
        invariant
            i <= sorted.len(),
            start == sorted@.map_values(|item: ResolvedArtifact| artifact_facts(item)),
            entry == artifact_facts(item),
            settled ==> i > 0 && !before(entry, start[i - 1]),
            placed(start, entry) == placed(start.take(i as int), entry) + start.skip(i as int),
        decreases i + (if settled { 0int } else { 1int }),
    {
        let other = &sorted[i - 1];
        assert(start[i - 1] == artifact_facts(*other));
        let earlier: bool = match text::order(item.plugin_id.as_str(), other.plugin_id.as_str()) {
            text::TextOrder::Before => true,
            text::TextOrder::Same => match text::order(item.artifact_id.as_str(), other.artifact_id.as_str()) {
                text::TextOrder::Before => true,
                _ => false,
            },
            text::TextOrder::After => false,
        };
        proof {
            text::text_lt_strict_total(item.plugin_id@, other.plugin_id@);
        }
        if earlier {
            proof {
                let part = start.take(i as int);
                assert(part.last() == start[i - 1]);
                assert(part.drop_last() =~= start.take(i - 1));
                assert(placed(part, entry) == placed(part.drop_last(), entry).push(part.last()));
                assert(placed(start, entry) =~= placed(start.take(i - 1), entry) + start.skip(i - 1));
            }
            i = i - 1;
        } else {
            settled = true;
        }
    }
    proof {
        let part = start.take(i as int);
        if i > 0 {
            assert(part.last() == start[i - 1]);
        }
        assert(placed(part, entry) =~= part.push(entry));
    }
    sorted.insert(i, item);
    proof {
        assert(sorted@.map_values(|item: ResolvedArtifact| artifact_facts(item)) =~= start.take(i as int).push(entry) + start.skip(i as int));
    }
}

/// A fault among the first Artifacts is the fault of all.
proof fn artifacts_fault_stays(instances: Seq<PlanInstance>, artifacts: Seq<PlanArtifact>, n: nat, m: nat)
    requires
        n <= m,
        artifacts_fault(instances, artifacts, n) is Some,
    ensures
        artifacts_fault(instances, artifacts, m) == artifacts_fault(instances, artifacts, n),
    decreases m,
{
    if n < m {
        artifacts_fault_stays(instances, artifacts, n, (m - 1) as nat);
    }
}

/// A fault among the first supporting files is the fault of all.
proof fn resources_fault_stays(instances: Seq<PlanInstance>, entries: Seq<(Seq<char>, InstanceResources)>, n: nat, m: nat)
    requires
        n <= m,
        resources_fault(instances, entries, n) is Some,
    ensures
        resources_fault(instances, entries, m) == resources_fault(instances, entries, n),
    decreases m,
{
    if n < m {
        resources_fault_stays(instances, entries, n, (m - 1) as nat);
    }
}

/// Takes over the selected Artifacts: in order for the Artifact set, and by Instance.
#[verifier::rlimit(40)]
fn resolve_artifacts(instances: &Vec<PlanInstance>, artifacts: Vec<PlanArtifact>) -> (r: Result<
    (Vec<ResolvedArtifact>, TextMap<ArtifactHandle>),
    ControlPlaneError,
>)
    ensures
        match artifacts_fault(instances@, artifacts@, artifacts@.len()) {
            Some(detail) => r is Err && r->Err_0@ == failure(detail),
            None => {
                &&& r is Ok
                &&& r->Ok_0.0@.map_values(|item: ResolvedArtifact| artifact_facts(item)) == in_order(
                    artifacts@.map_values(|item: PlanArtifact| resolved_facts(item)),
                )
                &&& r->Ok_0.1.wf()
                &&& forall|i: int|
                    0 <= i < artifacts@.len() ==> r->Ok_0.1.has((#[trigger] artifacts@[i]).instance_key@) && r->Ok_0.1.at(
                        artifacts@[i].instance_key@,
                    ) == artifacts@[i].handle
                &&& forall|key: Seq<char>| #[trigger]
                    r->Ok_0.1.has(key) ==> exists|i: int| 0 <= i < artifacts@.len() && (#[trigger] artifacts@[i]).instance_key@ == key
            },
        },
{
    let ghost all = artifacts@;
    let ghost wanted = artifacts@.map_values(|item: PlanArtifact| resolved_facts(item));
    let mut sorted: Vec<ResolvedArtifact> = Vec::new();
    let mut catalog: TextMap<ArtifactHandle> = TextMap::new();
    let mut rest = artifacts;
    let mut n: usize = 0;
    let total: usize = rest.len();
    proof {
        assert(wanted.take(0) =~= Seq::<(Seq<char>, Seq<char>, Seq<char>, u64, Seq<char>, Seq<char>)>::empty());
        assert(sorted@.map_values(|item: ResolvedArtifact| artifact_facts(item)) =~= in_order(wanted.take(0)));
        assert(rest@ =~= all.skip(0));
    }
    while n < total
        invariant
            n <= total == all.len(),
            rest@ == all.skip(n as int),
            artifacts@ == all,
            wanted == all.map_values(|item: PlanArtifact| resolved_facts(item)),
            artifacts_fault(instances@, all, n as nat) is None,
            sorted@.map_values(|item: ResolvedArtifact| artifact_facts(item)) == in_order(wanted.take(n as int)),
            catalog.wf(),
            forall|i: int|
                0 <= i < n ==> catalog.has((#[trigger] all[i]).instance_key@) && catalog.at(all[i].instance_key@) == all[i].handle,
            forall|key: Seq<char>| #[trigger]
                catalog.has(key) ==> exists|i: int| 0 <= i < n && (#[trigger] all[i]).instance_key@ == key,
        decreases total - n,
    {
        let artifact = rest.remove(0);
        proof {
            assert(artifact == all[n as int]);
            assert(rest@ =~= all.skip(n + 1));
        }
        if plan::find_instance(instances, artifact.instance_key.as_str()).is_none() {
            proof {
                artifacts_fault_stays(instances@, all, (n + 1) as nat, all.len());
            }
            return Err(failed_about("Artifact selects unknown Plugin Instance `", artifact.instance_key.as_str(), "`"));
        }
        if catalog.contains_key(artifact.instance_key.as_str()) {
            proof {
                let k = choose|k: int| 0 <= k < n && (#[trigger] all[k]).instance_key@ == artifact.instance_key@;
                assert(all[k].instance_key@ == all[n as int].instance_key@);
                assert(taken(all, n as int));
                artifacts_fault_stays(instances@, all, (n + 1) as nat, all.len());
            }
            return Err(failed_about("duplicate Artifact authority for Plugin Instance `", artifact.instance_key.as_str(), "`"));
        }
        proof {
            if taken(all, n as int) {
                let k = choose|k: int| 0 <= k < n && (#[trigger] all[k]).instance_key@ == all[n as int].instance_key@;
                assert(catalog.has(all[k].instance_key@));
            }
        }
        let resolved = ResolvedArtifact {
            plugin_id: artifact.plugin_id,
            artifact_id: artifact.artifact_id,
            digest: artifact.handle.digest.clone(),
            size: artifact.handle.size,
            media_type: artifact.media_type,
            target: artifact.target,
        };
        assert(artifact_facts(resolved) == wanted[n as int]);
        place(&mut sorted, resolved);
        proof {
            assert(wanted.take(n + 1).drop_last() =~= wanted.take(n as int));
            assert(wanted.take(n + 1).last() == wanted[n as int]);
        }
        let ghost before = catalog;
        let ghost key = artifact.instance_key@;
        let ghost handle = artifact.handle;
        let _ = catalog.insert(artifact.instance_key, artifact.handle);
        proof {
            catalog.after_insert(before, key, handle);
            assert forall|i: int| 0 <= i < n + 1 implies catalog.has((#[trigger] all[i]).instance_key@) && catalog.at(all[i].instance_key@)
                == all[i].handle by {
                if i < n {
                    assert(before.has(all[i].instance_key@));
                    assert(all[i].instance_key@ != key) by {
                        if all[i].instance_key@ == key {
                            assert(taken(all, n as int));
                        }
                    }
                }
            }
            assert forall|k: Seq<char>| #[trigger] catalog.has(k) implies exists|i: int|
                0 <= i < n + 1 && (#[trigger] all[i]).instance_key@ == k by {
                if k == key {
                    assert(all[n as int].instance_key@ == k);
                } else {
                    let i = choose|i: int| 0 <= i < n && (#[trigger] all[i]).instance_key@ == k;
                    assert(all[i].instance_key@ == k);
                }
            }
        }
        n = n + 1;
    }
    assert(wanted.take(n as int) =~= wanted);
    Ok((sorted, catalog))
}

/// Takes over the supporting files of the Instances of a Plan.
fn resolve_instance_resources(catalog: &TextMap<InstanceResources>, instances: &Vec<PlanInstance>) -> (r: Result<
    Vec<ResolvedInstanceResources>,
    ControlPlaneError,
>)
    ensures
        match resources_fault(instances@, catalog.entries(), catalog.entries().len()) {
            Some(detail) => r is Err && r->Err_0@ == failure(detail),
            None => r is Ok && r->Ok_0@.map_values(|item: ResolvedInstanceResources| resource_facts(item)) == catalog.entries().map_values(
                |entry: (Seq<char>, InstanceResources)| (entry.0, entry.1.digest@, entry.1.file_count, entry.1.total_size),
            ),
        },
{
    let ghost wanted = catalog.entries().map_values(
        |entry: (Seq<char>, InstanceResources)| (entry.0, entry.1.digest@, entry.1.file_count, entry.1.total_size),
    );
    let mut r: Vec<ResolvedInstanceResources> = Vec::new();
    let mut i: usize = 0;
    while i < catalog.len()
        invariant
            i <= catalog.entries().len(),
            wanted == catalog.entries().map_values(
                |entry: (Seq<char>, InstanceResources)| (entry.0, entry.1.digest@, entry.1.file_count, entry.1.total_size),
            ),
            resources_fault(instances@, catalog.entries(), i as nat) is None,
            r@.len() == i,
            forall|k: int| 0 <= k < i ==> resource_facts(#[trigger] r@[k]) == wanted[k],
        decreases catalog.entries().len() - i,
    {
        let key = catalog.key_at(i);
        if plan::find_instance(instances, key).is_none() {
            proof {
                resources_fault_stays(instances@, catalog.entries(), (i + 1) as nat, catalog.entries().len());
            }
            return Err(failed_about("resources select unknown Plugin Instance `", key, "`"));
        }
        let value = catalog.value_at(i);
        r.push(
            ResolvedInstanceResources {
                instance_key: key.to_owned(),
                digest: value.digest.clone(),
                file_count: value.file_count,
                total_size: value.total_size,
            },
        );
        i = i + 1;
    }
    assert(r@.map_values(|item: ResolvedInstanceResources| resource_facts(item)) =~= wanted);
    Ok(r)
}

/// Closes an already resolved App Plan into one executable Generation.
pub fn resolve_plan_generation(input: PlanGenerationInput<'_>) -> (r: Result<ResolvedGeneration, ControlPlaneError>)
    requires
        input.resources.wf(),
    ensures
        match input_fault(input) {
            Some(detail) => r is Err && r->Err_0@ == failure(detail),
            None => r is Ok && generation_of(r->Ok_0, input),
        },
{
    if text::is_blank(input.app_id) {
        return Err(failed("App identity cannot be empty"));
    }
    if !text::starts_with(input.authority_digest, "sha256:") {
        return Err(failed("Plugin Root authority must be a SHA-256 digest"));
    }
    if !text::same(input.host_build.value().app_id.as_str(), input.app_id) || !text::same(
        input.policy.value().app_id.as_str(),
        input.app_id,
    ) {
        return Err(failed("App identity differs across resolved Plan authority"));
    }
    let (artifacts, catalog) = match resolve_artifacts(&input.plan.instances, input.artifacts) {
        Ok(found) => found,
        Err(error) => return Err(error),
    };
    let instance_resources = match resolve_instance_resources(&input.resources, &input.plan.instances) {
        Ok(found) => found,
        Err(error) => return Err(error),
    };
    let set = ResolvedArtifactSet {
        schema_version: 3,
        resolution_authority_digest: input.authority_digest.to_owned(),
        host_execution_policy_digest: input.policy.digest().to_owned(),
        artifacts,
        instance_resources,
    };
    proof {
        artifact_set_is_strict(set);
    }
    let artifact_set = match CanonicalDocument::from_value("lenso-artifacts.lock.json", set) {
        Ok(document) => document,
        Err(error) => return Err(error),
    };
    let none: Vec<EffectiveGrant> = Vec::new();
    let grant_set = EffectiveHostGrantSet {
        schema_version: 2,
        resolution_authority_digest: input.authority_digest.to_owned(),
        grants: none,
    };
    proof {
        no_grants_are_strict(grant_set);
    }
    let grants = match CanonicalDocument::from_value("lenso-host-grants.lock.json", grant_set) {
        Ok(document) => document,
        Err(error) => return Err(error),
    };
    let value = AppGenerationSpec {
        schema_version: 2,
        app_id: input.app_id.to_owned(),
        host_build_manifest_digest: input.host_build.digest().to_owned(),
        host_execution_policy_digest: input.policy.digest().to_owned(),
        resolved_plan_digest: digest::sha256_digest(input.plan.bytes.as_slice()),
        resolution_authority_digest: input.authority_digest.to_owned(),
        resolved_artifact_set_digest: artifact_set.digest().to_owned(),
        effective_host_grant_set_digest: grants.digest().to_owned(),
    };
    proof {
        generation_spec_is_strict(value);
    }
    let spec = match CanonicalDocument::from_value("lenso-generation.json", value) {
        Ok(document) => document,
        Err(error) => return Err(error),
    };
    Ok(
        ResolvedGeneration {
            plan: input.plan,
            artifact_set,
            grants,
            spec,
            artifacts: catalog,
            resources: input.resources,
            stateful_instances: TextMap::new(),
        },
    )
}

} // verus!
