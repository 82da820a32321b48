//! Laws of authority documents: each is written under its names, and no two that differ are written alike.
use vstd::prelude::*;

use crate::bundle::{PluginArtifactV2, PluginEntryV2, PluginManifestV2};
use crate::canonical::{keys_of, opt_text_tree, text_list_tree, trees, Document};
use crate::durable::{ActivationDirection, ControlHealth, ControlLifecycle, DurableControlState, GenerationControlRecord, RetirementReason};
use crate::json::JsonView;
use crate::model::{
    AdapterProfile, AppGenerationSpec, AppGenerationTransitionSpec, EffectiveGrant, EffectiveHostGrantSet, EmbeddedPlugin, EnforcementKind,
    HostBuildManifest, HostExecutionPolicy, ReplacementMode, ResolvedArtifact, ResolvedArtifactSet, ResolvedInstanceResources, RolloutPolicy,
    StateCompatibility, StateCompatibilityReceipt,
};
use crate::store::AdmissionReceipt;
use crate::text::{opt_text, texts};

verus! {

proof fn lemma_text_lists(a: Seq<Seq<char>>, b: Seq<Seq<char>>)
    requires
        text_list_tree(a) == text_list_tree(b),
    ensures
        a == b,
{
    let x = text_list_tree(a)->List_0;
    let y = text_list_tree(b)->List_0;
    assert(x.len() == y.len());
    assert forall|i: int| 0 <= i < a.len() implies a[i] == b[i] by {
        assert(x[i] == JsonView::Text(a[i]));
        assert(y[i] == JsonView::Text(b[i]));
    }
    assert(a =~= b);
}

proof fn lemma_optional_texts(a: Option<Seq<char>>, b: Option<Seq<char>>)
    requires
        opt_text_tree(a) == opt_text_tree(b),
    ensures
        a == b,
{
}

/// Each word for who enforces a grant has its own meaning, and each meaning its own word.
pub proof fn each_enforcement_kind_has_its_word(a: EnforcementKind, b: EnforcementKind)
    ensures
        a.tree() == b.tree() ==> a == b,
        a is Capability ==> a.tree() == JsonView::Text("capability"@),
        a is Plugin ==> a.tree() == JsonView::Text("plugin"@),
        a is Adapter ==> a.tree() == JsonView::Text("adapter"@),
        a is Host ==> a.tree() == JsonView::Text("host"@),
        a is TrustReviewOnly ==> a.tree() == JsonView::Text("trust_review_only"@),
{
    reveal_strlit("capability");
    reveal_strlit("plugin");
    reveal_strlit("adapter");
    reveal_strlit("host");
    reveal_strlit("trust_review_only");
    assert("capability"@.len() != "plugin"@.len());
    assert("capability"@.len() != "adapter"@.len());
    assert("capability"@.len() != "host"@.len());
    assert("capability"@.len() != "trust_review_only"@.len());
    assert("plugin"@.len() != "adapter"@.len());
    assert("plugin"@.len() != "host"@.len());
    assert("plugin"@.len() != "trust_review_only"@.len());
    assert("adapter"@.len() != "host"@.len());
    assert("adapter"@.len() != "trust_review_only"@.len());
    assert("host"@.len() != "trust_review_only"@.len());
}

/// Each word for how a Generation replaces another has its own meaning, and each meaning its own word.
pub proof fn each_replacement_mode_has_its_word(a: ReplacementMode, b: ReplacementMode)
    ensures
        a.tree() == b.tree() ==> a == b,
        a is Initial ==> a.tree() == JsonView::Text("initial"@),
        a is Overlap ==> a.tree() == JsonView::Text("overlap"@),
        a is Maintenance ==> a.tree() == JsonView::Text("maintenance"@),
{
    reveal_strlit("initial");
    reveal_strlit("overlap");
    reveal_strlit("maintenance");
    assert("initial"@[0] != "overlap"@[0]);
    assert("initial"@.len() != "maintenance"@.len());
    assert("overlap"@.len() != "maintenance"@.len());
}

/// Each word for where a Generation is in its life has its own meaning, and each meaning its own word.
pub proof fn each_control_lifecycle_has_its_word(a: ControlLifecycle, b: ControlLifecycle)
    ensures
        a.tree() == b.tree() ==> a == b,
        a is Staged ==> a.tree() == JsonView::Text("staged"@),
        a is Ready ==> a.tree() == JsonView::Text("ready"@),
        a is Active ==> a.tree() == JsonView::Text("active"@),
        a is Draining ==> a.tree() == JsonView::Text("draining"@),
        a is Standby ==> a.tree() == JsonView::Text("standby"@),
        a is Retired ==> a.tree() == JsonView::Text("retired"@),
{
    reveal_strlit("staged");
    reveal_strlit("ready");
    reveal_strlit("active");
    reveal_strlit("draining");
    reveal_strlit("standby");
    reveal_strlit("retired");
    assert("staged"@.len() != "ready"@.len());
    assert("staged"@[0] != "active"@[0]);
    assert("staged"@.len() != "draining"@.len());
    assert("staged"@.len() != "standby"@.len());
    assert("staged"@.len() != "retired"@.len());
    assert("ready"@.len() != "active"@.len());
    assert("ready"@.len() != "draining"@.len());
    assert("ready"@.len() != "standby"@.len());
    assert("ready"@.len() != "retired"@.len());
    assert("active"@.len() != "draining"@.len());
    assert("active"@.len() != "standby"@.len());
    assert("active"@.len() != "retired"@.len());
    assert("draining"@.len() != "standby"@.len());
    assert("draining"@.len() != "retired"@.len());
    assert("standby"@[0] != "retired"@[0]);
}

/// Each word for the health of a Generation has its own meaning, and each meaning its own word.
pub proof fn each_control_health_has_its_word(a: ControlHealth, b: ControlHealth)
    ensures
        a.tree() == b.tree() ==> a == b,
        a is Healthy ==> a.tree() == JsonView::Text("healthy"@),
        a is Failed ==> a.tree() == JsonView::Text("failed"@),
{
    reveal_strlit("healthy");
    reveal_strlit("failed");
    assert("healthy"@.len() != "failed"@.len());
}

/// Each word for the direction of an activation has its own meaning, and each meaning its own word.
pub proof fn each_activation_direction_has_its_word(a: ActivationDirection, b: ActivationDirection)
    ensures
        a.tree() == b.tree() ==> a == b,
        a is Forward ==> a.tree() == JsonView::Text("forward"@),
        a is Rollback ==> a.tree() == JsonView::Text("rollback"@),
{
    reveal_strlit("forward");
    reveal_strlit("rollback");
    assert("forward"@.len() != "rollback"@.len());
}

/// Each word for why a Generation retired has its own meaning, and each meaning its own word.
pub proof fn each_retirement_reason_has_its_word(a: RetirementReason, b: RetirementReason)
    ensures
        a.tree() == b.tree() ==> a == b,
        a is StagingFailed ==> a.tree() == JsonView::Text("staging_failed"@),
        a is Replaced ==> a.tree() == JsonView::Text("replaced"@),
        a is Drained ==> a.tree() == JsonView::Text("drained"@),
        a is DrainDeadlineExceeded ==> a.tree() == JsonView::Text("drain_deadline_exceeded"@),
        a is RollbackWindowExpired ==> a.tree() == JsonView::Text("rollback_window_expired"@),
        a is TerminalFailure ==> a.tree() == JsonView::Text("terminal_failure"@),
        a is SupervisorShutdown ==> a.tree() == JsonView::Text("supervisor_shutdown"@),
        a is RecoveryCleanup ==> a.tree() == JsonView::Text("recovery_cleanup"@),
        a is HostBuildReplaced ==> a.tree() == JsonView::Text("host_build_replaced"@),
{
    reveal_strlit("staging_failed");
    reveal_strlit("replaced");
    reveal_strlit("drained");
    reveal_strlit("drain_deadline_exceeded");
    reveal_strlit("rollback_window_expired");
    reveal_strlit("terminal_failure");
    reveal_strlit("supervisor_shutdown");
    reveal_strlit("recovery_cleanup");
    reveal_strlit("host_build_replaced");
    assert("staging_failed"@.len() != "replaced"@.len());
    assert("staging_failed"@.len() != "drained"@.len());
    assert("staging_failed"@.len() != "drain_deadline_exceeded"@.len());
    assert("staging_failed"@.len() != "rollback_window_expired"@.len());
    assert("staging_failed"@.len() != "terminal_failure"@.len());
    assert("staging_failed"@.len() != "supervisor_shutdown"@.len());
    assert("staging_failed"@.len() != "recovery_cleanup"@.len());
    assert("staging_failed"@.len() != "host_build_replaced"@.len());
    assert("replaced"@.len() != "drained"@.len());
    assert("replaced"@.len() != "drain_deadline_exceeded"@.len());
    assert("replaced"@.len() != "rollback_window_expired"@.len());
    assert("replaced"@.len() != "terminal_failure"@.len());
    assert("replaced"@.len() != "supervisor_shutdown"@.len());
    assert("replaced"@.len() != "recovery_cleanup"@.len());
    assert("replaced"@.len() != "host_build_replaced"@.len());
    assert("drained"@.len() != "drain_deadline_exceeded"@.len());
    assert("drained"@.len() != "rollback_window_expired"@.len());
    assert("drained"@.len() != "terminal_failure"@.len());
    assert("drained"@.len() != "supervisor_shutdown"@.len());
    assert("drained"@.len() != "recovery_cleanup"@.len());
    assert("drained"@.len() != "host_build_replaced"@.len());
    assert("drain_deadline_exceeded"@[0] != "rollback_window_expired"@[0]);
    assert("drain_deadline_exceeded"@.len() != "terminal_failure"@.len());
    assert("drain_deadline_exceeded"@.len() != "supervisor_shutdown"@.len());
    assert("drain_deadline_exceeded"@.len() != "recovery_cleanup"@.len());
    assert("drain_deadline_exceeded"@.len() != "host_build_replaced"@.len());
    assert("rollback_window_expired"@.len() != "terminal_failure"@.len());
    assert("rollback_window_expired"@.len() != "supervisor_shutdown"@.len());
    assert("rollback_window_expired"@.len() != "recovery_cleanup"@.len());
    assert("rollback_window_expired"@.len() != "host_build_replaced"@.len());
    assert("terminal_failure"@.len() != "supervisor_shutdown"@.len());
    assert("terminal_failure"@[0] != "recovery_cleanup"@[0]);
    assert("terminal_failure"@.len() != "host_build_replaced"@.len());
    assert("supervisor_shutdown"@.len() != "recovery_cleanup"@.len());
    assert("supervisor_shutdown"@[0] != "host_build_replaced"@[0]);
    assert("recovery_cleanup"@.len() != "host_build_replaced"@.len());
}

/// A host build manifest is written under its names, and two that differ in anything are written differently.
pub proof fn every_part_of_a_host_build_manifest_is_written(a: HostBuildManifest, b: HostBuildManifest)
    ensures
        a.tree() is Object,
        keys_of(a.tree()->Object_0) == seq![
            "schema_version"@,
            "app_id"@,
            "host_executable_digest"@,
            "target"@,
            "embedded_plugins"@,
            "adapter_profiles"@,
        ],
        a.tree() == b.tree() ==> {
            &&& a.schema_version == b.schema_version
            &&& a.app_id@ == b.app_id@
            &&& a.host_executable_digest@ == b.host_executable_digest@
            &&& a.target@ == b.target@
            &&& trees(a.embedded_plugins@) == trees(b.embedded_plugins@)
            &&& trees(a.adapter_profiles@) == trees(b.adapter_profiles@)
        },
{
    let x = a.tree()->Object_0;
    let y = b.tree()->Object_0;
    assert(keys_of(x) =~= seq![
        "schema_version"@,
        "app_id"@,
        "host_executable_digest"@,
        "target"@,
        "embedded_plugins"@,
        "adapter_profiles"@,
    ]);
    if a.tree() == b.tree() {
        assert(x[0] == y[0]);
        assert(x[1] == y[1]);
        assert(x[2] == y[2]);
        assert(x[3] == y[3]);
        assert(x[4] == y[4]);
        assert(x[5] == y[5]);
    }
}

/// An embedded plugin is written under its names, and two that differ in anything are written differently.
pub proof fn every_part_of_an_embedded_plugin_is_written(a: EmbeddedPlugin, b: EmbeddedPlugin)
    ensures
        a.tree() is Object,
        keys_of(a.tree()->Object_0) == seq![
            "package_id"@,
            "factory_identity"@,
            "execution_class"@,
        ],
        a.tree() == b.tree() ==> {
            &&& a.package_id@ == b.package_id@
            &&& a.factory_identity@ == b.factory_identity@
            &&& a.execution_class@ == b.execution_class@
        },
{
    let x = a.tree()->Object_0;
    let y = b.tree()->Object_0;
    assert(keys_of(x) =~= seq![
        "package_id"@,
        "factory_identity"@,
        "execution_class"@,
    ]);
    if a.tree() == b.tree() {
        assert(x[0] == y[0]);
        assert(x[1] == y[1]);
        assert(x[2] == y[2]);
    }
}

/// An adapter profile is written under its names, and two that differ in anything are written differently.
pub proof fn every_part_of_an_adapter_profile_is_written(a: AdapterProfile, b: AdapterProfile)
    ensures
        a.tree() is Object,
        keys_of(a.tree()->Object_0) == seq![
            "execution_class"@,
            "adapter_build_identity"@,
            "targets"@,
            "profiles"@,
        ],
        a.tree() == b.tree() ==> {
            &&& a.execution_class@ == b.execution_class@
            &&& a.adapter_build_identity@ == b.adapter_build_identity@
            &&& texts(a.targets@) == texts(b.targets@)
            &&& texts(a.profiles@) == texts(b.profiles@)
        },
{
    let x = a.tree()->Object_0;
    let y = b.tree()->Object_0;
    assert(keys_of(x) =~= seq![
        "execution_class"@,
        "adapter_build_identity"@,
        "targets"@,
        "profiles"@,
    ]);
    if a.tree() == b.tree() {
        assert(x[0] == y[0]);
        assert(x[1] == y[1]);
        assert(x[2] == y[2]);
        lemma_text_lists(texts(a.targets@), texts(b.targets@));
        assert(x[3] == y[3]);
        lemma_text_lists(texts(a.profiles@), texts(b.profiles@));
    }
}

/// A host execution policy is written under its names, and two that differ in anything are written differently.
pub proof fn every_part_of_a_host_execution_policy_is_written(a: HostExecutionPolicy, b: HostExecutionPolicy)
    ensures
        a.tree() is Object,
        keys_of(a.tree()->Object_0) == seq![
            "schema_version"@,
            "app_id"@,
            "host_build_manifest_digest"@,
            "target"@,
            "preference"@,
        ],
        a.tree() == b.tree() ==> {
            &&& a.schema_version == b.schema_version
            &&& a.app_id@ == b.app_id@
            &&& a.host_build_manifest_digest@ == b.host_build_manifest_digest@
            &&& a.target@ == b.target@
            &&& texts(a.preference@) == texts(b.preference@)
        },
{
    let x = a.tree()->Object_0;
    let y = b.tree()->Object_0;
    assert(keys_of(x) =~= seq![
        "schema_version"@,
        "app_id"@,
        "host_build_manifest_digest"@,
        "target"@,
        "preference"@,
    ]);
    if a.tree() == b.tree() {
        assert(x[0] == y[0]);
        assert(x[1] == y[1]);
        assert(x[2] == y[2]);
        assert(x[3] == y[3]);
        assert(x[4] == y[4]);
        lemma_text_lists(texts(a.preference@), texts(b.preference@));
    }
}

/// A resolved artifact set is written under its names, and two that differ in anything are written differently.
pub proof fn every_part_of_a_resolved_artifact_set_is_written(a: ResolvedArtifactSet, b: ResolvedArtifactSet)
    ensures
        a.tree() is Object,
        keys_of(a.tree()->Object_0) == seq![
            "schema_version"@,
            "resolution_authority_digest"@,
            "host_execution_policy_digest"@,
            "artifacts"@,
            "instance_resources"@,
        ],
        a.tree() == b.tree() ==> {
            &&& a.schema_version == b.schema_version
            &&& a.resolution_authority_digest@ == b.resolution_authority_digest@
            &&& a.host_execution_policy_digest@ == b.host_execution_policy_digest@
            &&& trees(a.artifacts@) == trees(b.artifacts@)
            &&& trees(a.instance_resources@) == trees(b.instance_resources@)
        },
{
    let x = a.tree()->Object_0;
    let y = b.tree()->Object_0;
    assert(keys_of(x) =~= seq![
        "schema_version"@,
        "resolution_authority_digest"@,
        "host_execution_policy_digest"@,
        "artifacts"@,
        "instance_resources"@,
    ]);
    if a.tree() == b.tree() {
        assert(x[0] == y[0]);
        assert(x[1] == y[1]);
        assert(x[2] == y[2]);
        assert(x[3] == y[3]);
        assert(x[4] == y[4]);
    }
}

/// A resolved artifact is written under its names, and two that differ in anything are written differently.
pub proof fn every_part_of_a_resolved_artifact_is_written(a: ResolvedArtifact, b: ResolvedArtifact)
    ensures
        a.tree() is Object,
        keys_of(a.tree()->Object_0) == seq![
            "plugin_id"@,
            "artifact_id"@,
            "digest"@,
            "size"@,
            "media_type"@,
            "target"@,
        ],
        a.tree() == b.tree() ==> {
            &&& a.plugin_id@ == b.plugin_id@
            &&& a.artifact_id@ == b.artifact_id@
            &&& a.digest@ == b.digest@
            &&& a.size == b.size
            &&& a.media_type@ == b.media_type@
            &&& a.target@ == b.target@
        },
{
    let x = a.tree()->Object_0;
    let y = b.tree()->Object_0;
    assert(keys_of(x) =~= seq![
        "plugin_id"@,
        "artifact_id"@,
        "digest"@,
        "size"@,
        "media_type"@,
        "target"@,
    ]);
    if a.tree() == b.tree() {
        assert(x[0] == y[0]);
        assert(x[1] == y[1]);
        assert(x[2] == y[2]);
        assert(x[3] == y[3]);
        assert(x[4] == y[4]);
        assert(x[5] == y[5]);
    }
}

/// A resolved instance resources is written under its names, and two that differ in anything are written differently.
pub proof fn every_part_of_a_resolved_instance_resources_is_written(a: ResolvedInstanceResources, b: ResolvedInstanceResources)
    ensures
        a.tree() is Object,
        keys_of(a.tree()->Object_0) == seq![
            "instance_key"@,
            "digest"@,
            "file_count"@,
            "total_size"@,
        ],
        a.tree() == b.tree() ==> {
            &&& a.instance_key@ == b.instance_key@
            &&& a.digest@ == b.digest@
            &&& a.file_count == b.file_count
            &&& a.total_size == b.total_size
        },
{
    let x = a.tree()->Object_0;
    let y = b.tree()->Object_0;
    assert(keys_of(x) =~= seq![
        "instance_key"@,
        "digest"@,
        "file_count"@,
        "total_size"@,
    ]);
    if a.tree() == b.tree() {
        assert(x[0] == y[0]);
        assert(x[1] == y[1]);
        assert(x[2] == y[2]);
        assert(x[3] == y[3]);
    }
}

/// An effective host grant set is written under its names, and two that differ in anything are written differently.
pub proof fn every_part_of_an_effective_host_grant_set_is_written(a: EffectiveHostGrantSet, b: EffectiveHostGrantSet)
    ensures
        a.tree() is Object,
        keys_of(a.tree()->Object_0) == seq![
            "schema_version"@,
            "resolution_authority_digest"@,
            "grants"@,
        ],
        a.tree() == b.tree() ==> {
            &&& a.schema_version == b.schema_version
            &&& a.resolution_authority_digest@ == b.resolution_authority_digest@
            &&& trees(a.grants@) == trees(b.grants@)
        },
{
    let x = a.tree()->Object_0;
    let y = b.tree()->Object_0;
    assert(keys_of(x) =~= seq![
        "schema_version"@,
        "resolution_authority_digest"@,
        "grants"@,
    ]);
    if a.tree() == b.tree() {
        assert(x[0] == y[0]);
        assert(x[1] == y[1]);
        assert(x[2] == y[2]);
    }
}

/// An effective grant is written under its names, and two that differ in anything are written differently.
pub proof fn every_part_of_an_effective_grant_is_written(a: EffectiveGrant, b: EffectiveGrant)
    ensures
        a.tree() is Object,
        keys_of(a.tree()->Object_0) == seq![
            "instance_key"@,
            "permission_request_id"@,
            "scope"@,
            "enforcement_kind"@,
            "enforcer_identity"@,
            "configuration"@,
        ],
        a.tree() == b.tree() ==> {
            &&& a.instance_key@ == b.instance_key@
            &&& a.permission_request_id@ == b.permission_request_id@
            &&& a.scope.model() == b.scope.model()
            &&& a.enforcement_kind == b.enforcement_kind
            &&& a.enforcer_identity@ == b.enforcer_identity@
            &&& a.configuration.model() == b.configuration.model()
        },
{
    let x = a.tree()->Object_0;
    let y = b.tree()->Object_0;
    assert(keys_of(x) =~= seq![
        "instance_key"@,
        "permission_request_id"@,
        "scope"@,
        "enforcement_kind"@,
        "enforcer_identity"@,
        "configuration"@,
    ]);
    if a.tree() == b.tree() {
        assert(x[0] == y[0]);
        assert(x[1] == y[1]);
        assert(x[2] == y[2]);
        assert(x[3] == y[3]);
        each_enforcement_kind_has_its_word(a.enforcement_kind, b.enforcement_kind);
        assert(x[4] == y[4]);
        assert(x[5] == y[5]);
    }
}

/// An app generation spec is written under its names, and two that differ in anything are written differently.
pub proof fn every_part_of_an_app_generation_spec_is_written(a: AppGenerationSpec, b: AppGenerationSpec)
    ensures
        a.tree() is Object,
        keys_of(a.tree()->Object_0) == seq![
            "schema_version"@,
            "app_id"@,
            "host_build_manifest_digest"@,
            "host_execution_policy_digest"@,
            "resolved_plan_digest"@,
            "resolution_authority_digest"@,
            "resolved_artifact_set_digest"@,
            "effective_host_grant_set_digest"@,
        ],
        a.tree() == b.tree() ==> {
            &&& a.schema_version == b.schema_version
            &&& a.app_id@ == b.app_id@
            &&& a.host_build_manifest_digest@ == b.host_build_manifest_digest@
            &&& a.host_execution_policy_digest@ == b.host_execution_policy_digest@
            &&& a.resolved_plan_digest@ == b.resolved_plan_digest@
            &&& a.resolution_authority_digest@ == b.resolution_authority_digest@
            &&& a.resolved_artifact_set_digest@ == b.resolved_artifact_set_digest@
            &&& a.effective_host_grant_set_digest@ == b.effective_host_grant_set_digest@
        },
{
    let x = a.tree()->Object_0;
    let y = b.tree()->Object_0;
    assert(keys_of(x) =~= seq![
        "schema_version"@,
        "app_id"@,
        "host_build_manifest_digest"@,
        "host_execution_policy_digest"@,
        "resolved_plan_digest"@,
        "resolution_authority_digest"@,
        "resolved_artifact_set_digest"@,
        "effective_host_grant_set_digest"@,
    ]);
    if a.tree() == b.tree() {
        assert(x[0] == y[0]);
        assert(x[1] == y[1]);
        assert(x[2] == y[2]);
        assert(x[3] == y[3]);
        assert(x[4] == y[4]);
        assert(x[5] == y[5]);
        assert(x[6] == y[6]);
        assert(x[7] == y[7]);
    }
}

/// An app generation transition spec is written under its names, and two that differ in anything are written differently.
pub proof fn every_part_of_an_app_generation_transition_spec_is_written(a: AppGenerationTransitionSpec, b: AppGenerationTransitionSpec)
    ensures
        a.tree() is Object,
        keys_of(a.tree()->Object_0) == seq![
            "schema_version"@,
            "app_id"@,
            "from_generation_spec_digest"@,
            "to_generation_spec_digest"@,
            "replacement_mode"@,
            "state_compatibility_receipt_digests"@,
            "rollout_policy"@,
        ],
        a.tree() == b.tree() ==> {
            &&& a.schema_version == b.schema_version
            &&& a.app_id@ == b.app_id@
            &&& opt_text(a.from_generation_spec_digest) == opt_text(b.from_generation_spec_digest)
            &&& a.to_generation_spec_digest@ == b.to_generation_spec_digest@
            &&& a.replacement_mode == b.replacement_mode
            &&& texts(a.state_compatibility_receipt_digests@) == texts(b.state_compatibility_receipt_digests@)
            &&& a.rollout_policy.tree() == b.rollout_policy.tree()
        },
{
    let x = a.tree()->Object_0;
    let y = b.tree()->Object_0;
    assert(keys_of(x) =~= seq![
        "schema_version"@,
        "app_id"@,
        "from_generation_spec_digest"@,
        "to_generation_spec_digest"@,
        "replacement_mode"@,
        "state_compatibility_receipt_digests"@,
        "rollout_policy"@,
    ]);
    if a.tree() == b.tree() {
        assert(x[0] == y[0]);
        assert(x[1] == y[1]);
        assert(x[2] == y[2]);
        lemma_optional_texts(opt_text(a.from_generation_spec_digest), opt_text(b.from_generation_spec_digest));
        assert(x[3] == y[3]);
        assert(x[4] == y[4]);
        each_replacement_mode_has_its_word(a.replacement_mode, b.replacement_mode);
        assert(x[5] == y[5]);
        lemma_text_lists(texts(a.state_compatibility_receipt_digests@), texts(b.state_compatibility_receipt_digests@));
        assert(x[6] == y[6]);
    }
}

/// A state compatibility receipt is written under its names, and two that differ in anything are written differently.
pub proof fn every_part_of_a_state_compatibility_receipt_is_written(a: StateCompatibilityReceipt, b: StateCompatibilityReceipt)
    ensures
        a.tree() is Object,
        keys_of(a.tree()->Object_0) == seq![
            "schema_version"@,
            "app_id"@,
            "module_instance_key"@,
            "old_runtime_identity"@,
            "new_runtime_identity"@,
            "state_schema_id"@,
            "old_state_schema_digest"@,
            "new_state_schema_digest"@,
            "compatibility"@,
            "policy_digest"@,
            "evidence_digest"@,
            "decision_authority"@,
        ],
        a.tree() == b.tree() ==> {
            &&& a.schema_version == b.schema_version
            &&& a.app_id@ == b.app_id@
            &&& a.module_instance_key@ == b.module_instance_key@
            &&& a.old_runtime_identity@ == b.old_runtime_identity@
            &&& a.new_runtime_identity@ == b.new_runtime_identity@
            &&& a.state_schema_id@ == b.state_schema_id@
            &&& a.old_state_schema_digest@ == b.old_state_schema_digest@
            &&& a.new_state_schema_digest@ == b.new_state_schema_digest@
            &&& a.compatibility.tree() == b.compatibility.tree()
            &&& a.policy_digest@ == b.policy_digest@
            &&& a.evidence_digest@ == b.evidence_digest@
            &&& a.decision_authority@ == b.decision_authority@
        },
{
    let x = a.tree()->Object_0;
    let y = b.tree()->Object_0;
    assert(keys_of(x) =~= seq![
        "schema_version"@,
        "app_id"@,
        "module_instance_key"@,
        "old_runtime_identity"@,
        "new_runtime_identity"@,
        "state_schema_id"@,
        "old_state_schema_digest"@,
        "new_state_schema_digest"@,
        "compatibility"@,
        "policy_digest"@,
        "evidence_digest"@,
        "decision_authority"@,
    ]);
    if a.tree() == b.tree() {
        assert(x[0] == y[0]);
        assert(x[1] == y[1]);
        assert(x[2] == y[2]);
        assert(x[3] == y[3]);
        assert(x[4] == y[4]);
        assert(x[5] == y[5]);
        assert(x[6] == y[6]);
        assert(x[7] == y[7]);
        assert(x[8] == y[8]);
        assert(x[9] == y[9]);
        assert(x[10] == y[10]);
        assert(x[11] == y[11]);
    }
}

/// A state compatibility is written under its names, and two that differ in anything are written differently.
pub proof fn every_part_of_a_state_compatibility_is_written(a: StateCompatibility, b: StateCompatibility)
    ensures
        a.tree() is Object,
        keys_of(a.tree()->Object_0) == seq![
            "concurrent_read"@,
            "concurrent_write"@,
            "old_code_reads_new_writes"@,
        ],
        a.tree() == b.tree() ==> {
            &&& a.concurrent_read == b.concurrent_read
            &&& a.concurrent_write == b.concurrent_write
            &&& a.old_code_reads_new_writes == b.old_code_reads_new_writes
        },
{
    let x = a.tree()->Object_0;
    let y = b.tree()->Object_0;
    assert(keys_of(x) =~= seq![
        "concurrent_read"@,
        "concurrent_write"@,
        "old_code_reads_new_writes"@,
    ]);
    if a.tree() == b.tree() {
        assert(x[0] == y[0]);
        assert(x[1] == y[1]);
        assert(x[2] == y[2]);
    }
}

/// A rollout policy is written under its names, and two that differ in anything are written differently.
pub proof fn every_part_of_a_rollout_policy_is_written(a: RolloutPolicy, b: RolloutPolicy)
    ensures
        a.tree() is Object,
        keys_of(a.tree()->Object_0) == seq![
            "ready_timeout_nanos"@,
            "drain_timeout_nanos"@,
            "rollback_window_nanos"@,
            "automatic_rollback_on_generation_failure"@,
        ],
        a.tree() == b.tree() ==> {
            &&& a.ready_timeout_nanos@ == b.ready_timeout_nanos@
            &&& a.drain_timeout_nanos@ == b.drain_timeout_nanos@
            &&& a.rollback_window_nanos@ == b.rollback_window_nanos@
            &&& a.automatic_rollback_on_generation_failure == b.automatic_rollback_on_generation_failure
        },
{
    let x = a.tree()->Object_0;
    let y = b.tree()->Object_0;
    assert(keys_of(x) =~= seq![
        "ready_timeout_nanos"@,
        "drain_timeout_nanos"@,
        "rollback_window_nanos"@,
        "automatic_rollback_on_generation_failure"@,
    ]);
    if a.tree() == b.tree() {
        assert(x[0] == y[0]);
        assert(x[1] == y[1]);
        assert(x[2] == y[2]);
        assert(x[3] == y[3]);
    }
}

/// A generation control record is written under its names, and two that differ in anything are written differently.
pub proof fn every_part_of_a_generation_control_record_is_written(a: GenerationControlRecord, b: GenerationControlRecord)
    ensures
        a.tree() is Object,
        keys_of(a.tree()->Object_0) == seq![
            "generation_spec_digest"@,
            "transition_spec_digest"@,
            "lifecycle"@,
            "health"@,
            "activation_direction"@,
            "ready_timeout_nanos"@,
            "drain_timeout_nanos"@,
            "drain_deadline_unix_nanos"@,
            "rollback_deadline_unix_nanos"@,
            "automatic_rollback_on_generation_failure"@,
            "state_compatibility_receipt_digests"@,
            "retirement_reason"@,
        ],
        a.tree() == b.tree() ==> {
            &&& a.generation_spec_digest@ == b.generation_spec_digest@
            &&& a.transition_spec_digest@ == b.transition_spec_digest@
            &&& a.lifecycle == b.lifecycle
            &&& a.health == b.health
            &&& a.activation_direction == b.activation_direction
            &&& a.ready_timeout_nanos@ == b.ready_timeout_nanos@
            &&& a.drain_timeout_nanos@ == b.drain_timeout_nanos@
            &&& opt_text(a.drain_deadline_unix_nanos) == opt_text(b.drain_deadline_unix_nanos)
            &&& opt_text(a.rollback_deadline_unix_nanos) == opt_text(b.rollback_deadline_unix_nanos)
            &&& a.automatic_rollback_on_generation_failure == b.automatic_rollback_on_generation_failure
            &&& texts(a.state_compatibility_receipt_digests@) == texts(b.state_compatibility_receipt_digests@)
            &&& a.retirement_reason == b.retirement_reason
        },
{
    let x = a.tree()->Object_0;
    let y = b.tree()->Object_0;
    assert(keys_of(x) =~= seq![
        "generation_spec_digest"@,
        "transition_spec_digest"@,
        "lifecycle"@,
        "health"@,
        "activation_direction"@,
        "ready_timeout_nanos"@,
        "drain_timeout_nanos"@,
        "drain_deadline_unix_nanos"@,
        "rollback_deadline_unix_nanos"@,
        "automatic_rollback_on_generation_failure"@,
        "state_compatibility_receipt_digests"@,
        "retirement_reason"@,
    ]);
    if a.tree() == b.tree() {
        assert(x[0] == y[0]);
        assert(x[1] == y[1]);
        assert(x[2] == y[2]);
        each_control_lifecycle_has_its_word(a.lifecycle, b.lifecycle);
        assert(x[3] == y[3]);
        each_control_health_has_its_word(a.health, b.health);
        assert(x[4] == y[4]);
        each_activation_direction_has_its_word(a.activation_direction, b.activation_direction);
        assert(x[5] == y[5]);
        assert(x[6] == y[6]);
        assert(x[7] == y[7]);
        lemma_optional_texts(opt_text(a.drain_deadline_unix_nanos), opt_text(b.drain_deadline_unix_nanos));
        assert(x[8] == y[8]);
        lemma_optional_texts(opt_text(a.rollback_deadline_unix_nanos), opt_text(b.rollback_deadline_unix_nanos));
        assert(x[9] == y[9]);
        assert(x[10] == y[10]);
        lemma_text_lists(texts(a.state_compatibility_receipt_digests@), texts(b.state_compatibility_receipt_digests@));
        assert(x[11] == y[11]);
        if a.retirement_reason is Some && b.retirement_reason is Some {
            each_retirement_reason_has_its_word(a.retirement_reason->Some_0, b.retirement_reason->Some_0);
        }
    }
}

/// A durable control state is written under its names, and two that differ in anything are written differently.
pub proof fn every_part_of_a_durable_control_state_is_written(a: DurableControlState, b: DurableControlState)
    ensures
        a.tree() is Object,
        keys_of(a.tree()->Object_0) == seq![
            "schema_version"@,
            "app_id"@,
            "revision"@,
            "supervisor_epoch"@,
            "routing_epoch"@,
            "host_suspended"@,
            "active_generation_spec_digest"@,
            "generations"@,
        ],
        a.tree() == b.tree() ==> {
            &&& a.schema_version == b.schema_version
            &&& a.app_id@ == b.app_id@
            &&& a.revision == b.revision
            &&& a.supervisor_epoch == b.supervisor_epoch
            &&& a.routing_epoch == b.routing_epoch
            &&& a.host_suspended == b.host_suspended
            &&& opt_text(a.active_generation_spec_digest) == opt_text(b.active_generation_spec_digest)
            &&& trees(a.generations@) == trees(b.generations@)
        },
{
    let x = a.tree()->Object_0;
    let y = b.tree()->Object_0;
    assert(keys_of(x) =~= seq![
        "schema_version"@,
        "app_id"@,
        "revision"@,
        "supervisor_epoch"@,
        "routing_epoch"@,
        "host_suspended"@,
        "active_generation_spec_digest"@,
        "generations"@,
    ]);
    if a.tree() == b.tree() {
        assert(x[0] == y[0]);
        assert(x[1] == y[1]);
        assert(x[2] == y[2]);
        assert(x[3] == y[3]);
        assert(x[4] == y[4]);
        assert(x[5] == y[5]);
        assert(x[6] == y[6]);
        lemma_optional_texts(opt_text(a.active_generation_spec_digest), opt_text(b.active_generation_spec_digest));
        assert(x[7] == y[7]);
    }
}

/// An admission receipt is written under its names, and two that differ in anything are written differently.
pub proof fn every_part_of_an_admission_receipt_is_written(a: AdmissionReceipt, b: AdmissionReceipt)
    ensures
        a.tree() is Object,
        keys_of(a.tree()->Object_0) == seq![
            "schema_version"@,
            "policy_identity"@,
            "plugin_id"@,
            "release_version"@,
            "manifest_digest"@,
            "artifact_digests"@,
            "product_metadata_digests"@,
            "provenance"@,
            "decision_evidence"@,
        ],
        a.tree() == b.tree() ==> {
            &&& a.schema_version == b.schema_version
            &&& a.policy_identity@ == b.policy_identity@
            &&& a.plugin_id@ == b.plugin_id@
            &&& a.release_version@ == b.release_version@
            &&& a.manifest_digest@ == b.manifest_digest@
            &&& texts(a.artifact_digests@) == texts(b.artifact_digests@)
            &&& texts(a.product_metadata_digests@) == texts(b.product_metadata_digests@)
            &&& a.provenance@ == b.provenance@
            &&& a.decision_evidence@ == b.decision_evidence@
        },
{
    let x = a.tree()->Object_0;
    let y = b.tree()->Object_0;
    assert(keys_of(x) =~= seq![
        "schema_version"@,
        "policy_identity"@,
        "plugin_id"@,
        "release_version"@,
        "manifest_digest"@,
        "artifact_digests"@,
        "product_metadata_digests"@,
        "provenance"@,
        "decision_evidence"@,
    ]);
    if a.tree() == b.tree() {
        assert(x[0] == y[0]);
        assert(x[1] == y[1]);
        assert(x[2] == y[2]);
        assert(x[3] == y[3]);
        assert(x[4] == y[4]);
        assert(x[5] == y[5]);
        lemma_text_lists(texts(a.artifact_digests@), texts(b.artifact_digests@));
        assert(x[6] == y[6]);
        lemma_text_lists(texts(a.product_metadata_digests@), texts(b.product_metadata_digests@));
        assert(x[7] == y[7]);
        assert(x[8] == y[8]);
    }
}

/// A plugin artifact is written under its names, and two that differ in anything are written differently.
pub proof fn every_part_of_a_plugin_artifact_is_written(a: PluginArtifactV2, b: PluginArtifactV2)
    ensures
        a.tree() is Object,
        keys_of(a.tree()->Object_0) == seq![
            "path"@,
            "digest"@,
            "size"@,
            "media_type"@,
            "target"@,
        ],
        a.tree() == b.tree() ==> {
            &&& a.path@ == b.path@
            &&& a.digest@ == b.digest@
            &&& a.size == b.size
            &&& a.media_type@ == b.media_type@
            &&& a.target@ == b.target@
        },
{
    let x = a.tree()->Object_0;
    let y = b.tree()->Object_0;
    assert(keys_of(x) =~= seq![
        "path"@,
        "digest"@,
        "size"@,
        "media_type"@,
        "target"@,
    ]);
    if a.tree() == b.tree() {
        assert(x[0] == y[0]);
        assert(x[1] == y[1]);
        assert(x[2] == y[2]);
        assert(x[3] == y[3]);
        assert(x[4] == y[4]);
    }
}

/// A plugin manifest is written under its names, and two that differ in anything are written differently.
pub proof fn every_part_of_a_plugin_manifest_is_written(a: PluginManifestV2, b: PluginManifestV2)
    ensures
        a.tree() is Object,
        keys_of(a.tree()->Object_0) == seq![
            "schema_version"@,
            "plugin_id"@,
            "release_version"@,
            "artifact"@,
            "entry"@,
        ],
        a.tree() == b.tree() ==> {
            &&& a.schema_version == b.schema_version
            &&& a.plugin_id@ == b.plugin_id@
            &&& a.release_version@ == b.release_version@
            &&& a.artifact.tree() == b.artifact.tree()
            &&& a.entry.tree() == b.entry.tree()
        },
{
    let x = a.tree()->Object_0;
    let y = b.tree()->Object_0;
    assert(keys_of(x) =~= seq![
        "schema_version"@,
        "plugin_id"@,
        "release_version"@,
        "artifact"@,
        "entry"@,
    ]);
    if a.tree() == b.tree() {
        assert(x[0] == y[0]);
        assert(x[1] == y[1]);
        assert(x[2] == y[2]);
        assert(x[3] == y[3]);
        assert(x[4] == y[4]);
    }
}

/// A plugin entry is written under its name, and two that differ are written differently.
pub proof fn every_part_of_a_plugin_entry_is_written(a: PluginEntryV2, b: PluginEntryV2)
    ensures
        a.tree() is Object,
        keys_of(a.tree()->Object_0) == seq!["descriptor"@],
        a.tree() == b.tree() ==> a.descriptor.model() == b.descriptor.model(),
{
    let x = a.tree()->Object_0;
    let y = b.tree()->Object_0;
    assert(keys_of(x) =~= seq!["descriptor"@]);
    if a.tree() == b.tree() {
        assert(x[0] == y[0]);
    }
}

} // verus!
