//! Authority documents of the control plane.
use vstd::prelude::*;
use vstd::string::*;

use crate::canonical::{list_json, opt_text_json, opt_text_tree, text_list_json, text_list_tree, trees, Document};
use crate::json::{entry_models, object_model, Json, JsonView};
use crate::text::{opt_text, texts};

verus! {

/// Truthful location at which one effective grant is enforced.
#[derive(Clone, Copy, Debug, PartialEq, Eq, Structural)]
pub enum EnforcementKind {
    Capability,
    Plugin,
    Adapter,
    Host,
    TrustReviewOnly,
}

/// How a candidate Generation takes the place of its predecessor.
#[derive(Clone, Copy, Debug, PartialEq, Eq, Structural)]
pub enum ReplacementMode {
    Initial,
    Overlap,
    Maintenance,
}

/// Immutable build identity of the executable and installed Adapter catalog.
#[derive(Clone, Debug, PartialEq, Eq)]
pub struct HostBuildManifest {
    pub schema_version: u32,
    pub app_id: String,
    pub host_executable_digest: String,
    pub target: String,
    pub embedded_plugins: Vec<EmbeddedPlugin>,
    pub adapter_profiles: Vec<AdapterProfile>,
}

/// One Plugin that the Host executable contains.
#[derive(Clone, Debug, PartialEq, Eq)]
pub struct EmbeddedPlugin {
    pub package_id: String,
    pub factory_identity: String,
    pub execution_class: String,
}

/// One installed Adapter and what it supports.
#[derive(Clone, Debug, PartialEq, Eq)]
pub struct AdapterProfile {
    pub execution_class: String,
    pub adapter_build_identity: String,
    pub targets: Vec<String>,
    pub profiles: Vec<String>,
}

/// Product-owned deterministic execution-class selection policy.
#[derive(Clone, Debug, PartialEq, Eq)]
pub struct HostExecutionPolicy {
    pub schema_version: u32,
    pub app_id: String,
    pub host_build_manifest_digest: String,
    pub target: String,
    pub preference: Vec<String>,
}

/// Exact artifact and implementation selection produced by resolution.
#[derive(Clone, Debug, PartialEq, Eq)]
pub struct ResolvedArtifactSet {
    pub schema_version: u32,
    pub resolution_authority_digest: String,
    pub host_execution_policy_digest: String,
    pub artifacts: Vec<ResolvedArtifact>,
    pub instance_resources: Vec<ResolvedInstanceResources>,
}

/// One execution Artifact of a Generation.
#[derive(Clone, Debug, PartialEq, Eq)]
pub struct ResolvedArtifact {
    pub plugin_id: String,
    pub artifact_id: String,
    pub digest: String,
    pub size: u64,
    pub media_type: String,
    pub target: String,
}

/// The supporting files of one Plugin Instance.
#[derive(Clone, Debug, PartialEq, Eq)]
pub struct ResolvedInstanceResources {
    pub instance_key: String,
    pub digest: String,
    pub file_count: u64,
    pub total_size: u64,
}

/// Effective, named enforcement authority for selected Instances.
#[derive(Clone, Debug, PartialEq, Eq)]
pub struct EffectiveHostGrantSet {
    pub schema_version: u32,
    pub resolution_authority_digest: String,
    pub grants: Vec<EffectiveGrant>,
}

/// One grant and the place that enforces it.
#[derive(Clone, Debug, PartialEq, Eq)]
pub struct EffectiveGrant {
    pub instance_key: String,
    pub permission_request_id: String,
    pub scope: Json,
    pub enforcement_kind: EnforcementKind,
    pub enforcer_identity: String,
    pub configuration: Json,
}

/// Immutable identity of one complete executable App Generation.
#[derive(Clone, Debug, PartialEq, Eq)]
pub struct AppGenerationSpec {
    pub schema_version: u32,
    pub app_id: String,
    pub host_build_manifest_digest: String,
    pub host_execution_policy_digest: String,
    pub resolved_plan_digest: String,
    pub resolution_authority_digest: String,
    pub resolved_artifact_set_digest: String,
    pub effective_host_grant_set_digest: String,
}

/// Immutable edge authority for one fenced Generation transition.
#[derive(Clone, Debug, PartialEq, Eq)]
pub struct AppGenerationTransitionSpec {
    pub schema_version: u32,
    pub app_id: String,
    pub from_generation_spec_digest: Option<String>,
    pub to_generation_spec_digest: String,
    pub replacement_mode: ReplacementMode,
    pub state_compatibility_receipt_digests: Vec<String>,
    pub rollout_policy: RolloutPolicy,
}

/// Detached product decision authorizing one exact stateful replacement edge.
#[derive(Clone, Debug, PartialEq, Eq)]
pub struct StateCompatibilityReceipt {
    pub schema_version: u32,
    pub app_id: String,
    pub module_instance_key: String,
    pub old_runtime_identity: String,
    pub new_runtime_identity: String,
    pub state_schema_id: String,
    pub old_state_schema_digest: String,
    pub new_state_schema_digest: String,
    pub compatibility: StateCompatibility,
    pub policy_digest: String,
    pub evidence_digest: String,
    pub decision_authority: String,
}

/// Exact overlap and rollback properties established by compatibility evidence.
#[derive(Clone, Debug, PartialEq, Eq)]
pub struct StateCompatibility {
    pub concurrent_read: bool,
    pub concurrent_write: bool,
    pub old_code_reads_new_writes: bool,
}

/// Timeouts and rollback authority of one transition.
#[derive(Clone, Debug, PartialEq, Eq)]
pub struct RolloutPolicy {
    pub ready_timeout_nanos: String,
    pub drain_timeout_nanos: String,
    pub rollback_window_nanos: String,
    pub automatic_rollback_on_generation_failure: bool,
}

/// Exact runtime identity used by state replacement evidence.
#[derive(Clone, Debug, PartialEq, Eq)]
pub struct StatefulRuntimeIdentity {
    pub runtime_identity: String,
    pub state_schema_id: String,
    pub state_schema_digest: String,
}

impl Document for EnforcementKind {
    open spec fn tree(&self) -> JsonView {
        JsonView::Text(
            match *self {
                EnforcementKind::Capability => "capability"@,
                EnforcementKind::Plugin => "plugin"@,
                EnforcementKind::Adapter => "adapter"@,
                EnforcementKind::Host => "host"@,
                EnforcementKind::TrustReviewOnly => "trust_review_only"@,
            },
        )
    }

    fn to_json(&self) -> (r: Json) {
        Json::Text(
            match self {
                EnforcementKind::Capability => "capability".to_owned(),
                EnforcementKind::Plugin => "plugin".to_owned(),
                EnforcementKind::Adapter => "adapter".to_owned(),
                EnforcementKind::Host => "host".to_owned(),
                EnforcementKind::TrustReviewOnly => "trust_review_only".to_owned(),
            },
        )
    }
}

impl Document for ReplacementMode {
    open spec fn tree(&self) -> JsonView {
        JsonView::Text(
            match *self {
                ReplacementMode::Initial => "initial"@,
                ReplacementMode::Overlap => "overlap"@,
                ReplacementMode::Maintenance => "maintenance"@,
            },
        )
    }

    fn to_json(&self) -> (r: Json) {
        Json::Text(
            match self {
                ReplacementMode::Initial => "initial".to_owned(),
                ReplacementMode::Overlap => "overlap".to_owned(),
                ReplacementMode::Maintenance => "maintenance".to_owned(),
            },
        )
    }
}

impl Document for HostBuildManifest {
    open spec fn tree(&self) -> JsonView {
        JsonView::Object(
            seq![
                ("schema_version"@, JsonView::Unsigned(self.schema_version as u64)),
                ("app_id"@, JsonView::Text(self.app_id@)),
                ("host_executable_digest"@, JsonView::Text(self.host_executable_digest@)),
                ("target"@, JsonView::Text(self.target@)),
                ("embedded_plugins"@, JsonView::List(trees(self.embedded_plugins@))),
                ("adapter_profiles"@, JsonView::List(trees(self.adapter_profiles@))),
            ],
        )
    }

    fn to_json(&self) -> (r: Json) {
        let mut entries: Vec<(String, Json)> = Vec::new();
        entries.push(("schema_version".to_owned(), Json::Unsigned(self.schema_version as u64)));
        entries.push(("app_id".to_owned(), Json::Text(self.app_id.clone())));
        entries.push(("host_executable_digest".to_owned(), Json::Text(self.host_executable_digest.clone())));
        entries.push(("target".to_owned(), Json::Text(self.target.clone())));
        entries.push(("embedded_plugins".to_owned(), list_json(&self.embedded_plugins)));
        entries.push(("adapter_profiles".to_owned(), list_json(&self.adapter_profiles)));
        proof {
            object_model(entries);
            assert(entry_models(entries@) =~= self.tree()->Object_0);
        }
        Json::Object(entries)
    }
}

impl Document for EmbeddedPlugin {
    open spec fn tree(&self) -> JsonView {
        JsonView::Object(
            seq![
                ("package_id"@, JsonView::Text(self.package_id@)),
                ("factory_identity"@, JsonView::Text(self.factory_identity@)),
                ("execution_class"@, JsonView::Text(self.execution_class@)),
            ],
        )
    }

    fn to_json(&self) -> (r: Json) {
        let mut entries: Vec<(String, Json)> = Vec::new();
        entries.push(("package_id".to_owned(), Json::Text(self.package_id.clone())));
        entries.push(("factory_identity".to_owned(), Json::Text(self.factory_identity.clone())));
        entries.push(("execution_class".to_owned(), Json::Text(self.execution_class.clone())));
        proof {
            object_model(entries);
            assert(entry_models(entries@) =~= self.tree()->Object_0);
        }
        Json::Object(entries)
    }
}

impl Document for AdapterProfile {
    open spec fn tree(&self) -> JsonView {
        JsonView::Object(
            seq![
                ("execution_class"@, JsonView::Text(self.execution_class@)),
                ("adapter_build_identity"@, JsonView::Text(self.adapter_build_identity@)),
                ("targets"@, text_list_tree(texts(self.targets@))),
                ("profiles"@, text_list_tree(texts(self.profiles@))),
            ],
        )
    }

    fn to_json(&self) -> (r: Json) {
        let mut entries: Vec<(String, Json)> = Vec::new();
        entries.push(("execution_class".to_owned(), Json::Text(self.execution_class.clone())));
        entries.push(("adapter_build_identity".to_owned(), Json::Text(self.adapter_build_identity.clone())));
        entries.push(("targets".to_owned(), text_list_json(&self.targets)));
        entries.push(("profiles".to_owned(), text_list_json(&self.profiles)));
        proof {
            object_model(entries);
            assert(entry_models(entries@) =~= self.tree()->Object_0);
        }
        Json::Object(entries)
    }
}

impl Document for HostExecutionPolicy {
    open spec fn tree(&self) -> JsonView {
        JsonView::Object(
            seq![
                ("schema_version"@, JsonView::Unsigned(self.schema_version as u64)),
                ("app_id"@, JsonView::Text(self.app_id@)),
                ("host_build_manifest_digest"@, JsonView::Text(self.host_build_manifest_digest@)),
                ("target"@, JsonView::Text(self.target@)),
                ("preference"@, text_list_tree(texts(self.preference@))),
            ],
        )
    }

    fn to_json(&self) -> (r: Json) {
        let mut entries: Vec<(String, Json)> = Vec::new();
        entries.push(("schema_version".to_owned(), Json::Unsigned(self.schema_version as u64)));
        entries.push(("app_id".to_owned(), Json::Text(self.app_id.clone())));
        entries.push(("host_build_manifest_digest".to_owned(), Json::Text(self.host_build_manifest_digest.clone())));
        entries.push(("target".to_owned(), Json::Text(self.target.clone())));
        entries.push(("preference".to_owned(), text_list_json(&self.preference)));
        proof {
            object_model(entries);
            assert(entry_models(entries@) =~= self.tree()->Object_0);
        }
        Json::Object(entries)
    }
}

impl Document for ResolvedArtifactSet {
    open spec fn tree(&self) -> JsonView {
        JsonView::Object(
            seq![
                ("schema_version"@, JsonView::Unsigned(self.schema_version as u64)),
                ("resolution_authority_digest"@, JsonView::Text(self.resolution_authority_digest@)),
                ("host_execution_policy_digest"@, JsonView::Text(self.host_execution_policy_digest@)),
                ("artifacts"@, JsonView::List(trees(self.artifacts@))),
                ("instance_resources"@, JsonView::List(trees(self.instance_resources@))),
            ],
        )
    }

    fn to_json(&self) -> (r: Json) {
        let mut entries: Vec<(String, Json)> = Vec::new();
        entries.push(("schema_version".to_owned(), Json::Unsigned(self.schema_version as u64)));
        entries.push(("resolution_authority_digest".to_owned(), Json::Text(self.resolution_authority_digest.clone())));
        entries.push(("host_execution_policy_digest".to_owned(), Json::Text(self.host_execution_policy_digest.clone())));
        entries.push(("artifacts".to_owned(), list_json(&self.artifacts)));
        entries.push(("instance_resources".to_owned(), list_json(&self.instance_resources)));
        proof {
            object_model(entries);
            assert(entry_models(entries@) =~= self.tree()->Object_0);
        }
        Json::Object(entries)
    }
}

impl Document for ResolvedArtifact {
    open spec fn tree(&self) -> JsonView {
        JsonView::Object(
            seq![
                ("plugin_id"@, JsonView::Text(self.plugin_id@)),
                ("artifact_id"@, JsonView::Text(self.artifact_id@)),
                ("digest"@, JsonView::Text(self.digest@)),
                ("size"@, JsonView::Unsigned(self.size)),
                ("media_type"@, JsonView::Text(self.media_type@)),
                ("target"@, JsonView::Text(self.target@)),
            ],
        )
    }

    fn to_json(&self) -> (r: Json) {
        let mut entries: Vec<(String, Json)> = Vec::new();
        entries.push(("plugin_id".to_owned(), Json::Text(self.plugin_id.clone())));
        entries.push(("artifact_id".to_owned(), Json::Text(self.artifact_id.clone())));
        entries.push(("digest".to_owned(), Json::Text(self.digest.clone())));
        entries.push(("size".to_owned(), Json::Unsigned(self.size)));
        entries.push(("media_type".to_owned(), Json::Text(self.media_type.clone())));
        entries.push(("target".to_owned(), Json::Text(self.target.clone())));
        proof {
            object_model(entries);
            assert(entry_models(entries@) =~= self.tree()->Object_0);
        }
        Json::Object(entries)
    }
}

impl Document for ResolvedInstanceResources {
    open spec fn tree(&self) -> JsonView {
        JsonView::Object(
            seq![
                ("instance_key"@, JsonView::Text(self.instance_key@)),
                ("digest"@, JsonView::Text(self.digest@)),
                ("file_count"@, JsonView::Unsigned(self.file_count)),
                ("total_size"@, JsonView::Unsigned(self.total_size)),
            ],
        )
    }

    fn to_json(&self) -> (r: Json) {
        let mut entries: Vec<(String, Json)> = Vec::new();
        entries.push(("instance_key".to_owned(), Json::Text(self.instance_key.clone())));
        entries.push(("digest".to_owned(), Json::Text(self.digest.clone())));
        entries.push(("file_count".to_owned(), Json::Unsigned(self.file_count)));
        entries.push(("total_size".to_owned(), Json::Unsigned(self.total_size)));
        proof {
            object_model(entries);
            assert(entry_models(entries@) =~= self.tree()->Object_0);
        }
        Json::Object(entries)
    }
}

impl Document for EffectiveHostGrantSet {
    open spec fn tree(&self) -> JsonView {
        JsonView::Object(
            seq![
                ("schema_version"@, JsonView::Unsigned(self.schema_version as u64)),
                ("resolution_authority_digest"@, JsonView::Text(self.resolution_authority_digest@)),
                ("grants"@, JsonView::List(trees(self.grants@))),
            ],
        )
    }

    fn to_json(&self) -> (r: Json) {
        let mut entries: Vec<(String, Json)> = Vec::new();
        entries.push(("schema_version".to_owned(), Json::Unsigned(self.schema_version as u64)));
        entries.push(("resolution_authority_digest".to_owned(), Json::Text(self.resolution_authority_digest.clone())));
        entries.push(("grants".to_owned(), list_json(&self.grants)));
        proof {
            object_model(entries);
            assert(entry_models(entries@) =~= self.tree()->Object_0);
        }
        Json::Object(entries)
    }
}

impl Document for EffectiveGrant {
    open spec fn tree(&self) -> JsonView {
        JsonView::Object(
            seq![
                ("instance_key"@, JsonView::Text(self.instance_key@)),
                ("permission_request_id"@, JsonView::Text(self.permission_request_id@)),
                ("scope"@, self.scope.model()),
                ("enforcement_kind"@, self.enforcement_kind.tree()),
                ("enforcer_identity"@, JsonView::Text(self.enforcer_identity@)),
                ("configuration"@, self.configuration.model()),
            ],
        )
    }

    fn to_json(&self) -> (r: Json) {
        let mut entries: Vec<(String, Json)> = Vec::new();
        entries.push(("instance_key".to_owned(), Json::Text(self.instance_key.clone())));
        entries.push(("permission_request_id".to_owned(), Json::Text(self.permission_request_id.clone())));
        entries.push(("scope".to_owned(), self.scope.clone()));
        entries.push(("enforcement_kind".to_owned(), self.enforcement_kind.to_json()));
        entries.push(("enforcer_identity".to_owned(), Json::Text(self.enforcer_identity.clone())));
        entries.push(("configuration".to_owned(), self.configuration.clone()));
        proof {
            object_model(entries);
            assert(entry_models(entries@) =~= self.tree()->Object_0);
        }
        Json::Object(entries)
    }
}

impl Document for AppGenerationSpec {
    open spec fn tree(&self) -> JsonView {
        JsonView::Object(
            seq![
                ("schema_version"@, JsonView::Unsigned(self.schema_version as u64)),
                ("app_id"@, JsonView::Text(self.app_id@)),
                ("host_build_manifest_digest"@, JsonView::Text(self.host_build_manifest_digest@)),
                ("host_execution_policy_digest"@, JsonView::Text(self.host_execution_policy_digest@)),
                ("resolved_plan_digest"@, JsonView::Text(self.resolved_plan_digest@)),
                ("resolution_authority_digest"@, JsonView::Text(self.resolution_authority_digest@)),
                ("resolved_artifact_set_digest"@, JsonView::Text(self.resolved_artifact_set_digest@)),
                ("effective_host_grant_set_digest"@, JsonView::Text(self.effective_host_grant_set_digest@)),
            ],
        )
    }

    fn to_json(&self) -> (r: Json) {
        let mut entries: Vec<(String, Json)> = Vec::new();
        entries.push(("schema_version".to_owned(), Json::Unsigned(self.schema_version as u64)));
        entries.push(("app_id".to_owned(), Json::Text(self.app_id.clone())));
        entries.push(("host_build_manifest_digest".to_owned(), Json::Text(self.host_build_manifest_digest.clone())));
        entries.push(("host_execution_policy_digest".to_owned(), Json::Text(self.host_execution_policy_digest.clone())));
        entries.push(("resolved_plan_digest".to_owned(), Json::Text(self.resolved_plan_digest.clone())));
        entries.push(("resolution_authority_digest".to_owned(), Json::Text(self.resolution_authority_digest.clone())));
        entries.push(("resolved_artifact_set_digest".to_owned(), Json::Text(self.resolved_artifact_set_digest.clone())));
        entries.push(("effective_host_grant_set_digest".to_owned(), Json::Text(self.effective_host_grant_set_digest.clone())));
        proof {
            object_model(entries);
            assert(entry_models(entries@) =~= self.tree()->Object_0);
        }
        Json::Object(entries)
    }
}

impl Document for AppGenerationTransitionSpec {
    open spec fn tree(&self) -> JsonView {
        JsonView::Object(
            seq![
                ("schema_version"@, JsonView::Unsigned(self.schema_version as u64)),
                ("app_id"@, JsonView::Text(self.app_id@)),
                ("from_generation_spec_digest"@, opt_text_tree(opt_text(self.from_generation_spec_digest))),
                ("to_generation_spec_digest"@, JsonView::Text(self.to_generation_spec_digest@)),
                ("replacement_mode"@, self.replacement_mode.tree()),
                ("state_compatibility_receipt_digests"@, text_list_tree(texts(self.state_compatibility_receipt_digests@))),
                ("rollout_policy"@, self.rollout_policy.tree()),
            ],
        )
    }

    fn to_json(&self) -> (r: Json) {
        let mut entries: Vec<(String, Json)> = Vec::new();
        entries.push(("schema_version".to_owned(), Json::Unsigned(self.schema_version as u64)));
        entries.push(("app_id".to_owned(), Json::Text(self.app_id.clone())));
        entries.push(("from_generation_spec_digest".to_owned(), opt_text_json(&self.from_generation_spec_digest)));
        entries.push(("to_generation_spec_digest".to_owned(), Json::Text(self.to_generation_spec_digest.clone())));
        entries.push(("replacement_mode".to_owned(), self.replacement_mode.to_json()));
        entries.push(("state_compatibility_receipt_digests".to_owned(), text_list_json(&self.state_compatibility_receipt_digests)));
        entries.push(("rollout_policy".to_owned(), self.rollout_policy.to_json()));
        proof {
            object_model(entries);
            assert(entry_models(entries@) =~= self.tree()->Object_0);
        }
        Json::Object(entries)
    }
}

impl Document for StateCompatibilityReceipt {
    open spec fn tree(&self) -> JsonView {
        JsonView::Object(
            seq![
                ("schema_version"@, JsonView::Unsigned(self.schema_version as u64)),
                ("app_id"@, JsonView::Text(self.app_id@)),
                ("module_instance_key"@, JsonView::Text(self.module_instance_key@)),
                ("old_runtime_identity"@, JsonView::Text(self.old_runtime_identity@)),
                ("new_runtime_identity"@, JsonView::Text(self.new_runtime_identity@)),
                ("state_schema_id"@, JsonView::Text(self.state_schema_id@)),
                ("old_state_schema_digest"@, JsonView::Text(self.old_state_schema_digest@)),
                ("new_state_schema_digest"@, JsonView::Text(self.new_state_schema_digest@)),
                ("compatibility"@, self.compatibility.tree()),
                ("policy_digest"@, JsonView::Text(self.policy_digest@)),
                ("evidence_digest"@, JsonView::Text(self.evidence_digest@)),
                ("decision_authority"@, JsonView::Text(self.decision_authority@)),
            ],
        )
    }

    fn to_json(&self) -> (r: Json) {
        let mut entries: Vec<(String, Json)> = Vec::new();
        entries.push(("schema_version".to_owned(), Json::Unsigned(self.schema_version as u64)));
        entries.push(("app_id".to_owned(), Json::Text(self.app_id.clone())));
        entries.push(("module_instance_key".to_owned(), Json::Text(self.module_instance_key.clone())));
        entries.push(("old_runtime_identity".to_owned(), Json::Text(self.old_runtime_identity.clone())));
        entries.push(("new_runtime_identity".to_owned(), Json::Text(self.new_runtime_identity.clone())));
        entries.push(("state_schema_id".to_owned(), Json::Text(self.state_schema_id.clone())));
        entries.push(("old_state_schema_digest".to_owned(), Json::Text(self.old_state_schema_digest.clone())));
        entries.push(("new_state_schema_digest".to_owned(), Json::Text(self.new_state_schema_digest.clone())));
        entries.push(("compatibility".to_owned(), self.compatibility.to_json()));
        entries.push(("policy_digest".to_owned(), Json::Text(self.policy_digest.clone())));
        entries.push(("evidence_digest".to_owned(), Json::Text(self.evidence_digest.clone())));
        entries.push(("decision_authority".to_owned(), Json::Text(self.decision_authority.clone())));
        proof {
            object_model(entries);
            assert(entry_models(entries@) =~= self.tree()->Object_0);
        }
        Json::Object(entries)
    }
}

impl Document for StateCompatibility {
    open spec fn tree(&self) -> JsonView {
        JsonView::Object(
            seq![
                ("concurrent_read"@, JsonView::Bool(self.concurrent_read)),
                ("concurrent_write"@, JsonView::Bool(self.concurrent_write)),
                ("old_code_reads_new_writes"@, JsonView::Bool(self.old_code_reads_new_writes)),
            ],
        )
    }

    fn to_json(&self) -> (r: Json) {
        let mut entries: Vec<(String, Json)> = Vec::new();
        entries.push(("concurrent_read".to_owned(), Json::Bool(self.concurrent_read)));
        entries.push(("concurrent_write".to_owned(), Json::Bool(self.concurrent_write)));
        entries.push(("old_code_reads_new_writes".to_owned(), Json::Bool(self.old_code_reads_new_writes)));
        proof {
            object_model(entries);
            assert(entry_models(entries@) =~= self.tree()->Object_0);
        }
        Json::Object(entries)
    }
}

impl Document for RolloutPolicy {
    open spec fn tree(&self) -> JsonView {
        JsonView::Object(
            seq![
                ("ready_timeout_nanos"@, JsonView::Text(self.ready_timeout_nanos@)),
                ("drain_timeout_nanos"@, JsonView::Text(self.drain_timeout_nanos@)),
                ("rollback_window_nanos"@, JsonView::Text(self.rollback_window_nanos@)),
                ("automatic_rollback_on_generation_failure"@, JsonView::Bool(self.automatic_rollback_on_generation_failure)),
            ],
        )
    }

    fn to_json(&self) -> (r: Json) {
        let mut entries: Vec<(String, Json)> = Vec::new();
        entries.push(("ready_timeout_nanos".to_owned(), Json::Text(self.ready_timeout_nanos.clone())));
        entries.push(("drain_timeout_nanos".to_owned(), Json::Text(self.drain_timeout_nanos.clone())));
        entries.push(("rollback_window_nanos".to_owned(), Json::Text(self.rollback_window_nanos.clone())));
        entries.push(("automatic_rollback_on_generation_failure".to_owned(), Json::Bool(self.automatic_rollback_on_generation_failure)));
        proof {
            object_model(entries);
            assert(entry_models(entries@) =~= self.tree()->Object_0);
        }
        Json::Object(entries)
    }
}

} // verus!
