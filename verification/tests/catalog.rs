use lenso_runtime::catalog::{AdapterClasses, AdapterKind, CoreExecutionCatalogFactory, MultiExecutionCatalogFactory};
use lenso_runtime::digest::sha256_digest;
use lenso_runtime::dylib::EXECUTION_CLASS;
use lenso_runtime::error::ControlPlaneError;
use lenso_runtime::plan::{AppPlan, PlanInstance};
use lenso_runtime::store::{
    digest_component, judge_existing, stored_artifact, AdmissionPolicy, ArtifactDeclaration, ArtifactSource, Existing, NoArtifactSource, PluginBundle,
    PluginStore, ReleaseManifest,
};
use lenso_runtime::bundle::{BundleError, VerifiedBundle};
use lenso_runtime::text_map::TextMap;

const REMOTE_CLASS: &str = "lenso.remote@1";

fn classes() -> AdapterClasses {
    AdapterClasses {
        wasm_component: "lenso.wasm-component@1".to_owned(),
        quickjs: "lenso.quickjs@1".to_owned(),
        process: "lenso.process@1".to_owned(),
        remote: REMOTE_CLASS.to_owned(),
        dylib: EXECUTION_CLASS.to_owned(),
    }
}

fn plan_selecting(execution_class: &str) -> AppPlan {
    AppPlan {
        instances: vec![
            PlanInstance {
                instance_key: "selected".to_owned(),
                package_id: "test.selected".to_owned(),
                package_revision: String::new(),
                entrypoint: "default".to_owned(),
                configuration: "{}".to_owned(),
                execution_class: execution_class.to_owned(),
                runtime_profile: execution_class.to_owned(),
                provided_capabilities: Vec::new(),
            },
        ],
        bindings: Vec::new(),
        bytes: Vec::new(),
    }
}

#[test]
fn core_factory_can_defer_an_external_execution_class() {
    CoreExecutionCatalogFactory::new(classes())
        .with_deferred_execution_class("example.external@1".to_owned())
        .catalog(&plan_selecting("example.external@1"), &Vec::new())
        .expect("the outer factory supplies the deferred Adapter");
}

#[test]
fn core_factory_fails_closed_for_unavailable_external_adapters() {
    for execution_class in [REMOTE_CLASS, EXECUTION_CLASS] {
        let error = CoreExecutionCatalogFactory::new(classes()).catalog(&plan_selecting(execution_class), &Vec::new()).unwrap_err();
        assert_eq!(error.message(), format!("Host Build has no installed Adapter for selected class `{execution_class}`"));
    }
}

#[test]
fn full_factory_can_defer_an_external_execution_class() {
    MultiExecutionCatalogFactory::new(classes())
        .with_deferred_execution_class("example.external@1".to_owned())
        .catalog(&plan_selecting("example.external@1"), &Vec::new())
        .expect("the outer factory supplies the deferred Adapter");
}

#[test]
fn full_factory_requires_a_dylib_trust_verifier() {
    let error = MultiExecutionCatalogFactory::new(classes()).catalog(&plan_selecting(EXECUTION_CLASS), &Vec::new()).unwrap_err();
    assert_eq!(error.message(), "Host Build selected native dylib without a trust verifier");
    let installed = MultiExecutionCatalogFactory::new(classes()).with_dylib_verifier().catalog(&plan_selecting(EXECUTION_CLASS), &Vec::new()).unwrap();
    assert_eq!(installed, [AdapterKind::Dylib]);
}

#[test]
fn only_selected_adapters_are_installed() {
    let installed = CoreExecutionCatalogFactory::new(classes()).catalog(&plan_selecting("lenso.process@1"), &Vec::new()).unwrap();
    assert_eq!(installed, [AdapterKind::Process]);
    let base = vec!["lenso.native-rust@1".to_owned()];
    let installed = CoreExecutionCatalogFactory::new(classes()).catalog(&plan_selecting("lenso.native-rust@1"), &base).unwrap();
    assert!(installed.is_empty());
}

fn declaration() -> ArtifactDeclaration {
    ArtifactDeclaration {
        id: "unavailable".to_owned(),
        digest: sha256_digest(b"artifact"),
        size: 8,
        media_type: "text/javascript".to_owned(),
        path: "plugin.mjs".to_owned(),
        targets: vec!["test-target".to_owned()],
    }
}

#[test]
fn absent_artifact_source_fails_closed() {
    let error = NoArtifactSource.artifact(&declaration()).unwrap_err();

    assert!(matches!(&error, ControlPlaneError::AdmissionRejected { .. }));
    assert!(error.message().contains("no Artifact source"));
}

#[test]
fn a_stored_artifact_matches_its_declaration() {
    let found = stored_artifact(&declaration(), true, &b"artifact".to_vec(), "/store/plugin".to_owned()).unwrap();
    assert_eq!((found.digest.as_str(), found.size), (declaration().digest.as_str(), 8));
    assert!(stored_artifact(&declaration(), false, &b"artifact".to_vec(), "/store/plugin".to_owned()).is_err());
    assert!(stored_artifact(&declaration(), true, &b"tampered".to_vec(), "/store/plugin".to_owned()).is_err());
    assert_eq!(digest_component(&declaration().digest).unwrap().len(), 64);
    assert!(digest_component("sha256:abc").is_err());
}

#[test]
fn committed_content_is_never_replaced() {
    let bytes = b"content".to_vec();
    assert!(judge_existing(&Existing::File(bytes.clone()), &bytes, "path").is_ok());
    assert!(judge_existing(&Existing::Raced(bytes.clone()), &bytes, "path").is_ok());
    assert!(judge_existing(&Existing::File(b"other".to_vec()), &bytes, "path").is_err());
    assert!(judge_existing(&Existing::Irregular, &bytes, "path").is_err());
}

struct Allow;

impl AdmissionPolicy for Allow {
    fn decide(&self, _: &ReleaseManifest, _: &str, _: &Vec<String>, _: &Vec<String>, _: &str) -> Result<String, ControlPlaneError> {
        Ok("reviewed".to_owned())
    }

    fn identity(&self) -> &'static str {
        "test-policy"
    }
}

struct Deny;

impl AdmissionPolicy for Deny {
    fn decide(&self, _: &ReleaseManifest, _: &str, _: &Vec<String>, _: &Vec<String>, _: &str) -> Result<String, ControlPlaneError> {
        Err(ControlPlaneError::AdmissionRejected { detail: "denied".to_owned() })
    }

    fn identity(&self) -> &'static str {
        "test-policy"
    }
}

#[test]
fn a_release_is_committed_only_as_the_policy_admits_it() {
    let mut files = TextMap::new();
    files.insert("plugin.mjs".to_owned(), b"artifact".to_vec());
    let bundle = PluginBundle::new(b"{}".to_vec(), files, "local".to_owned());
    let release = ReleaseManifest {
        plugin_id: "example.tool".to_owned(),
        release_version: "1.0.0".to_owned(),
        artifacts: vec![declaration()],
        product_metadata: Vec::new(),
    };
    let digest = sha256_digest(b"{}");
    let verified = || {
        Ok::<VerifiedBundle, BundleError>(VerifiedBundle {
            plugin_id: "example.tool".to_owned(),
            release_version: "1.0.0".to_owned(),
            manifest_digest: sha256_digest(b"{}"),
            artifact_digests: vec![declaration().digest],
            product_metadata_digests: Vec::new(),
        })
    };
    let store = PluginStore::at("/store".to_owned());
    let admission = store.admit_release(&bundle, &release, &digest, &b"{}".to_vec(), Ok(digest.clone()), verified(), &Allow).unwrap();
    assert_eq!(admission.receipt.value().policy_identity, "test-policy");
    assert_eq!(admission.receipt.value().decision_evidence, "reviewed");
    assert!(admission.commits.iter().any(|commit| commit.bytes == b"artifact"));
    assert!(admission.commits.iter().all(|commit| commit.digest == sha256_digest(&commit.bytes)));
    let denied = store.admit_release(&bundle, &release, &digest, &b"{}".to_vec(), Ok(digest.clone()), verified(), &Deny).unwrap_err();
    assert_eq!(denied.message(), "denied");
    let small = PluginStore::at("/store".to_owned()).with_limits(1, 1);
    assert!(small.check_manifest(&bundle).is_err());
    assert!(small.check_sizes(&release, &bundle.files).is_err());
}
