use std::collections::BTreeMap;

use lenso_app_plan::{CapabilityBinding, CapabilityEndpointPlan, ExecutionClassId, PluginInstancePlan, ResolvedAppPlan};
use lenso_runtime::canonical::CanonicalDocument;
use lenso_runtime::digest::sha256_digest;
use lenso_runtime::distribution::{
    check_bounded, check_inventory, io_error, judge_resolver, resolver_arguments, take_artifact, validate_current_platform, ArtifactStep, validate_digest,
    validate_relative, verify_file, BundleInventory, DistributionError, DistributionFile, DistributionLock, Drained, FoundFile,
    OpeningDistribution, OpeningStep, ResolverEnd, RuntimeResolution, VerifiedDistribution,
};
use lenso_runtime::generation::{ArtifactHandle, InstanceResources};
use lenso_runtime::model::{HostBuildManifest, HostExecutionPolicy};
use lenso_runtime::paths::{file_name, is_leading_down, is_portable};
use lenso_runtime::plan::{AppPlan, PlanInstance};
use lenso_runtime::resolver::{resolve_plan_generation, PlanArtifact, PlanGenerationInput};
use lenso_runtime::text_map::TextMap;

const TARGET: &str = "x86_64-unknown-linux-gnu";

struct Directory {
    files: BTreeMap<String, (Vec<u8>, bool)>,
}

impl Directory {
    fn new(files: &[(&str, &[u8], bool)]) -> Self {
        Directory { files: files.iter().map(|(path, bytes, executable)| (path.to_string(), (bytes.to_vec(), *executable))).collect() }
    }

    fn lock(&self, roles: &[(&str, &str)]) -> DistributionLock {
        DistributionLock {
            schema: "lenso.host-distribution.v1".to_owned(),
            app_id: "company.app".to_owned(),
            target: TARGET.to_owned(),
            platform: "linux".to_owned(),
            arch: "x64".to_owned(),
            files: roles
                .iter()
                .map(|(path, role)| {
                    let (bytes, executable) = &self.files[*path];
                    DistributionFile {
                        path: path.to_string(),
                        role: role.to_string(),
                        sha256: sha256_digest(bytes),
                        size: bytes.len() as u64,
                        executable: *executable,
                    }
                })
                .collect(),
        }
    }

    fn open(&self, lock: DistributionLock) -> Result<VerifiedDistribution, DistributionError> {
        let mut opening = OpeningDistribution::begin("/distribution".to_owned(), b"lock", Ok(lock), "linux", "x86_64")?;
        loop {
            let (next, step) = opening.step()?;
            opening = match step {
                OpeningStep::Finished => return next.finish(),
                OpeningStep::Inspect(i) => {
                    let (bytes, executable) = &self.files[&next.file(i).path];
                    let found = FoundFile { regular: true, size: bytes.len() as u64, executable: *executable };
                    next.inspected(found, bytes)?
                }
            };
        }
    }
}

fn refused(outcome: Result<VerifiedDistribution, DistributionError>) -> String {
    match outcome {
        Ok(_) => panic!("the distribution was accepted"),
        Err(error) => error.message(),
    }
}

const ROLES: [(&str, &str); 8] = [
    (".lenso/host-build.json", "host_authority"),
    ("bundles.json", "bundle_inventory"),
    ("runtime/lenso-host-runtime", "host_runtime"),
    ("runtime/lenso-resolver", "runtime_resolver"),
    ("runtime/lenso-process-owner", "process_owner"),
    ("runtime/bun", "javascript_runtime"),
    ("host.js", "entrypoint"),
    ("THIRD_PARTY_NOTICES.txt", "notices"),
];

fn directory() -> Directory {
    Directory::new(&[
        (".lenso/host-build.json", b"{}\n", false),
        ("bundles.json", b"[]\n", false),
        ("host.js", b"entrypoint\n", true),
        ("THIRD_PARTY_NOTICES.txt", b"notices\n", false),
        ("runtime/lenso-host-runtime", b"runtime\n", true),
        ("runtime/lenso-resolver", b"resolver\n", true),
        ("runtime/lenso-process-owner", b"owner\n", true),
        ("runtime/bun", b"bun\n", true),
    ])
}

#[test]
fn verifies_every_locked_file_and_rejects_mutation() {
    let mut directory = directory();
    let distribution = directory.open(directory.lock(&ROLES)).unwrap();
    assert_eq!(distribution.app_id(), "company.app");
    assert_eq!(distribution.identity(), sha256_digest(b"lock"));
    assert!(distribution.identity().starts_with("sha256:"));
    assert_eq!(distribution.root(), "/distribution");

    let lock = directory.lock(&ROLES);
    directory.files.insert("bundles.json".to_owned(), (b"tampered\n".to_vec(), false));
    let error = refused(directory.open(lock));
    assert_eq!(error, "distribution file `bundles.json` differs from lock");
    let lock = {
        directory.files.insert("bundles.json".to_owned(), (b"[]\n".to_vec(), false));
        directory.lock(&ROLES)
    };
    directory.files.insert("bundles.json".to_owned(), (b"{}\n".to_vec(), false));
    assert_eq!(refused(directory.open(lock)), "distribution file `bundles.json` failed integrity");
}

#[test]
fn a_lock_is_closed_over_its_paths_roles_and_platform() {
    let directory = directory();
    let accepted = || directory.lock(&ROLES);
    let mut lock = accepted();
    lock.files[0].path = "../host-build.json".to_owned();
    assert!(refused(directory.open(lock)).contains("../host-build.json"));
    let mut lock = accepted();
    lock.files[1].sha256 = "sha256:abc".to_owned();
    assert_eq!(refused(directory.open(lock)), "invalid SHA-256 digest");
    let mut lock = accepted();
    lock.files[1].role = " ".to_owned();
    assert_eq!(refused(directory.open(lock)), "distribution file `bundles.json` has no role");
    let mut lock = accepted();
    lock.files.push(lock.files[1].clone());
    assert_eq!(refused(directory.open(lock)), "duplicate distribution path `bundles.json`");
    let mut lock = accepted();
    lock.files.pop();
    assert!(refused(directory.open(lock)).contains("THIRD_PARTY_NOTICES.txt"));
    let mut lock = accepted();
    lock.app_id = String::new();
    assert_eq!(refused(directory.open(lock)), "invalid distribution identity");
    let mut lock = accepted();
    lock.arch = "arm64".to_owned();
    assert_eq!(refused(directory.open(lock)), "distribution targets linux/arm64, current Host is linux/x64");
    let mut lock = accepted();
    for i in 0..2048 {
        let mut file = lock.files[1].clone();
        file.path = format!("extra/{i}");
        lock.files.push(file);
    }
    assert_eq!(refused(directory.open(lock)), "distribution declares more than 2048 files");
    let unread = OpeningDistribution::begin("/d".to_owned(), b"", Err("expected value".to_owned()), "linux", "x86_64");
    match unread {
        Ok(_) => panic!("the lock was accepted"),
        Err(error) => assert_eq!(error.message(), "invalid distribution lock: expected value"),
    }
    let mut lock = accepted();
    lock.platform = "darwin".to_owned();
    lock.arch = "arm64".to_owned();
    assert!(validate_current_platform(&lock, "macos", "aarch64").is_ok());
    assert!(validate_current_platform(&lock, "linux", "aarch64").is_err());
}

#[test]
fn a_found_file_must_be_regular_executable_and_intact() {
    let expected = DistributionFile {
        path: "host.js".to_owned(),
        role: "entrypoint".to_owned(),
        sha256: sha256_digest(b"entrypoint\n"),
        size: 11,
        executable: true,
    };
    let found = FoundFile { regular: true, size: 11, executable: true };
    let bytes = b"entrypoint\n".to_vec();
    assert!(verify_file(&expected, found, &bytes).is_ok());
    let link = FoundFile { regular: false, ..found };
    assert_eq!(verify_file(&expected, link, &bytes).unwrap_err().message(), "distribution file `host.js` differs from lock");
    let plain = FoundFile { executable: false, ..found };
    assert_eq!(verify_file(&expected, plain, &bytes).unwrap_err().message(), "distribution file `host.js` is not executable");
}

fn instance() -> PlanInstance {
    PlanInstance {
        instance_key: "plugin".to_owned(),
        package_id: "company.plugin".to_owned(),
        package_revision: "1.0.0".to_owned(),
        entrypoint: "plugin.js".to_owned(),
        configuration: "{}".to_owned(),
        execution_class: "lenso.bun-process@1".to_owned(),
        runtime_profile: "lenso.bun-process@1".to_owned(),
        provided_capabilities: Vec::new(),
    }
}

fn inventory() -> Vec<BundleInventory> {
    vec![
        BundleInventory {
            path: "bundles/0.lenso-plugin".to_owned(),
            plugin_id: "company.plugin".to_owned(),
            release_version: "1.0.0".to_owned(),
            manifest_digest: sha256_digest(b"manifest"),
            execution_class: "lenso.bun-process@1".to_owned(),
            target: TARGET.to_owned(),
            implementation_id: "bun".to_owned(),
            artifact_path: "implementations/bun/plugin.js".to_owned(),
            artifact_digest: sha256_digest(b"export default {};\n"),
            artifact_size: 19,
            artifact_media_type: "application/javascript".to_owned(),
            artifact_target: "javascript-bun".to_owned(),
        },
    ]
}

fn resolution(plan: AppPlan) -> RuntimeResolution {
    RuntimeResolution {
        schema: "lenso.runtime-app-resolution.v1".to_owned(),
        app_id: "company.app".to_owned(),
        authority_digest: sha256_digest(b"authority"),
        host_build_digest: sha256_digest(b"{\"host\":\"fixture\"}\n"),
        plugin_root_revision: sha256_digest(b"root"),
        plan,
    }
}

fn plan_bytes() -> Vec<u8> {
    let outside = ResolvedAppPlan::new(
        vec![
            PluginInstancePlan::new("plugin", "company.plugin")
                .with_entrypoint("plugin.js")
                .with_execution_class(ExecutionClassId::bun_child_process())
                .with_package_revision("1.0.0"),
        ],
        Vec::new(),
    );
    serde_json::to_vec(&outside).unwrap()
}

fn plan() -> AppPlan {
    AppPlan { instances: vec![instance()], bindings: Vec::new(), bytes: plan_bytes() }
}

fn complete_distribution() -> VerifiedDistribution {
    let mut directory = directory();
    directory.files.insert(".lenso/host-build.json".to_owned(), (b"{\"host\":\"fixture\"}\n".to_vec(), false));
    directory.files.insert("bundles/0.lenso-plugin".to_owned(), (b"fixture bundle\n".to_vec(), false));
    directory.files.insert("artifacts/0/plugin.js".to_owned(), (b"export default {};\n".to_vec(), false));
    let mut roles = ROLES.to_vec();
    roles.push(("bundles/0.lenso-plugin", "plugin_bundle"));
    roles.push(("artifacts/0/plugin.js", "plugin_artifact"));
    directory.open(directory.lock(&roles)).unwrap()
}

#[test]
fn resolves_external_root_and_closes_instance_artifact() {
    let distribution = complete_distribution();
    let ended = ResolverEnd::Ended { success: true, overflow: false, errors: String::new(), resolution: Ok(resolution(plan())) };
    let found = judge_resolver(ended).unwrap();
    let checked = distribution.begin_resolution(found).unwrap_or_else(|error| panic!("{}", error.message()));
    let resolving = checked.begin_artifacts(Ok(inventory())).unwrap_or_else(|error| panic!("{}", error.message()));
    let (resolving, step) = resolving.step().unwrap_or_else(|error| panic!("{}", error.message()));
    assert!(matches!(step, ArtifactStep::Open { relative, size: 19, .. } if relative == "artifacts/0/plugin.js"));
    let handle = ArtifactHandle { path: "/private/copy".to_owned(), digest: sha256_digest(b"export default {};\n"), size: 19 };
    let resolving = resolving.opened(Ok(handle)).unwrap_or_else(|error| panic!("{}", error.message()));
    let (resolving, step) = resolving.step().unwrap_or_else(|error| panic!("{}", error.message()));
    assert!(matches!(step, ArtifactStep::Finished));
    let prepared = resolving.close_generation().unwrap();
    assert_eq!(prepared.distribution_identity, sha256_digest(b"lock"));
    assert_eq!(prepared.plugin_root_revision, sha256_digest(b"root"));
    assert_eq!(prepared.generation.plan.instances.len(), 1);
    let artifact = prepared.generation.artifacts.get("plugin").unwrap();
    assert_eq!(artifact.path, "/private/copy");
    let resolved = &prepared.generation.artifact_set.value().artifacts[0];
    assert_eq!(resolved.digest, sha256_digest(b"export default {};\n"));
    assert_eq!(prepared.generation.spec.value().resolved_artifact_set_digest, prepared.generation.artifact_set.digest());
    assert_eq!(prepared.generation.spec.value().resolved_plan_digest, sha256_digest(&plan_bytes()));
}

#[test]
fn a_resolution_of_another_authority_is_refused() {
    let distribution = complete_distribution();
    let refused = |change: fn(&mut RuntimeResolution)| {
        let mut found = resolution(plan());
        change(&mut found);
        distribution.check_resolution(&found).unwrap_err().message()
    };
    assert_eq!(refused(|found| found.app_id = "other".to_owned()), "resolver output differs from distribution App authority");
    assert_eq!(refused(|found| found.plugin_root_revision = "x".to_owned()), "invalid SHA-256 digest");
    let broken = refused(|found| {
        let outside = ResolvedAppPlan::new(
            vec![PluginInstancePlan::new("plugin", "company.plugin"), PluginInstancePlan::new("plugin", "company.plugin")],
            Vec::new(),
        );
        found.plan.bytes = serde_json::to_vec(&outside).unwrap();
    });
    assert!(broken.starts_with("resolver returned invalid Plan: ") && broken.contains("plugin"), "{broken}");
    assert!(refused(|found| found.plan.bytes = b"plan".to_vec()).starts_with("resolver returned invalid Plan: "));
    assert_eq!(
        refused(|found| found.host_build_digest = sha256_digest(b"other")),
        "resolver Host authority digest differs from distribution lock"
    );
}

#[test]
fn an_instance_needs_one_artifact_that_the_lock_carries() {
    let distribution = complete_distribution();
    let refused = |change: fn(&mut Vec<BundleInventory>)| {
        let mut items = inventory();
        change(&mut items);
        distribution.select_artifact(&instance(), &items).unwrap_err().message()
    };
    assert_eq!(refused(|items| items[0].target = "other".to_owned()), "no distribution Artifact for Plugin Instance `plugin`");
    assert_eq!(
        refused(|items| {
            items.append(&mut inventory());
            items[1].artifact_size = 20;
        }),
        "ambiguous distribution Artifact for Plugin Instance `plugin`"
    );
    assert_eq!(
        refused(|items| items[0].path = "bundles/1.lenso-plugin".to_owned()),
        "selected bundle `bundles/1.lenso-plugin` is absent from distribution lock"
    );
    assert_eq!(refused(|items| items[0].path = "host.js".to_owned()), "selected bundle `host.js` differs from inventory");
    assert_eq!(refused(|items| items[0].implementation_id = " ".to_owned()), "selected Artifact identity is incomplete");
    assert_eq!(
        refused(|items| items[0].artifact_path = "other.js".to_owned()),
        "selected Artifact `artifacts/0/other.js` is absent from distribution lock"
    );
    assert_eq!(refused(|items| items[0].artifact_size = 20), "selected Artifact `artifacts/0/plugin.js` differs from inventory");
    let twice = distribution.select_artifact(&instance(), &[inventory(), inventory()].concat_items()).unwrap();
    assert_eq!(twice.index, 0);
    let choice = distribution.select_artifact(&instance(), &inventory()).unwrap();
    let unopened = take_artifact(&instance(), &inventory(), &choice, Err("denied".to_owned())).unwrap_err();
    assert_eq!(unopened.message(), "open selected Artifact `artifacts/0/plugin.js`: denied");
    let begun = || distribution.begin_resolution(resolution(plan())).ok().unwrap();
    let refused = begun().begin_artifacts(Err("cut off".to_owned())).err().unwrap();
    assert_eq!(refused.message(), "invalid bundle inventory: cut off");
    let refused = begun().begin_artifacts(Ok(Vec::new())).ok().unwrap().step().err().unwrap();
    assert_eq!(refused.message(), "no distribution Artifact for Plugin Instance `plugin`");
}

trait ConcatItems {
    fn concat_items(self) -> Vec<BundleInventory>;
}

impl ConcatItems for [Vec<BundleInventory>; 2] {
    fn concat_items(self) -> Vec<BundleInventory> {
        self.into_iter().flatten().collect()
    }
}

#[test]
fn the_end_of_the_resolver_is_judged() {
    assert_eq!(judge_resolver(ResolverEnd::TimedOut).unwrap_err().message(), "bundled resolver timed out");
    assert_eq!(judge_resolver(ResolverEnd::ReaderFailed("stdout")).unwrap_err().message(), "resolver stdout reader failed");
    let ended = |success: bool, overflow: bool| ResolverEnd::Ended {
        success,
        overflow,
        errors: "  no Root\n".to_owned(),
        resolution: Err("expected value".to_owned()),
    };
    assert_eq!(judge_resolver(ended(true, true)).unwrap_err().message(), "bundled resolver exceeded its output limit");
    assert_eq!(judge_resolver(ended(false, false)).unwrap_err().message(), "bundled resolver rejected App root: no Root");
    assert_eq!(judge_resolver(ended(true, false)).unwrap_err().message(), "bundled resolver returned invalid JSON: expected value");
    assert_eq!(resolver_arguments("/app", "/host.json"), ["app", "show", "--root", "/app", "--host-build", "/host.json", "--runtime-json"]);
}

#[test]
fn drained_output_keeps_its_first_bytes_however_it_is_cut() {
    let mut whole = Drained::new();
    whole.take(b"abcdef", 4);
    let mut pieces = Drained::new();
    for chunk in [b"ab".as_slice(), b"cd", b"e", b"f"] {
        pieces.take(chunk, 4);
    }
    assert_eq!((whole.kept.as_slice(), whole.overflow), (b"abcd".as_slice(), true));
    assert_eq!((pieces.kept, pieces.overflow), (whole.kept, true));
    let mut exact = Drained::new();
    exact.take(b"abcd", 4);
    assert!(!exact.overflow);
}

#[test]
fn bounds_and_shapes_are_checked() {
    assert!(check_bounded(true, 8, 8, "lock").is_ok());
    assert_eq!(check_bounded(true, 9, 8, "lock").unwrap_err().message(), "lock must be a regular file no larger than 8 bytes");
    assert!(check_bounded(false, 1, 8, "lock").is_err());
    assert_eq!(check_inventory(Err("eof".to_owned())).unwrap_err().message(), "invalid bundle inventory: eof");
    let many = (0..257).flat_map(|_| inventory()).collect();
    assert_eq!(check_inventory(Ok(many)).unwrap_err().message(), "bundle inventory exceeds 256 entries");
    assert!(validate_digest(&sha256_digest(b"")).is_ok());
    assert!(validate_digest("sha256:ABC").is_err());
    assert!(validate_relative("a/b").is_ok());
    assert!(validate_relative("../b").is_err());
    assert_eq!(io_error("read lock", "denied").message(), "read lock: denied");
    assert!(is_leading_down("a/b") && !is_leading_down("/a"));
    assert!(is_portable("a/b") && !is_portable("a\\b"));
    assert_eq!(file_name("implementations/bun/plugin.js"), "plugin.js");
}

fn host_build() -> CanonicalDocument<HostBuildManifest> {
    CanonicalDocument::from_value(
        "host build",
        HostBuildManifest {
            schema_version: 2,
            app_id: "app".to_owned(),
            host_executable_digest: sha256_digest(b"host"),
            target: TARGET.to_owned(),
            embedded_plugins: Vec::new(),
            adapter_profiles: Vec::new(),
        },
    )
    .unwrap()
}

fn policy() -> CanonicalDocument<HostExecutionPolicy> {
    CanonicalDocument::from_value(
        "policy",
        HostExecutionPolicy {
            schema_version: 2,
            app_id: "app".to_owned(),
            host_build_manifest_digest: host_build().digest().to_owned(),
            target: TARGET.to_owned(),
            preference: Vec::new(),
        },
    )
    .unwrap()
}

fn artifact(instance_key: &str, plugin_id: &str, artifact_id: &str) -> PlanArtifact {
    PlanArtifact {
        instance_key: instance_key.to_owned(),
        plugin_id: plugin_id.to_owned(),
        artifact_id: artifact_id.to_owned(),
        media_type: "application/wasm".to_owned(),
        target: "any".to_owned(),
        handle: ArtifactHandle { path: format!("/{artifact_id}"), digest: sha256_digest(artifact_id.as_bytes()), size: 1 },
    }
}

fn two_instances() -> AppPlan {
    let mut other = instance();
    other.instance_key = "second".to_owned();
    AppPlan { instances: vec![instance(), other], bindings: Vec::new(), bytes: b"plan".to_vec() }
}

#[test]
fn a_generation_orders_its_artifacts_and_closes_over_its_documents() {
    let (host_build, policy) = (host_build(), policy());
    let mut resources = TextMap::new();
    resources.insert("plugin".to_owned(), InstanceResources { digest: sha256_digest(b"files"), file_count: 2, total_size: 9 });
    let generation = resolve_plan_generation(PlanGenerationInput {
        app_id: "app",
        authority_digest: "sha256:authority",
        plan: two_instances(),
        host_build: &host_build,
        policy: &policy,
        artifacts: vec![artifact("second", "b.plugin", "z"), artifact("plugin", "b.plugin", "a")],
        resources,
    })
    .unwrap();
    let set = generation.artifact_set.value();
    let order: Vec<&str> = set.artifacts.iter().map(|artifact| artifact.artifact_id.as_str()).collect();
    assert_eq!(order, ["a", "z"]);
    assert_eq!(set.instance_resources[0].instance_key, "plugin");
    assert_eq!(set.instance_resources[0].total_size, 9);
    assert_eq!(generation.spec.value().effective_host_grant_set_digest, generation.grants.digest());
    assert_eq!(generation.spec.value().host_execution_policy_digest, policy.digest());
}

#[test]
fn unknown_and_repeated_selections_are_refused() {
    let (host_build, policy) = (host_build(), policy());
    let refused = |app_id: &str, authority: &str, artifacts: Vec<PlanArtifact>, resource: Option<&str>| {
        let mut resources = TextMap::new();
        if let Some(key) = resource {
            resources.insert(key.to_owned(), InstanceResources { digest: String::new(), file_count: 0, total_size: 0 });
        }
        resolve_plan_generation(PlanGenerationInput {
            app_id,
            authority_digest: authority,
            plan: two_instances(),
            host_build: &host_build,
            policy: &policy,
            artifacts,
            resources,
        })
        .unwrap_err()
        .message()
    };
    assert_eq!(refused(" ", "sha256:a", Vec::new(), None), "App identity cannot be empty");
    assert_eq!(refused("app", "md5:a", Vec::new(), None), "Plugin Root authority must be a SHA-256 digest");
    assert_eq!(refused("other", "sha256:a", Vec::new(), None), "App identity differs across resolved Plan authority");
    assert_eq!(refused("app", "sha256:a", Vec::new(), Some("absent")), "resources select unknown Plugin Instance `absent`");
    assert!(refused("app", "sha256:a", vec![artifact("absent", "p", "a")], None).contains("absent"));
    assert!(refused("app", "sha256:a", vec![artifact("plugin", "p", "a"), artifact("plugin", "p", "b")], None).contains("plugin"));
}

#[test]
fn a_plan_is_read_from_its_bytes() {
    let read = AppPlan::read(plan_bytes()).unwrap();
    assert_eq!(read.bytes, plan_bytes());
    assert_eq!(read.instances.len(), 1);
    assert_eq!(read.instances[0].instance_key, "plugin");
    assert_eq!(read.instances[0].package_id, "company.plugin");
    assert_eq!(read.instances[0].package_revision, "1.0.0");
    assert_eq!(read.instances[0].entrypoint, "plugin.js");
    assert_eq!(read.instances[0].execution_class, "lenso.bun-process@1");
    let bound = ResolvedAppPlan::new(
        vec![
            PluginInstancePlan::new("first", "company.first"),
            PluginInstancePlan::new("second", "company.second")
                .with_capability(CapabilityEndpointPlan::new("company.greet@1", "1.0.0", ["greet"])),
        ],
        vec![CapabilityBinding::new("first", "company.greet@1", "1.0.0", "second")],
    );
    let read = AppPlan::read(serde_json::to_vec(&bound).unwrap()).unwrap();
    let at = read.instances.iter().position(|instance| instance.instance_key == "second").unwrap();
    assert_eq!(read.instances[at].provided_capabilities[0].capability_id, "company.greet@1");
    assert_eq!(read.instances[at].provided_capabilities[0].request_operations, ["greet"]);
    assert!(read.instances[1 - at].provided_capabilities.is_empty());
    assert_eq!(read.bindings[0].consumer_instance, "first");
    assert_eq!(read.bindings[0].provider_instance, "second");
    assert_eq!(read.bindings[0].requirement_id, "~company.greet@1");
    assert!(AppPlan::read(b"plan".to_vec()).is_err());
}
