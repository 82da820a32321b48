use std::borrow::Cow;

use lenso_runtime::bundle::{
    build_source_plugin_bundle, check_directory, extract_plugin_descriptor, judge_entry, output_taken, plugin_descriptor_section, strict_json, take_component,
    validate_relative_path, verify_bundle_directory, BundleError, CargoPackage, FoundEntry, PluginArtifactV2, PluginEntryV2, PluginManifestV2,
    SourceManifestDocument, MAX_PLUGIN_DESCRIPTOR_BYTES, PLUGIN_DESCRIPTOR_SECTION,
};
use lenso_runtime::digest::sha256_digest;
use lenso_runtime::json::{from_bytes, get, Json};
use lenso_runtime::selection::{
    is_admitted, resolve_implementation, resolve_profiled_implementation, ImplementationPolicy, PluginImplementationV3, PluginManifest,
    RuntimeAdmission, RuntimeImplementation,
};
use lenso_runtime::text_map::TextMap;

fn json(text: &str) -> Json {
    from_bytes(text.as_bytes()).unwrap()
}

fn wasm_with_descriptors(descriptors: &[&[u8]]) -> Vec<u8> {
    let mut module = wasm_encoder::Module::new();
    for descriptor in descriptors {
        module.section(&wasm_encoder::CustomSection { name: Cow::Borrowed(PLUGIN_DESCRIPTOR_SECTION), data: Cow::Borrowed(descriptor) });
    }
    module.finish()
}

/// Extracts the descriptor of a Component as a Host does.
fn extract(component: &[u8]) -> Result<Vec<u8>, BundleError> {
    let section = plugin_descriptor_section(component)?;
    extract_plugin_descriptor(component, from_bytes(&section))
}

const RUNTIME: &str = "{\"abi\":\"lenso.json-request@1\",\"capabilities\":[{\"capability_id\":\"example.echo@1\",\"descriptor_version\":\"1.0.0\",\"request_operations\":[\"echo\"],\"stream_operations\":[]}],\"required_capabilities\":[]}";

fn package() -> CargoPackage {
    CargoPackage { version: "1.0.0".to_owned(), plugin_id: "example.echo".to_owned(), root_slot: "tools".to_owned() }
}

#[test]
fn descriptor_extraction_requires_one_canonical_descriptor() {
    assert!(extract(&wasm_with_descriptors(&[])).is_err());
    let descriptor = b"{\"profile\":\"one\"}";
    assert!(extract(&wasm_with_descriptors(&[descriptor.as_slice(), descriptor.as_slice()])).is_err());
    assert!(extract(&wasm_with_descriptors(&[b"{"])).is_err());
    assert!(extract(&wasm_with_descriptors(&[b"{ \"profile\": \"one\" }"])).is_err());
    assert_eq!(extract(&wasm_with_descriptors(&[descriptor.as_slice()])).unwrap(), descriptor);
}

#[test]
fn descriptor_extraction_rejects_oversized_evidence() {
    let descriptor = vec![b' '; MAX_PLUGIN_DESCRIPTOR_BYTES + 1];
    assert!(extract(&wasm_with_descriptors(&[&descriptor])).is_err());
    assert_eq!(
        plugin_descriptor_section(&wasm_with_descriptors(&[&descriptor])).unwrap_err(),
        BundleError::InvalidBundle("Plugin descriptor exceeds the size limit".to_owned())
    );
}

#[test]
fn bytes_that_are_no_module_carry_no_descriptor() {
    assert!(matches!(plugin_descriptor_section(b"not wasm"), Err(BundleError::Wasm(_))));
    assert_eq!(take_component(Err("no module".to_owned())), Err(BundleError::Wasm("no module".to_owned())));
    assert_eq!(take_component(Ok(b"component".to_vec())), Ok(b"component".to_vec()));
}

fn manifest(path: &str) -> PluginManifestV2 {
    PluginManifestV2 {
        schema_version: 2,
        plugin_id: "example.echo".to_owned(),
        release_version: "1.0.0".to_owned(),
        artifact: PluginArtifactV2 {
            path: path.to_owned(),
            digest: sha256_digest(b"plugin"),
            size: 6,
            media_type: "application/wasm".to_owned(),
            target: "wasm32-unknown-unknown".to_owned(),
        },
        entry: PluginEntryV2 { descriptor: json("{\"plugin_id\":\"example.echo\"}") },
    }
}

#[test]
fn strict_v2_manifest_rejects_duplicate_fields_and_path_escape() {
    let twice = Json::Object(vec![("schema_version".to_owned(), Json::Unsigned(2)), ("schema_version".to_owned(), Json::Unsigned(2))]);
    let refused = strict_json(Ok(twice)).unwrap_err();
    assert_eq!(refused, BundleError::InvalidManifest("duplicate field `schema_version`".to_owned()));
    let signed = strict_json(Ok(Json::Object(vec![("schema_version".to_owned(), Json::Negative(-2))]))).unwrap_err();
    assert_eq!(signed, BundleError::InvalidManifest("negative integers are forbidden".to_owned()));
    assert!(SourceManifestDocument::parse(Err(refused.message())).is_err());
    assert!(SourceManifestDocument::from_value(manifest("../plugin.wasm")).is_err());
}

#[test]
fn paths_inside_a_bundle_are_portable_and_lead_down() {
    assert!(validate_relative_path("components/plugin.wasm").is_ok());
    for path in ["", "/plugin.wasm", "../plugin.wasm", "a/../b", "a\\b", "./a"] {
        assert!(validate_relative_path(path).is_err(), "{path}");
    }
}

#[test]
fn a_built_bundle_verifies_and_a_changed_one_does_not() {
    let component = wasm_with_descriptors(&[RUNTIME.as_bytes()]);
    let section = plugin_descriptor_section(&component).unwrap();
    let built = build_source_plugin_bundle(&package(), &component, from_bytes(&section)).unwrap();
    assert_eq!(built.value().artifact.digest, sha256_digest(&component));
    assert_eq!(*built.value(), *built.value());
    let descriptor = &built.value().entry.descriptor;
    assert_eq!(*get(descriptor, "plugin_id").unwrap(), Json::Text("example.echo".to_owned()));
    assert_eq!(*get(descriptor, "execution_class").unwrap(), Json::Text("lenso.wasm-component@1".to_owned()));
    assert_eq!(built.digest(), sha256_digest(built.bytes()));

    let reread = || Ok(built.value().clone());
    let mut files = TextMap::new();
    files.insert(built.value().artifact.path.clone(), component.clone());
    let verified = verify_bundle_directory(reread(), &files, from_bytes(&section)).unwrap();
    assert_eq!(verified.plugin_id, "example.echo");
    assert_eq!(verified.manifest_digest, built.digest());
    assert_eq!(verified.artifact_digests, [sha256_digest(&component)]);

    let mut changed = TextMap::new();
    let mut bytes = component.clone();
    bytes.push(0);
    changed.insert(built.value().artifact.path.clone(), bytes);
    assert!(verify_bundle_directory(reread(), &changed, from_bytes(&section)).is_err());
    files.insert("extra.txt".to_owned(), Vec::new());
    assert!(verify_bundle_directory(reread(), &files, from_bytes(&section)).is_err());
}

#[test]
fn an_invalid_package_identity_builds_no_bundle() {
    let component = wasm_with_descriptors(&[RUNTIME.as_bytes()]);
    let section = plugin_descriptor_section(&component).unwrap();
    let mut other = package();
    other.version = "one".to_owned();
    assert_eq!(
        build_source_plugin_bundle(&other, &component, from_bytes(&section)).unwrap_err(),
        BundleError::InvalidManifest("Plugin identity or Release version is invalid".to_owned())
    );
    let malformed = wasm_with_descriptors(&[b"{\"profile\":\"one\"}"]);
    let section = plugin_descriptor_section(&malformed).unwrap();
    assert!(build_source_plugin_bundle(&package(), &malformed, from_bytes(&section)).is_err());
    assert!(output_taken("out").message().contains("out"));
}

fn implementation(id: &str, targets: &[&str], class: &str) -> PluginImplementationV3 {
    PluginImplementationV3 {
        id: id.to_owned(),
        host_targets: targets.iter().map(|target| target.to_string()).collect(),
        artifact: manifest("plugin.wasm").artifact,
        runtime: RuntimeImplementation {
            execution_class: class.to_owned(),
            runtime_profile: class.to_owned(),
            document: json("{}"),
        },
    }
}

fn policy(classes: &[&str]) -> ImplementationPolicy {
    ImplementationPolicy {
        host_target: "x86_64-unknown-linux-gnu".to_owned(),
        runtimes: classes
            .iter()
            .map(|class| RuntimeAdmission { execution_class: class.to_string(), runtime_profile: class.to_string() })
            .collect(),
    }
}

#[test]
fn the_first_admitted_runtime_with_one_implementation_is_selected() {
    let items = vec![
        implementation("bun", &["any"], "lenso.bun-process@1"),
        implementation("process", &["x86_64-unknown-linux-gnu"], "lenso.process@1"),
    ];
    assert_eq!(resolve_profiled_implementation(&items, &policy(&["lenso.process@1", "lenso.bun-process@1"])).unwrap(), 1);
    assert!(resolve_profiled_implementation(&items, &policy(&["lenso.quickjs@1"])).is_err());
    assert!(is_admitted(&policy(&["lenso.process@1"]).runtimes, "lenso.process@1", "lenso.process@1"));
    assert!(!is_admitted(&policy(&["lenso.process@1"]).runtimes, "lenso.process@1", "other"));
}

#[test]
fn a_single_artifact_manifest_needs_an_admitted_descriptor() {
    let component = wasm_with_descriptors(&[RUNTIME.as_bytes()]);
    let section = plugin_descriptor_section(&component).unwrap();
    let built = build_source_plugin_bundle(&package(), &component, from_bytes(&section)).unwrap();
    let descriptor = &built.value().entry.descriptor;
    let profile = match get(descriptor, "runtime_profile") {
        Some(Json::Text(profile)) => profile.clone(),
        _ => "lenso.wasm-component@1".to_owned(),
    };
    let release = PluginManifest::V2(built.value().clone());
    assert_eq!((release.plugin_id(), release.release_version()), ("example.echo", "1.0.0"));
    let mut admitted = policy(&["lenso.wasm-component@1"]);
    admitted.runtimes[0].runtime_profile = profile;
    let selected = resolve_implementation(&release, &admitted);
    assert_eq!(selected.unwrap().artifact.digest, sha256_digest(&component));
    assert!(resolve_implementation(&release, &policy(&["lenso.process@1"])).is_err());
}

#[test]
fn a_bundle_directory_holds_regular_files_only() {
    assert!(check_directory(FoundEntry::Directory).is_ok());
    assert!(check_directory(FoundEntry::Link).is_err());
    assert_eq!(judge_entry(FoundEntry::File, Some("a/b")), Ok(true));
    assert_eq!(judge_entry(FoundEntry::Directory, None), Ok(false));
    let refused = |found: FoundEntry, path: Option<&str>| judge_entry(found, path).unwrap_err().message();
    assert!(refused(FoundEntry::Link, Some("a")).contains("symbolic link"));
    assert!(refused(FoundEntry::Other, Some("a")).contains("non-regular file"));
    assert!(refused(FoundEntry::File, None).contains("not UTF-8"));
    assert!(refused(FoundEntry::File, Some("../a")).contains("normalized relative segments"));
}
