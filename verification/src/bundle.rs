//! Immutable Plugin Release manifests, source materialization, and Bundle verification.
use lenso_app_plan::authoring::PluginDescriptor;
use lenso_app_plan::{CapabilityEndpointPlan, CapabilityOperationKind, CapabilityRequirementPlan, ExecutionClassId};
use vstd::prelude::*;
use vstd::string::*;

use crate::canonical::Document;
use crate::decode;
use crate::decode::{literals, struct_fields, tree_text, tree_texts};
use crate::digest;
use crate::digest::{digest_fault, digest_of, digest_syntax};
use crate::json;
use crate::json::{compact_json, entry_models, fault, fault_text, member, models, object_model, Json, JsonView, Wording};
use crate::paths;
use crate::paths::{leads_down, portable};
use crate::text;
use crate::text::texts;
use crate::text_map::TextMap;

verus! {

/// The only manifest filename accepted in a materialized Plugin Bundle.
pub const MANIFEST_FILE: &'static str = "lenso-plugin.json";

/// Custom section carrying source-derived Plugin descriptor bytes.
pub const PLUGIN_DESCRIPTOR_SECTION: &'static str = "lenso.plugin-descriptor.v1";

/// Maximum accepted source-derived descriptor size.
pub const MAX_PLUGIN_DESCRIPTOR_BYTES: usize = 65536;

/// Source-only input for one generated Plugin Bundle: the paths that are read and written.
#[derive(Clone, Debug, PartialEq, Eq)]
pub struct SourcePluginBuild {
    pub package_manifest: String,
    pub wasm_module: String,
    pub output: String,
}

/// What the Cargo manifest of a Plugin package says of the Plugin.
#[derive(Clone, Debug, PartialEq, Eq)]
pub struct CargoPackage {
    pub version: String,
    pub plugin_id: String,
    pub root_slot: String,
}

/// Verified closure of one immutable Plugin Release.
#[derive(Clone, Debug, PartialEq, Eq)]
pub struct VerifiedBundle {
    pub plugin_id: String,
    pub release_version: String,
    pub manifest_digest: String,
    pub artifact_digests: Vec<String>,
    pub product_metadata_digests: Vec<String>,
}

/// A Plugin authoring or immutable Bundle invariant failed closed.
#[derive(Clone, Debug, PartialEq, Eq)]
pub enum BundleError {
    InvalidManifest(String),
    InvalidBundle(String),
    DigestMismatch(String),
    Io(String),
    Wasm(String),
}

/// What a Bundle failure says.
pub enum BundleFault {
    InvalidManifest(Seq<char>),
    InvalidBundle(Seq<char>),
    DigestMismatch(Seq<char>),
    Io(Seq<char>),
    Wasm(Seq<char>),
}

impl View for BundleError {
    type V = BundleFault;

    open spec fn view(&self) -> BundleFault {
        match *self {
            BundleError::InvalidManifest(detail) => BundleFault::InvalidManifest(detail@),
            BundleError::InvalidBundle(detail) => BundleFault::InvalidBundle(detail@),
            BundleError::DigestMismatch(subject) => BundleFault::DigestMismatch(subject@),
            BundleError::Io(detail) => BundleFault::Io(detail@),
            BundleError::Wasm(detail) => BundleFault::Wasm(detail@),
        }
    }
}

/// The text that a Bundle failure shows.
pub open spec fn shown(fault: BundleFault) -> Seq<char> {
    match fault {
        BundleFault::InvalidManifest(detail) => "invalid Plugin Manifest: "@ + detail,
        BundleFault::InvalidBundle(detail) => "invalid Plugin Bundle: "@ + detail,
        BundleFault::DigestMismatch(subject) => "digest mismatch for "@ + subject,
        BundleFault::Io(detail) => detail,
        BundleFault::Wasm(detail) => "failed to encode WebAssembly Component: "@ + detail,
    }
}

impl BundleError {
    /// The text that the failure shows.
    pub fn message(&self) -> (r: String)
        ensures
            r@ == shown(self@),
    {
        match self {
            BundleError::InvalidManifest(detail) => text::behind("invalid Plugin Manifest: ", detail.as_str()),
            BundleError::InvalidBundle(detail) => text::behind("invalid Plugin Bundle: ", detail.as_str()),
            BundleError::DigestMismatch(subject) => text::behind("digest mismatch for ", subject.as_str()),
            BundleError::Io(detail) => detail.clone(),
            BundleError::Wasm(detail) => text::behind("failed to encode WebAssembly Component: ", detail.as_str()),
        }
    }
}

/// What a call that may fail came to, by the facts of its failure.
pub open spec fn outcome<T>(r: Result<T, BundleError>) -> Result<T, BundleFault> {
    match r {
        Ok(value) => Ok(value),
        Err(error) => Err(error@),
    }
}

fn invalid_manifest(detail: &str) -> (r: BundleError)
    ensures
        r@ == BundleFault::InvalidManifest(detail@),
{
    BundleError::InvalidManifest(detail.to_owned())
}

fn invalid_bundle(detail: &str) -> (r: BundleError)
    ensures
        r@ == BundleFault::InvalidBundle(detail@),
{
    BundleError::InvalidBundle(detail.to_owned())
}

/// Exact final Component facts computed by the Bundle builder.
#[derive(Debug, PartialEq, Eq)]
pub struct PluginArtifactV2 {
    pub path: String,
    pub digest: String,
    pub size: u64,
    pub media_type: String,
    pub target: String,
}

impl PluginArtifactV2 {
    /// What the Artifact says.
    pub open spec fn facts(self) -> (Seq<char>, Seq<char>, u64, Seq<char>, Seq<char>) {
        (self.path@, self.digest@, self.size, self.media_type@, self.target@)
    }
}

impl Clone for PluginArtifactV2 {
    fn clone(&self) -> (r: Self)
        ensures
            r.facts() == self.facts(),
    {
        PluginArtifactV2 {
            path: self.path.clone(),
            digest: self.digest.clone(),
            size: self.size,
            media_type: self.media_type.clone(),
            target: self.target.clone(),
        }
    }
}

/// The single executable Plugin entry derived from source.
#[derive(Clone, Debug, PartialEq, Eq)]
pub struct PluginEntryV2 {
    pub descriptor: Json,
}

/// Generated one-entry Plugin Manifest produced from source evidence.
#[derive(Clone, Debug, PartialEq, Eq)]
pub struct PluginManifestV2 {
    pub schema_version: u32,
    pub plugin_id: String,
    pub release_version: String,
    pub artifact: PluginArtifactV2,
    pub entry: PluginEntryV2,
}

impl Document for PluginArtifactV2 {
    open spec fn tree(&self) -> JsonView {
        JsonView::Object(
            seq![
                ("path"@, JsonView::Text(self.path@)),
                ("digest"@, JsonView::Text(self.digest@)),
                ("size"@, JsonView::Unsigned(self.size)),
                ("media_type"@, JsonView::Text(self.media_type@)),
                ("target"@, JsonView::Text(self.target@)),
            ],
        )
    }

    fn to_json(&self) -> (r: Json) {
        let mut entries: Vec<(String, Json)> = Vec::new();
        entries.push(("path".to_owned(), Json::Text(self.path.clone())));
        entries.push(("digest".to_owned(), Json::Text(self.digest.clone())));
        entries.push(("size".to_owned(), Json::Unsigned(self.size)));
        entries.push(("media_type".to_owned(), Json::Text(self.media_type.clone())));
        entries.push(("target".to_owned(), Json::Text(self.target.clone())));
        proof {
            object_model(entries);
            assert(entry_models(entries@) =~= self.tree()->Object_0);
        }
        Json::Object(entries)
    }
}

impl Document for PluginEntryV2 {
    open spec fn tree(&self) -> JsonView {
        JsonView::Object(seq![("descriptor"@, self.descriptor.model())])
    }

    fn to_json(&self) -> (r: Json) {
        let mut entries: Vec<(String, Json)> = Vec::new();
        entries.push(("descriptor".to_owned(), self.descriptor.clone()));
        proof {
            object_model(entries);
            assert(entry_models(entries@) =~= self.tree()->Object_0);
        }
        Json::Object(entries)
    }
}

impl Document for PluginManifestV2 {
    open spec fn tree(&self) -> JsonView {
        JsonView::Object(
            seq![
                ("schema_version"@, JsonView::Unsigned(self.schema_version as u64)),
                ("plugin_id"@, JsonView::Text(self.plugin_id@)),
                ("release_version"@, JsonView::Text(self.release_version@)),
                ("artifact"@, self.artifact.tree()),
                ("entry"@, self.entry.tree()),
            ],
        )
    }

    fn to_json(&self) -> (r: Json) {
        let mut entries: Vec<(String, Json)> = Vec::new();
        entries.push(("schema_version".to_owned(), Json::Unsigned(self.schema_version as u64)));
        entries.push(("plugin_id".to_owned(), Json::Text(self.plugin_id.clone())));
        entries.push(("release_version".to_owned(), Json::Text(self.release_version.clone())));
        entries.push(("artifact".to_owned(), self.artifact.to_json()));
        entries.push(("entry".to_owned(), self.entry.to_json()));
        proof {
            object_model(entries);
            assert(entry_models(entries@) =~= self.tree()->Object_0);
        }
        Json::Object(entries)
    }
}

/// Whether a text is a semantic version.
pub uninterp spec fn semantic_version(s: Seq<char>) -> bool;

/// `semver::Version::parse` accepts exactly the semantic versions.
#[verifier::external_body]
fn is_version(s: &str) -> (r: bool)
    ensures
        r == semantic_version(s@),
{
    semver::Version::parse(s).is_ok()
}

/// Why a path cannot stand in a Bundle.
pub open spec fn path_fault(path: Seq<char>) -> Option<Seq<char>> {
    if !portable(path) {
        Some("Bundle path is empty or platform-ambiguous"@)
    } else if !leads_down(path) {
        Some("Bundle path must contain only normalized relative segments"@)
    } else {
        None
    }
}

/// Validates a path inside a Bundle.
pub fn validate_relative_path(path: &str) -> (r: Result<(), BundleError>)
    ensures
        outcome(r) == match path_fault(path@) {
            Some(detail) => Err::<(), BundleFault>(BundleFault::InvalidManifest(detail)),
            None => Ok(()),
        },
{
    if !paths::is_portable(path) {
        return Err(invalid_manifest("Bundle path is empty or platform-ambiguous"));
    }
    if !paths::is_leading_down(path) {
        return Err(invalid_manifest("Bundle path must contain only normalized relative segments"));
    }
    Ok(())
}

/// Why a source manifest is rejected. `version` is whether its Release version is a semantic version.
pub open spec fn manifest_fault(manifest: PluginManifestV2, version: bool) -> Option<Seq<char>> {
    if manifest.schema_version != 2 {
        Some("unsupported schema version"@)
    } else if manifest.plugin_id@.len() == 0 || !version {
        Some("Plugin identity or Release version is invalid"@)
    } else {
        match path_fault(manifest.artifact.path@) {
            Some(detail) => Some(detail),
            None => match digest_fault(manifest.artifact.digest@) {
                Some(detail) => Some(detail),
                None => if manifest.artifact.size == 0 || manifest.artifact.media_type@ != "application/wasm"@ || manifest.artifact.target@
                    != "wasm32-unknown-unknown"@ {
                    Some("V2 Artifact size, Wasm media type, and target must be exact"@)
                } else if !(manifest.entry.descriptor.model() is Object) {
                    Some("V2 Plugin entry descriptor must be an object"@)
                } else {
                    None
                },
            },
        }
    }
}

/// Validates a source manifest whose Release version was looked at.
pub fn check_manifest(manifest: &PluginManifestV2, version: bool) -> (r: Result<(), BundleError>)
    ensures
        outcome(r) == match manifest_fault(*manifest, version) {
            Some(detail) => Err::<(), BundleFault>(BundleFault::InvalidManifest(detail)),
            None => Ok(()),
        },
{
    if manifest.schema_version != 2 {
        return Err(invalid_manifest("unsupported schema version"));
    }
    if manifest.plugin_id.as_str().is_empty() || !version {
        return Err(invalid_manifest("Plugin identity or Release version is invalid"));
    }
    match validate_relative_path(manifest.artifact.path.as_str()) {
        Ok(()) => {},
        Err(error) => return Err(error),
    }
    match digest::hex_component(manifest.artifact.digest.as_str()) {
        Ok(_) => {},
        Err(detail) => return Err(invalid_manifest(detail)),
    }
    if manifest.artifact.size == 0 || !text::same(manifest.artifact.media_type.as_str(), "application/wasm") || !text::same(
        manifest.artifact.target.as_str(),
        "wasm32-unknown-unknown",
    ) {
        return Err(invalid_manifest("V2 Artifact size, Wasm media type, and target must be exact"));
    }
    match &manifest.entry.descriptor {
        Json::Object(_) => Ok(()),
        _ => Err(invalid_manifest("V2 Plugin entry descriptor must be an object")),
    }
}

/// Validates a source manifest.
pub fn validate_source_manifest(manifest: &PluginManifestV2) -> (r: Result<(), BundleError>)
    ensures
        outcome(r) == match manifest_fault(*manifest, semantic_version(manifest.release_version@)) {
            Some(detail) => Err::<(), BundleFault>(BundleFault::InvalidManifest(detail)),
            None => Ok(()),
        },
{
    let version = is_version(manifest.release_version.as_str());
    check_manifest(manifest, version)
}

/// The tree of a manifest whose descriptor has no key twice has none either.
proof fn manifest_is_sound(manifest: PluginManifestV2)
    requires
        manifest.entry.descriptor.model().sound(),
    ensures
        manifest.tree().sound(),
{
    reveal_strlit("schema_version");
    reveal_strlit("plugin_id");
    reveal_strlit("release_version");
    reveal_strlit("artifact");
    reveal_strlit("entry");
    reveal_strlit("path");
    reveal_strlit("digest");
    reveal_strlit("size");
    reveal_strlit("media_type");
    reveal_strlit("target");
    assert("path"@[0] != "size"@[0]);
    assert("digest"@[0] != "target"@[0]);
    let artifact = manifest.artifact.tree();
    assert forall|i: int| 0 <= i < artifact->Object_0.len() implies (#[trigger] artifact->Object_0[i]).1.distinct_keys()
        && artifact->Object_0[i].1.signed_below_zero() by {}
    assert(artifact.sound());
    let entry = manifest.entry.tree();
    assert(entry->Object_0[0].1 == manifest.entry.descriptor.model());
    assert(entry.sound());
    let tree = manifest.tree();
    assert(tree->Object_0[3].1 == artifact);
    assert(tree->Object_0[4].1 == entry);
    let keys = tree->Object_0.map_values(|e: (Seq<char>, JsonView)| e.0);
    assert(keys =~= seq!["schema_version"@, "plugin_id"@, "release_version"@, "artifact"@, "entry"@]);
    assert(keys[0].len() == 14 && keys[1].len() == 9 && keys[2].len() == 15 && keys[3].len() == 8 && keys[4].len() == 5);
    assert forall|i: int, j: int| 0 <= i < j < tree->Object_0.len() implies (#[trigger] tree->Object_0[i]).0 != (
    #[trigger] tree->Object_0[j]).0 by {
        assert(keys[i] == tree->Object_0[i].0);
        assert(keys[j] == tree->Object_0[j].0);
    }
    assert forall|i: int| 0 <= i < tree->Object_0.len() implies (#[trigger] tree->Object_0[i]).1.distinct_keys()
        && tree->Object_0[i].1.signed_below_zero() by {}
    assert(tree.sound());
}

/// One valid source manifest with its bytes and its content identity.
#[derive(Debug)]
pub struct SourceManifestDocument {
    value: PluginManifestV2,
    bytes: Vec<u8>,
    digest: String,
}

impl SourceManifestDocument {
    /// The typed manifest.
    pub closed spec fn typed(self) -> PluginManifestV2 {
        self.value
    }

    /// The manifest bytes.
    pub closed spec fn raw(self) -> Seq<u8> {
        self.bytes@
    }

    /// The content identity.
    pub closed spec fn identity(self) -> Seq<char> {
        self.digest@
    }

    #[verifier::type_invariant]
    spec fn closed_content(self) -> bool {
        &&& self.value.entry.descriptor.model().sound()
        &&& self.bytes@ == compact_json(self.value.tree())
        &&& self.digest@ == digest_of(self.bytes@)
    }

    /// Closes a manifest over its bytes and its content identity.
    pub fn from_value(value: PluginManifestV2) -> (r: Result<Self, BundleError>)
        requires
            value.entry.descriptor.model().sound(),
        ensures
            match manifest_fault(value, semantic_version(value.release_version@)) {
                Some(detail) => r is Err && r->Err_0@ == BundleFault::InvalidManifest(detail),
                None => if !value.tree().authority_numbers() {
                    r is Err && r->Err_0@ == BundleFault::InvalidManifest("numbers must be non-negative integers"@)
                } else {
                    r is Ok && r->Ok_0.typed() == value && r->Ok_0.raw() == compact_json(value.tree()) && r->Ok_0.identity() == digest_of(
                        compact_json(value.tree()),
                    )
                },
            },
    {
        match validate_source_manifest(&value) {
            Ok(()) => {},
            Err(error) => return Err(error),
        }
        let tree = value.to_json();
        if !json::has_authority_numbers(&tree) {
            return Err(invalid_manifest("numbers must be non-negative integers"));
        }
        proof {
            manifest_is_sound(value);
        }
        let bytes = json::to_compact(&tree);
        let digest = digest::sha256_digest(bytes.as_slice());
        Ok(SourceManifestDocument { value, bytes, digest })
    }

    /// Closes a manifest that was read from strict JSON.
    pub fn parse(typed: Result<PluginManifestV2, String>) -> (r: Result<Self, BundleError>)
        requires
            typed is Ok ==> typed->Ok_0.entry.descriptor.model().sound(),
        ensures
            match typed {
                Err(detail) => r is Err && r->Err_0@ == BundleFault::InvalidManifest(detail@),
                Ok(value) => match manifest_fault(value, semantic_version(value.release_version@)) {
                    Some(detail) => r is Err && r->Err_0@ == BundleFault::InvalidManifest(detail),
                    None => if !value.tree().authority_numbers() {
                        r is Err && r->Err_0@ == BundleFault::InvalidManifest("numbers must be non-negative integers"@)
                    } else {
                        r is Ok && r->Ok_0.typed() == value && r->Ok_0.raw() == compact_json(value.tree()) && r->Ok_0.identity() == digest_of(
                            compact_json(value.tree()),
                        )
                    },
                },
            },
    {
        match typed {
            Ok(value) => SourceManifestDocument::from_value(value),
            Err(detail) => Err(BundleError::InvalidManifest(detail)),
        }
    }

    /// The typed manifest.
    pub fn value(&self) -> (r: &PluginManifestV2)
        ensures
            *r == self.typed(),
            r.entry.descriptor.model().sound(),
    {
        proof {
            use_type_invariant(self);
        }
        &self.value
    }

    /// The manifest bytes.
    pub fn bytes(&self) -> (r: &[u8])
        ensures
            r@ == self.raw(),
            r@ == compact_json(self.typed().tree()),
    {
        proof {
            use_type_invariant(self);
        }
        self.bytes.as_slice()
    }

    /// The content identity of the manifest.
    pub fn digest(&self) -> (r: &str)
        ensures
            r@ == self.identity(),
            r@ == digest_of(compact_json(self.typed().tree())),
    {
        proof {
            use_type_invariant(self);
        }
        self.digest.as_str()
    }
}

/// Admits the tree of strict JSON: the first repeated key, negative or fractional number in document
/// order fails it.
pub fn strict_json(parsed: Result<Json, String>) -> (r: Result<Json, BundleError>)
    ensures
        match parsed {
            Err(detail) => r is Err && r->Err_0@ == BundleFault::InvalidManifest(detail@),
            Ok(tree) => match fault(tree.model()) {
                Some(found) => r is Err && r->Err_0@ == BundleFault::InvalidManifest(fault_text(found, Wording::Manifest)),
                None => r == Ok::<Json, BundleError>(tree) && tree.model().strict(),
            },
        },
{
    match parsed {
        Ok(tree) => match json::find_fault(&tree, Wording::Manifest) {
            Some(detail) => Err(BundleError::InvalidManifest(detail)),
            None => {
                proof {
                    json::faultless_is_strict(tree.model());
                }
                Ok(tree)
            },
        },
        Err(detail) => Err(BundleError::InvalidManifest(detail)),
    }
}

/// The payloads that `wasmparser` reads from a module or Component, up to its end or the first error, and
/// the text of that error. A custom section is given by its name and data, any other payload by nothing.
pub uninterp spec fn wasm_payloads(bytes: Seq<u8>) -> (Seq<Option<(Seq<char>, Seq<u8>)>>, Option<Seq<char>>);

/// The facts of a custom section.
pub open spec fn section_fact(section: (String, Vec<u8>)) -> (Seq<char>, Seq<u8>) {
    (section.0@, section.1@)
}

/// The facts of a list of custom sections.
pub open spec fn section_facts(sections: Seq<(String, Vec<u8>)>) -> Seq<(Seq<char>, Seq<u8>)> {
    sections.map_values(|section: (String, Vec<u8>)| section_fact(section))
}

/// The facts of a list of payloads.
pub open spec fn payload_facts(payloads: Seq<Option<(String, Vec<u8>)>>) -> Seq<Option<(Seq<char>, Seq<u8>)>> {
    payloads.map_values(
        |payload: Option<(String, Vec<u8>)>|
            match payload {
                Some(section) => Some(section_fact(section)),
                None => None,
            },
    )
}

/// `wasmparser::Parser::parse_all` walks the payloads of a module or Component. They are handed out in
/// order, up to the end or the first error, which is given by its text. A custom section is given by its
/// `name` and `data`.
#[verifier::external_body]
fn component_payloads(bytes: &[u8]) -> (r: (Vec<Option<(String, Vec<u8>)>>, Option<String>))
    ensures
        payload_facts(r.0@) == wasm_payloads(bytes@).0,
        text::opt_text(r.1) == wasm_payloads(bytes@).1,
{
    let mut payloads = Vec::new();
    for payload in wasmparser::Parser::new(0).parse_all(bytes) {
        payloads.push(match payload {
            Ok(wasmparser::Payload::CustomSection(section)) => Some((section.name().to_owned(), section.data().to_vec())),
            Ok(_) => None,
            Err(error) => return (payloads, Some(error.to_string())),
        });
    }
    (payloads, None)
}

/// The custom sections among payloads, in order.
pub open spec fn custom_among(payloads: Seq<Option<(Seq<char>, Seq<u8>)>>) -> Seq<(Seq<char>, Seq<u8>)>
    decreases payloads.len(),
{
    if payloads.len() == 0 {
        Seq::empty()
    } else {
        match payloads.last() {
            Some(section) => custom_among(payloads.drop_last()).push(section),
            None => custom_among(payloads.drop_last()),
        }
    }
}

/// The custom sections of a module or Component up to its end or the first error, and the text of that
/// error.
pub open spec fn wasm_sections(bytes: Seq<u8>) -> (Seq<(Seq<char>, Seq<u8>)>, Option<Seq<char>>) {
    (custom_among(wasm_payloads(bytes).0), wasm_payloads(bytes).1)
}

/// Keeps the custom sections among payloads, in order.
fn custom_sections(payloads: Vec<Option<(String, Vec<u8>)>>) -> (r: Vec<(String, Vec<u8>)>)
    ensures
        section_facts(r@) == custom_among(payload_facts(payloads@)),
{
    let mut sections: Vec<(String, Vec<u8>)> = Vec::new();
    let ghost facts = payload_facts(payloads@);
    let ghost all = payloads@;
    let mut payloads = payloads;
    let mut i: usize = 0;
    let n: usize = payloads.len();
    while i < n
        invariant
            i <= n,
            n == all.len(),
            payloads@.len() == n,
            facts == payload_facts(all),
            forall|k: int| i <= k < n ==> #[trigger] payloads@[k] == all[k],
            section_facts(sections@) == custom_among(facts.take(i as int)),
        decreases n - i,
    {
        let payload = payloads[i].take();
        assert(facts.take(i + 1).drop_last() =~= facts.take(i as int));
        assert(facts.take(i + 1).last() == facts[i as int]);
        if let Some(section) = payload {
            let ghost before = section_facts(sections@);
            let ghost fact = section_fact(section);
            sections.push(section);
            assert(section_facts(sections@) =~= before.push(fact));
        }
        i = i + 1;
    }
    assert(facts.take(n as int) =~= facts);
    sections
}

/// The descriptors among custom sections.
pub open spec fn descriptors(sections: Seq<(Seq<char>, Seq<u8>)>) -> Seq<(Seq<char>, Seq<u8>)> {
    sections.filter(|section: (Seq<char>, Seq<u8>)| section.0 == PLUGIN_DESCRIPTOR_SECTION@)
}

/// A descriptor among custom sections is too large.
pub open spec fn oversized(sections: Seq<(Seq<char>, Seq<u8>)>) -> bool {
    exists|i: int|
        0 <= i < sections.len() && (#[trigger] sections[i]).0 == PLUGIN_DESCRIPTOR_SECTION@ && sections[i].1.len() > MAX_PLUGIN_DESCRIPTOR_BYTES
}

/// The one descriptor that a Component carries, or why it carries none that is accepted.
pub open spec fn carried(sections: Seq<(Seq<char>, Seq<u8>)>, error: Option<Seq<char>>) -> Result<Seq<u8>, BundleFault> {
    if oversized(sections) {
        Err(BundleFault::InvalidBundle("Plugin descriptor exceeds the size limit"@))
    } else {
        match error {
            Some(detail) => Err(BundleFault::Wasm(detail)),
            None => if descriptors(sections).len() == 0 {
                Err(BundleFault::InvalidBundle("Plugin Component does not contain a source-derived descriptor"@))
            } else if descriptors(sections).len() > 1 {
                Err(BundleFault::InvalidBundle("Plugin Component contains duplicate source-derived descriptors"@))
            } else {
                Ok(descriptors(sections)[0].1)
            },
        }
    }
}

/// What a call that hands out bytes came to, by its facts.
pub open spec fn bytes_outcome(r: Result<Vec<u8>, BundleError>) -> Result<Seq<u8>, BundleFault> {
    match r {
        Ok(bytes) => Ok(bytes@),
        Err(error) => Err(error@),
    }
}

/// Selects the one descriptor among the custom sections of a Component.
pub fn carried_descriptor(sections: Vec<(String, Vec<u8>)>, error: Option<String>) -> (r: Result<Vec<u8>, BundleError>)
    ensures
        bytes_outcome(r) == carried(section_facts(sections@), text::opt_text(error)),
{
    let ghost facts = section_facts(sections@);
    let ghost wanted = |section: (Seq<char>, Seq<u8>)| section.0 == PLUGIN_DESCRIPTOR_SECTION@;
    let mut count: usize = 0;
    let mut chosen: usize = 0;
    let mut i: usize = 0;
    assert(facts.take(0).filter(wanted) =~= Seq::<(Seq<char>, Seq<u8>)>::empty()) by {
        reveal(Seq::filter);
    }
    while i < sections.len()
        invariant
            i <= sections.len(),
            count <= i,
            facts == section_facts(sections@),
            wanted == (|section: (Seq<char>, Seq<u8>)| section.0 == PLUGIN_DESCRIPTOR_SECTION@),
            count == facts.take(i as int).filter(wanted).len(),
            count > 0 ==> chosen < i && facts.take(i as int).filter(wanted)[0] == facts[chosen as int],
            forall|k: int|
                0 <= k < i && (#[trigger] facts[k]).0 == PLUGIN_DESCRIPTOR_SECTION@ ==> facts[k].1.len() <= MAX_PLUGIN_DESCRIPTOR_BYTES,
        decreases sections.len() - i,
    {
        proof {
            reveal(Seq::filter);
            assert(facts.take(i as int + 1).drop_last() =~= facts.take(i as int));
            assert(facts.take(i as int + 1).last() == (sections@[i as int].0@, sections@[i as int].1@));
        }
        if text::same(sections[i].0.as_str(), PLUGIN_DESCRIPTOR_SECTION) {
            if sections[i].1.len() > MAX_PLUGIN_DESCRIPTOR_BYTES {
                assert(facts[i as int].1.len() > MAX_PLUGIN_DESCRIPTOR_BYTES);
                return Err(invalid_bundle("Plugin descriptor exceeds the size limit"));
            }
            if count == 0 {
                chosen = i;
            }
            count = count + 1;
        }
        i = i + 1;
    }
    assert(facts.take(facts.len() as int) =~= facts);
    match error {
        Some(detail) => return Err(BundleError::Wasm(detail)),
        None => {},
    }
    if count == 0 {
        return Err(invalid_bundle("Plugin Component does not contain a source-derived descriptor"));
    }
    if count > 1 {
        return Err(invalid_bundle("Plugin Component contains duplicate source-derived descriptors"));
    }
    let mut rest = sections;
    let (_, bytes) = rest.swap_remove(chosen);
    assert(facts[chosen as int].1 == bytes@);
    Ok(bytes)
}

/// The one descriptor that a Component carries, without executing it. It was not read yet.
pub fn plugin_descriptor_section(component: &[u8]) -> (r: Result<Vec<u8>, BundleError>)
    ensures
        bytes_outcome(r) == carried(wasm_sections(component@).0, wasm_sections(component@).1),
{
    let (payloads, error) = component_payloads(component);
    carried_descriptor(custom_sections(payloads), error)
}

/// Why the reading of a descriptor is not accepted: it is strict JSON, and its bytes are its compact
/// notation.
pub open spec fn reading_fault(bytes: Seq<u8>, parsed: Result<Json, String>) -> Option<BundleFault> {
    match parsed {
        Err(detail) => Some(BundleFault::InvalidManifest(detail@)),
        Ok(tree) => match fault(tree.model()) {
            Some(found) => Some(BundleFault::InvalidManifest(fault_text(found, Wording::Manifest))),
            None => if compact_json(tree.model()) != bytes {
                Some(BundleFault::InvalidBundle("Plugin descriptor is not canonical JSON"@))
            } else {
                None
            },
        },
    }
}

/// Decides whether two byte sequences are the same.
pub fn same_bytes(a: &Vec<u8>, b: &Vec<u8>) -> (r: bool)
    ensures
        r == (a@ == b@),
{
    if a.len() != b.len() {
        return false;
    }
    let mut i: usize = 0;
    while i < a.len()
        invariant
            i <= a.len() == b.len(),
            forall|k: int| 0 <= k < i ==> a@[k] == b@[k],
        decreases a.len() - i,
    {
        if a[i] != b[i] {
            return false;
        }
        i = i + 1;
    }
    assert(a@ =~= b@);
    true
}

/// Accepts the reading of a descriptor's bytes.
pub fn accept_descriptor(bytes: &Vec<u8>, parsed: Result<Json, String>) -> (r: Result<Json, BundleError>)
    ensures
        match reading_fault(bytes@, parsed) {
            Some(found) => r is Err && r->Err_0@ == found,
            None => r is Ok && parsed == Ok::<Json, String>(r->Ok_0) && r->Ok_0.model().strict(),
        },
{
    let tree = match strict_json(parsed) {
        Ok(tree) => tree,
        Err(error) => return Err(error),
    };
    proof {
        strict_is_sound(tree.model());
    }
    let canonical = json::to_compact(&tree);
    if !same_bytes(&canonical, bytes) {
        return Err(invalid_bundle("Plugin descriptor is not canonical JSON"));
    }
    Ok(tree)
}

/// A strict tree is one that a JSON reader hands out.
pub proof fn strict_is_sound(tree: JsonView)
    requires
        tree.strict(),
    ensures
        tree.sound(),
    decreases tree,
{
    match tree {
        JsonView::List(items) => {
            assert forall|i: int| 0 <= i < items.len() implies (#[trigger] items[i]).signed_below_zero() by {
                strict_is_sound(items[i]);
            }
        },
        JsonView::Object(entries) => {
            assert forall|i: int| 0 <= i < entries.len() implies (#[trigger] entries[i]).1.signed_below_zero() by {
                strict_is_sound(entries[i].1);
            }
        },
        _ => {},
    }
}

/// Extracts one canonical source-derived Plugin descriptor without executing it. `parsed` is the
/// reading of the bytes that [`plugin_descriptor_section`] hands out, with repeated keys kept.
pub fn extract_plugin_descriptor(component: &[u8], parsed: Result<Json, String>) -> (r: Result<Vec<u8>, BundleError>)
    ensures
        bytes_outcome(r) == match carried(wasm_sections(component@).0, wasm_sections(component@).1) {
            Err(found) => Err::<Seq<u8>, BundleFault>(found),
            Ok(bytes) => match reading_fault(bytes, parsed) {
                Some(found) => Err(found),
                None => Ok(bytes),
            },
        },
{
    let bytes = match plugin_descriptor_section(component) {
        Ok(bytes) => bytes,
        Err(error) => return Err(error),
    };
    match accept_descriptor(&bytes, parsed) {
        Ok(_) => Ok(bytes),
        Err(error) => Err(error),
    }
}

/// One Capability that a guest declares.
#[derive(Clone, Debug)]
pub struct GuestCapability {
    pub capability_id: String,
    pub descriptor_version: String,
    pub request_operations: Vec<String>,
    pub stream_operations: Vec<String>,
}

/// One Capability that a guest requires.
#[derive(Clone, Debug)]
pub struct GuestRequirement {
    pub capability_id: String,
    pub descriptor_version: String,
    pub cardinality: String,
}

/// What a guest declares of its runtime.
#[derive(Clone, Debug)]
pub struct GuestRuntimeDescriptor {
    pub abi: String,
    pub capabilities: Vec<GuestCapability>,
    pub required_capabilities: Vec<GuestRequirement>,
}

/// The facts of a declared Capability.
pub struct CapabilityFacts {
    pub capability_id: Seq<char>,
    pub descriptor_version: Seq<char>,
    pub request_operations: Seq<Seq<char>>,
    pub stream_operations: Seq<Seq<char>>,
}

/// The facts of a required Capability.
pub struct RequirementFacts {
    pub capability_id: Seq<char>,
    pub descriptor_version: Seq<char>,
    pub cardinality: Seq<char>,
}

/// The facts of a guest's runtime.
pub struct RuntimeFacts {
    pub abi: Seq<char>,
    pub capabilities: Seq<CapabilityFacts>,
    pub required_capabilities: Seq<RequirementFacts>,
}

impl View for GuestCapability {
    type V = CapabilityFacts;

    open spec fn view(&self) -> CapabilityFacts {
        CapabilityFacts {
            capability_id: self.capability_id@,
            descriptor_version: self.descriptor_version@,
            request_operations: texts(self.request_operations@),
            stream_operations: texts(self.stream_operations@),
        }
    }
}

impl View for GuestRequirement {
    type V = RequirementFacts;

    open spec fn view(&self) -> RequirementFacts {
        RequirementFacts {
            capability_id: self.capability_id@,
            descriptor_version: self.descriptor_version@,
            cardinality: self.cardinality@,
        }
    }
}

impl View for GuestRuntimeDescriptor {
    type V = RuntimeFacts;

    open spec fn view(&self) -> RuntimeFacts {
        RuntimeFacts {
            abi: self.abi@,
            capabilities: self.capabilities@.map_values(|item: GuestCapability| item@),
            required_capabilities: self.required_capabilities@.map_values(|item: GuestRequirement| item@),
        }
    }
}

/// The Capability that a tree declares.
pub open spec fn capability_of(tree: JsonView) -> Option<CapabilityFacts> {
    match struct_fields(tree, seq!["capability_id"@, "descriptor_version"@, "request_operations"@, "stream_operations"@]) {
        Some(fields) => match (fields[0], fields[1], fields[2], fields[3]) {
            (Some(id), Some(version), Some(requests), streams) => match (
                tree_text(id),
                tree_text(version),
                tree_texts(requests),
                match streams {
                    Some(found) => tree_texts(found),
                    None => Some(Seq::empty()),
                },
            ) {
                (Some(capability_id), Some(descriptor_version), Some(request_operations), Some(stream_operations)) => Some(
                    CapabilityFacts { capability_id, descriptor_version, request_operations, stream_operations },
                ),
                _ => None,
            },
            _ => None,
        },
        None => None,
    }
}

/// The requirement that a tree declares.
pub open spec fn requirement_of(tree: JsonView) -> Option<RequirementFacts> {
    match struct_fields(tree, seq!["capability_id"@, "descriptor_version"@, "cardinality"@]) {
        Some(fields) => match (fields[0], fields[1], fields[2]) {
            (Some(id), Some(version), Some(cardinality)) => match (tree_text(id), tree_text(version), tree_text(cardinality)) {
                (Some(capability_id), Some(descriptor_version), Some(cardinality)) => Some(
                    RequirementFacts { capability_id, descriptor_version, cardinality },
                ),
                _ => None,
            },
            _ => None,
        },
        None => None,
    }
}

/// The list that a tree is, item by item.
pub open spec fn tree_list<T>(tree: JsonView, read: spec_fn(JsonView) -> Option<T>) -> Option<Seq<T>> {
    match tree {
        JsonView::List(items) => if forall|i: int| 0 <= i < items.len() ==> read(#[trigger] items[i]) is Some {
            Some(items.map_values(|item: JsonView| read(item)->Some_0))
        } else {
            None
        },
        _ => None,
    }
}

/// The runtime that a tree declares. No requirements stands for an empty list of them.
pub open spec fn runtime_of(tree: JsonView) -> Option<RuntimeFacts> {
    match struct_fields(tree, seq!["abi"@, "capabilities"@, "required_capabilities"@]) {
        Some(fields) => match (fields[0], fields[1], fields[2]) {
            (Some(abi), Some(capabilities), requirements) => match (
                tree_text(abi),
                tree_list(capabilities, |item: JsonView| capability_of(item)),
                match requirements {
                    Some(found) => tree_list(found, |item: JsonView| requirement_of(item)),
                    None => Some(Seq::empty()),
                },
            ) {
                (Some(abi), Some(capabilities), Some(required_capabilities)) => Some(
                    RuntimeFacts { abi, capabilities, required_capabilities },
                ),
                _ => None,
            },
            _ => None,
        },
        None => None,
    }
}

fn decode_capability(value: &Json) -> (r: Option<GuestCapability>)
    requires
        value.model().sound(),
    ensures
        match capability_of(value.model()) {
            Some(facts) => r matches Some(found) && found@ == facts,
            None => r is None,
        },
{
    let names: [&'static str; 4] = ["capability_id", "descriptor_version", "request_operations", "stream_operations"];
    assert(literals(names@) =~= seq!["capability_id"@, "descriptor_version"@, "request_operations"@, "stream_operations"@]);
    let fields = match decode::read_struct(value, names.as_slice()) {
        Some(fields) => fields,
        None => return None,
    };
    let ghost found = decode::opt_models(fields@);
    assert(found.len() == 4);
    match (fields[0], fields[1], fields[2]) {
        (Some(id), Some(version), Some(requests)) => {
            assert(found[0] == Some(id.model()) && found[1] == Some(version.model()) && found[2] == Some(requests.model()));
            let streams: Option<Vec<String>> = match fields[3] {
                Some(streams) => {
                    assert(found[3] == Some(streams.model()));
                    decode::json_texts(streams)
                },
                None => {
                    assert(found[3] is None);
                    let none: Vec<String> = Vec::new();
                    assert(texts(none@) =~= Seq::<Seq<char>>::empty());
                    Some(none)
                },
            };
            match (decode::json_text(id), decode::json_text(version), decode::json_texts(requests), streams) {
                (Some(capability_id), Some(descriptor_version), Some(request_operations), Some(stream_operations)) => Some(
                    GuestCapability { capability_id, descriptor_version, request_operations, stream_operations },
                ),
                _ => None,
            }
        },
        _ => {
            assert(found[0] is None || found[1] is None || found[2] is None);
            None
        },
    }
}

fn decode_requirement(value: &Json) -> (r: Option<GuestRequirement>)
    requires
        value.model().sound(),
    ensures
        match requirement_of(value.model()) {
            Some(facts) => r matches Some(found) && found@ == facts,
            None => r is None,
        },
{
    let names: [&'static str; 3] = ["capability_id", "descriptor_version", "cardinality"];
    assert(literals(names@) =~= seq!["capability_id"@, "descriptor_version"@, "cardinality"@]);
    let fields = match decode::read_struct(value, names.as_slice()) {
        Some(fields) => fields,
        None => return None,
    };
    let ghost found = decode::opt_models(fields@);
    assert(found.len() == 3);
    match (fields[0], fields[1], fields[2]) {
        (Some(id), Some(version), Some(cardinality)) => {
            assert(found[0] == Some(id.model()) && found[1] == Some(version.model()) && found[2] == Some(cardinality.model()));
            match (decode::json_text(id), decode::json_text(version), decode::json_text(cardinality)) {
                (Some(capability_id), Some(descriptor_version), Some(cardinality)) => Some(
                    GuestRequirement { capability_id, descriptor_version, cardinality },
                ),
                _ => None,
            }
        },
        _ => {
            assert(found[0] is None || found[1] is None || found[2] is None);
            None
        },
    }
}

fn decode_capabilities(value: &Json) -> (r: Option<Vec<GuestCapability>>)
    requires
        value.model().sound(),
    ensures
        match tree_list(value.model(), |item: JsonView| capability_of(item)) {
            Some(facts) => r matches Some(found) && found@.map_values(|item: GuestCapability| item@) == facts,
            None => r is None,
        },
{
    match value {
        Json::List(items) => {
            proof {
                json::list_model(*items);
            }
            let ghost trees = models(items@);
            let ghost read = |item: JsonView| capability_of(item);
            let mut r: Vec<GuestCapability> = Vec::new();
            let mut i: usize = 0;
            while i < items.len()
                invariant
                    i <= items.len(),
                    trees == models(items@),
                    value.model() == JsonView::List(trees),
                    value.model().sound(),
                    read == (|item: JsonView| capability_of(item)),
                    r@.len() == i,
                    forall|k: int| 0 <= k < i ==> read(#[trigger] trees[k]) == Some(r@[k]@),
                decreases items.len() - i,
            {
                proof {
                    assert(trees[i as int] == items@[i as int].model());
                    let inner = value.model()->List_0;
                    assert(inner[i as int].distinct_keys() && inner[i as int].signed_below_zero());
                }
                match decode_capability(&items[i]) {
                    Some(item) => {
                        r.push(item);
                    },
                    None => {
                        proof {
                            let inner = value.model()->List_0;
                            assert(read(inner[i as int]) is None);
                        }
                        return None;
                    },
                }
                i = i + 1;
            }
            proof {
                assert(r@.map_values(|item: GuestCapability| item@) =~= trees.map_values(|item: JsonView| read(item)->Some_0));
            }
            Some(r)
        },
        _ => None,
    }
}

fn decode_requirements(value: &Json) -> (r: Option<Vec<GuestRequirement>>)
    requires
        value.model().sound(),
    ensures
        match tree_list(value.model(), |item: JsonView| requirement_of(item)) {
            Some(facts) => r matches Some(found) && found@.map_values(|item: GuestRequirement| item@) == facts,
            None => r is None,
        },
{
    match value {
        Json::List(items) => {
            proof {
                json::list_model(*items);
            }
            let ghost trees = models(items@);
            let ghost read = |item: JsonView| requirement_of(item);
            let mut r: Vec<GuestRequirement> = Vec::new();
            let mut i: usize = 0;
            while i < items.len()
                invariant
                    i <= items.len(),
                    trees == models(items@),
                    value.model() == JsonView::List(trees),
                    value.model().sound(),
                    read == (|item: JsonView| requirement_of(item)),
                    r@.len() == i,
                    forall|k: int| 0 <= k < i ==> read(#[trigger] trees[k]) == Some(r@[k]@),
                decreases items.len() - i,
            {
                proof {
                    assert(trees[i as int] == items@[i as int].model());
                    let inner = value.model()->List_0;
                    assert(inner[i as int].distinct_keys() && inner[i as int].signed_below_zero());
                }
                match decode_requirement(&items[i]) {
                    Some(item) => {
                        r.push(item);
                    },
                    None => {
                        proof {
                            let inner = value.model()->List_0;
                            assert(read(inner[i as int]) is None);
                        }
                        return None;
                    },
                }
                i = i + 1;
            }
            proof {
                assert(r@.map_values(|item: GuestRequirement| item@) =~= trees.map_values(|item: JsonView| read(item)->Some_0));
            }
            Some(r)
        },
        _ => None,
    }
}

/// Reads what a guest declares of its runtime.
pub fn decode_runtime(value: &Json) -> (r: Option<GuestRuntimeDescriptor>)
    requires
        value.model().sound(),
    ensures
        match runtime_of(value.model()) {
            Some(facts) => r matches Some(found) && found@ == facts,
            None => r is None,
        },
{
    let names: [&'static str; 3] = ["abi", "capabilities", "required_capabilities"];
    assert(literals(names@) =~= seq!["abi"@, "capabilities"@, "required_capabilities"@]);
    let fields = match decode::read_struct(value, names.as_slice()) {
        Some(fields) => fields,
        None => return None,
    };
    let ghost found = decode::opt_models(fields@);
    assert(found.len() == 3);
    match (fields[0], fields[1]) {
        (Some(abi), Some(capabilities)) => {
            assert(found[0] == Some(abi.model()) && found[1] == Some(capabilities.model()));
            let requirements: Option<Vec<GuestRequirement>> = match fields[2] {
                Some(requirements) => {
                    assert(found[2] == Some(requirements.model()));
                    decode_requirements(requirements)
                },
                None => {
                    assert(found[2] is None);
                    let none: Vec<GuestRequirement> = Vec::new();
                    assert(none@.map_values(|item: GuestRequirement| item@) =~= Seq::<RequirementFacts>::empty());
                    Some(none)
                },
            };
            match (decode::json_text(abi), decode_capabilities(capabilities), requirements) {
                (Some(abi), Some(capabilities), Some(required_capabilities)) => Some(
                    GuestRuntimeDescriptor { abi, capabilities, required_capabilities },
                ),
                _ => None,
            }
        },
        _ => {
            assert(found[0] is None || found[1] is None);
            None
        },
    }
}

/// One Capability as the descriptor of a Plugin declares it: all its operations, and which of them are
/// streams.
#[derive(Clone, Debug)]
pub struct PortableCapability {
    pub capability_id: String,
    pub descriptor_version: String,
    pub operations: Vec<String>,
    pub streams: Vec<String>,
}

/// What a list of declared Capabilities says.
pub open spec fn portable_facts(items: Seq<PortableCapability>) -> Seq<(Seq<char>, Seq<char>, Seq<Seq<char>>, Seq<Seq<char>>)> {
    items.map_values(
        |item: PortableCapability| (item.capability_id@, item.descriptor_version@, texts(item.operations@), texts(item.streams@)),
    )
}

/// What a list of requirements says.
pub open spec fn required_facts(items: Seq<(String, String)>) -> Seq<(Seq<char>, Seq<char>)> {
    items.map_values(|item: (String, String)| (item.0@, item.1@))
}

/// The JSON of the Plugin descriptor that `lenso_app_plan` builds from these facts: a Plugin with its
/// runtime package and execution class, the Capabilities that it provides, each with its operations and
/// its streams, and the Capabilities that it requires exactly one provider of.
pub uninterp spec fn descriptor_tree(
    identity: (Seq<char>, Seq<char>, Seq<char>),
    package: (Seq<char>, Seq<char>),
    execution_class: Seq<char>,
    capabilities: Seq<(Seq<char>, Seq<char>, Seq<Seq<char>>, Seq<Seq<char>>)>,
    requirements: Seq<(Seq<char>, Seq<char>)>,
) -> JsonView;

/// `lenso_app_plan`'s `PluginDescriptor` is built from plain facts by its own constructors, one call for
/// each fact, and written by `serde_json::to_value`. That does not fail: its keys are text. What is
/// written is strict JSON (the numbers of a descriptor are unsigned) and has the slot under `root_slot`.
#[verifier::external_body]
fn descriptor_json(
    identity: (&str, &str, &str),
    package: (&str, &str),
    execution_class: &str,
    capabilities: &Vec<PortableCapability>,
    requirements: &Vec<(String, String)>,
) -> (r: Result<Json, String>)
    ensures
        r is Ok,
        r->Ok_0.model() == descriptor_tree(
            (identity.0@, identity.1@, identity.2@),
            (package.0@, package.1@),
            execution_class@,
            portable_facts(capabilities@),
            required_facts(requirements@),
        ),
        r->Ok_0.model().strict(),
        member(r->Ok_0.model(), "root_slot"@) == Some(JsonView::Text(identity.2@)),
{
    let mut descriptor = PluginDescriptor::new(identity.0, identity.1, identity.2)
        .with_runtime_package(package.0, package.1)
        .with_execution_class(ExecutionClassId::new(execution_class));
    for item in capabilities {
        let endpoint = CapabilityEndpointPlan::new(&item.capability_id, &item.descriptor_version, &item.operations);
        let mark = |built: CapabilityEndpointPlan, name| built.with_operation_kind(name, CapabilityOperationKind::Stream);
        descriptor = descriptor.with_capability(item.streams.iter().fold(endpoint, mark));
    }
    for item in requirements {
        descriptor = descriptor.with_requirement(CapabilityRequirementPlan::one(&item.0, &item.1));
    }
    serde_json::to_value(descriptor).map(|value| json::json_of(&value)).map_err(|error| error.to_string())
}

/// The execution class of a portable Plugin.
pub const WASM_COMPONENT_CLASS: &'static str = "lenso.wasm-component@1";

/// The guest ABI is one that the runtime speaks.
pub open spec fn supported_abi(abi: Seq<char>) -> bool {
    abi == "lenso.json-request@1"@ || abi == "lenso.json-interactions@1"@ || abi == "lenso.json-host-imports@1"@
}

/// Why a guest's runtime is not accepted.
pub open spec fn runtime_fault(runtime: RuntimeFacts) -> Option<Seq<char>> {
    if !supported_abi(runtime.abi) {
        Some("unsupported guest Plugin ABI"@)
    } else if exists|i: int|
        0 <= i < runtime.required_capabilities.len() && (#[trigger] runtime.required_capabilities[i]).cardinality != "one"@ {
        Some("unsupported guest Capability cardinality"@)
    } else {
        None
    }
}

/// The Capabilities that a descriptor declares for a guest's runtime: requests first, then streams.
pub open spec fn declared(runtime: RuntimeFacts) -> Seq<(Seq<char>, Seq<char>, Seq<Seq<char>>, Seq<Seq<char>>)> {
    runtime.capabilities.map_values(
        |item: CapabilityFacts|
            (
                item.capability_id,
                item.descriptor_version,
                item.request_operations + item.stream_operations,
                item.stream_operations,
            ),
    )
}

/// The Capabilities that a descriptor requires for a guest's runtime.
pub open spec fn needed(runtime: RuntimeFacts) -> Seq<(Seq<char>, Seq<char>)> {
    runtime.required_capabilities.map_values(|item: RequirementFacts| (item.capability_id, item.descriptor_version))
}

/// The descriptor of a portable Plugin, or why its guest's runtime is not accepted.
pub open spec fn portable_descriptor(
    identity: (Seq<char>, Seq<char>, Seq<char>),
    artifact_digest: Seq<char>,
    tree: JsonView,
) -> Result<JsonView, BundleFault> {
    match runtime_of(tree) {
        None => Err(BundleFault::InvalidManifest("guest Plugin descriptor does not have its declared form"@)),
        Some(runtime) => match runtime_fault(runtime) {
            Some(detail) => Err(BundleFault::InvalidManifest(detail)),
            None => Ok(
                descriptor_tree(identity, (identity.0, artifact_digest), WASM_COMPONENT_CLASS@, declared(runtime), needed(runtime)),
            ),
        },
    }
}

/// What a call that hands out JSON came to, by its facts.
pub open spec fn json_outcome(r: Result<Json, BundleError>) -> Result<JsonView, BundleFault> {
    match r {
        Ok(value) => Ok(value.model()),
        Err(error) => Err(error@),
    }
}

/// One list of texts behind another.
fn chained(a: &Vec<String>, b: &Vec<String>) -> (r: Vec<String>)
    ensures
        texts(r@) == texts(a@) + texts(b@),
{
    let mut r = text::copy_all(a);
    let ghost first = r@;
    let mut i: usize = 0;
    assert(texts(b@).take(0) =~= Seq::<Seq<char>>::empty());
    assert(texts(r@) =~= texts(a@) + texts(b@).take(0));
    while i < b.len()
        invariant
            i <= b.len(),
            texts(r@) == texts(a@) + texts(b@).take(i as int),
        decreases b.len() - i,
    {
        let ghost before = r@;
        r.push(b[i].clone());
        proof {
            assert(texts(r@) =~= texts(before).push(b@[i as int]@));
            assert(texts(b@).take(i + 1) =~= texts(b@).take(i as int).push(b@[i as int]@));
            assert(texts(r@) =~= texts(a@) + texts(b@).take(i + 1));
        }
        i = i + 1;
    }
    assert(texts(b@).take(i as int) =~= texts(b@));
    r
}

/// Derives the descriptor of a portable Plugin from what its guest declares.
pub fn portable_plugin_descriptor(
    plugin_id: &str,
    release_version: &str,
    root_slot: &str,
    artifact_digest: &str,
    runtime: &Json,
) -> (r: Result<Json, BundleError>)
    requires
        runtime.model().sound(),
    ensures
        json_outcome(r) == portable_descriptor((plugin_id@, release_version@, root_slot@), artifact_digest@, runtime.model()),
        r is Ok ==> r->Ok_0.model().strict() && root_slot_of(r->Ok_0.model()) == Some(root_slot@),
{
    let guest = match decode_runtime(runtime) {
        Some(guest) => guest,
        None => return Err(invalid_manifest("guest Plugin descriptor does not have its declared form")),
    };
    let ghost facts = guest@;
    if !text::same(guest.abi.as_str(), "lenso.json-request@1") && !text::same(guest.abi.as_str(), "lenso.json-interactions@1")
        && !text::same(guest.abi.as_str(), "lenso.json-host-imports@1") {
        return Err(invalid_manifest("unsupported guest Plugin ABI"));
    }
    let mut capabilities: Vec<PortableCapability> = Vec::new();
    let mut i: usize = 0;
    while i < guest.capabilities.len()
        invariant
            i <= guest.capabilities.len(),
            facts == guest@,
            capabilities@.len() == i,
            forall|k: int| 0 <= k < i ==> (#[trigger] portable_facts(capabilities@)[k]) == declared(facts)[k],
        decreases guest.capabilities.len() - i,
    {
        let item = &guest.capabilities[i];
        let ghost before = capabilities@;
        capabilities.push(
            PortableCapability {
                capability_id: item.capability_id.clone(),
                descriptor_version: item.descriptor_version.clone(),
                operations: chained(&item.request_operations, &item.stream_operations),
                streams: text::copy_all(&item.stream_operations),
            },
        );
        proof {
            assert(facts.capabilities[i as int] == item@);
            assert forall|k: int| 0 <= k < i + 1 implies (#[trigger] portable_facts(capabilities@)[k]) == declared(facts)[k] by {
                if k < i {
                    assert(portable_facts(before)[k] == portable_facts(capabilities@)[k]);
                }
            }
        }
        i = i + 1;
    }
    let mut requirements: Vec<(String, String)> = Vec::new();
    let mut j: usize = 0;
    while j < guest.required_capabilities.len()
        invariant
            j <= guest.required_capabilities.len(),
            facts == guest@,
            runtime_of(runtime.model()) == Some(facts),
            supported_abi(facts.abi),
            requirements@.len() == j,
            forall|k: int| 0 <= k < j ==> (#[trigger] facts.required_capabilities[k]).cardinality == "one"@,
            forall|k: int| 0 <= k < j ==> (#[trigger] required_facts(requirements@)[k]) == needed(facts)[k],
        decreases guest.required_capabilities.len() - j,
    {
        let item = &guest.required_capabilities[j];
        assert(facts.required_capabilities[j as int] == item@);
        if !text::same(item.cardinality.as_str(), "one") {
            return Err(invalid_manifest("unsupported guest Capability cardinality"));
        }
        let ghost before = requirements@;
        requirements.push((item.capability_id.clone(), item.descriptor_version.clone()));
        proof {
            assert forall|k: int| 0 <= k < j + 1 implies (#[trigger] required_facts(requirements@)[k]) == needed(facts)[k] by {
                if k < j {
                    assert(required_facts(before)[k] == required_facts(requirements@)[k]);
                }
            }
        }
        j = j + 1;
    }
    proof {
        assert(portable_facts(capabilities@) =~= declared(facts));
        assert(required_facts(requirements@) =~= needed(facts));
    }
    match descriptor_json(
        (plugin_id, release_version, root_slot),
        (plugin_id, artifact_digest),
        WASM_COMPONENT_CLASS,
        &capabilities,
        &requirements,
    ) {
        Ok(value) => Ok(value),
        Err(detail) => Err(BundleError::InvalidManifest(detail)),
    }
}

/// The slot that the descriptor of a manifest names.
pub open spec fn root_slot_of(descriptor: JsonView) -> Option<Seq<char>> {
    match member(descriptor, "root_slot"@) {
        Some(value) => tree_text(value),
        None => None,
    }
}

/// The facts of a verified Bundle.
pub open spec fn bundle_facts(bundle: VerifiedBundle) -> (Seq<char>, Seq<char>, Seq<char>, Seq<Seq<char>>, Seq<Seq<char>>) {
    (
        bundle.plugin_id@,
        bundle.release_version@,
        bundle.manifest_digest@,
        texts(bundle.artifact_digests@),
        texts(bundle.product_metadata_digests@),
    )
}

/// What verification came to, by its facts.
pub open spec fn verified_outcome(r: Result<VerifiedBundle, BundleError>) -> Result<
    (Seq<char>, Seq<char>, Seq<char>, Seq<Seq<char>>, Seq<Seq<char>>),
    BundleFault,
> {
    match r {
        Ok(bundle) => Ok(bundle_facts(bundle)),
        Err(error) => Err(error@),
    }
}

/// Why the files of a Bundle do not hold its Artifact.
pub open spec fn files_fault(artifact: PluginArtifactV2, files: Seq<(Seq<char>, Vec<u8>)>) -> Option<BundleFault> {
    if files.len() != 1 {
        Some(BundleFault::InvalidBundle("V2 Bundle must contain exactly one Artifact"@))
    } else if files[0].0 != artifact.path@ {
        Some(BundleFault::InvalidBundle("V2 Bundle does not contain its declared Artifact"@))
    } else if artifact.size != files[0].1@.len() || artifact.digest@ != digest_of(files[0].1@) {
        Some(BundleFault::DigestMismatch(artifact.path@))
    } else {
        None
    }
}

/// What the verification of a Bundle comes to, once its Artifact is found to be the one declared: the
/// sections of the Component are given, and the reading of its descriptor.
pub open spec fn verification(
    manifest: PluginManifestV2,
    identity: Seq<char>,
    sections: (Seq<(Seq<char>, Seq<u8>)>, Option<Seq<char>>),
    parsed: Result<Json, String>,
) -> Result<(Seq<char>, Seq<char>, Seq<char>, Seq<Seq<char>>, Seq<Seq<char>>), BundleFault> {
    match carried(sections.0, sections.1) {
        Err(found) => Err(found),
        Ok(bytes) => match reading_fault(bytes, parsed) {
            Some(found) => Err(found),
            None => match root_slot_of(manifest.entry.descriptor.model()) {
                None => Err(BundleFault::InvalidManifest("root_slot is required"@)),
                Some(slot) => match portable_descriptor(
                    (manifest.plugin_id@, manifest.release_version@, slot),
                    manifest.artifact.digest@,
                    parsed->Ok_0.model(),
                ) {
                    Err(found) => Err(found),
                    Ok(derived) => if compact_json(derived) != compact_json(manifest.entry.descriptor.model()) {
                        Err(BundleFault::InvalidBundle("source descriptor does not match the V2 Plugin entry"@))
                    } else {
                        Ok(
                            (
                                manifest.plugin_id@,
                                manifest.release_version@,
                                identity,
                                seq![manifest.artifact.digest@],
                                Seq::<Seq<char>>::empty(),
                            ),
                        )
                    },
                },
            },
        },
    }
}

/// Verifies a Component against the manifest of its Bundle, from the bytes of its descriptor.
pub fn verify_component(manifest: &SourceManifestDocument, descriptor: Result<Vec<u8>, BundleError>, parsed: Result<Json, String>) -> (r: Result<
    VerifiedBundle,
    BundleError,
>)
    ensures
        forall|sections: (Seq<(Seq<char>, Seq<u8>)>, Option<Seq<char>>)|
            #![trigger verification(manifest.typed(), manifest.identity(), sections, parsed)]
            bytes_outcome(descriptor) == carried(sections.0, sections.1) ==> verified_outcome(r) == verification(
                manifest.typed(),
                manifest.identity(),
                sections,
                parsed,
            ),
{
    let bytes = match descriptor {
        Ok(bytes) => bytes,
        Err(error) => return Err(error),
    };
    let tree = match accept_descriptor(&bytes, parsed) {
        Ok(tree) => tree,
        Err(error) => return Err(error),
    };
    proof {
        strict_is_sound(tree.model());
    }
    let value = manifest.value();
    let slot: &str = match json::get(&value.entry.descriptor, "root_slot") {
        Some(Json::Text(slot)) => slot.as_str(),
        _ => return Err(invalid_manifest("root_slot is required")),
    };
    let derived = match portable_plugin_descriptor(
        value.plugin_id.as_str(),
        value.release_version.as_str(),
        slot,
        value.artifact.digest.as_str(),
        &tree,
    ) {
        Ok(derived) => derived,
        Err(error) => return Err(error),
    };
    proof {
        strict_is_sound(derived.model());
    }
    let packaged = json::to_compact(&value.entry.descriptor);
    if !same_bytes(&json::to_compact(&derived), &packaged) {
        return Err(invalid_bundle("source descriptor does not match the V2 Plugin entry"));
    }
    let mut artifact_digests: Vec<String> = Vec::new();
    artifact_digests.push(value.artifact.digest.clone());
    let product_metadata_digests: Vec<String> = Vec::new();
    proof {
        assert(texts(artifact_digests@) =~= seq![value.artifact.digest@]);
        assert(texts(product_metadata_digests@) =~= Seq::<Seq<char>>::empty());
    }
    Ok(
        VerifiedBundle {
            plugin_id: value.plugin_id.clone(),
            release_version: value.release_version.clone(),
            manifest_digest: manifest.digest().to_owned(),
            artifact_digests,
            product_metadata_digests,
        },
    )
}

/// Checks that the files of a Bundle are its one declared Artifact.
pub fn check_files<'a>(artifact: &PluginArtifactV2, files: &'a TextMap<Vec<u8>>) -> (r: Result<&'a Vec<u8>, BundleError>)
    requires
        files.wf(),
    ensures
        match files_fault(*artifact, files.entries()) {
            Some(found) => r is Err && r->Err_0@ == found,
            None => r is Ok && r->Ok_0@ == files.entries()[0].1@,
        },
{
    if files.len() != 1 {
        return Err(invalid_bundle("V2 Bundle must contain exactly one Artifact"));
    }
    if !text::same(files.key_at(0), artifact.path.as_str()) {
        return Err(invalid_bundle("V2 Bundle does not contain its declared Artifact"));
    }
    let bytes = files.value_at(0);
    if artifact.size != bytes.len() as u64 || !text::same(
        artifact.digest.as_str(),
        digest::sha256_digest(bytes.as_slice()).as_str(),
    ) {
        return Err(BundleError::DigestMismatch(artifact.path.clone()));
    }
    Ok(bytes)
}

/// What the verification of a materialized directory comes to, from its manifest, its other files by
/// their paths, and the reading of its descriptor.
pub open spec fn bundle_verified(
    manifest: Result<PluginManifestV2, String>,
    files: Seq<(Seq<char>, Vec<u8>)>,
    parsed: Result<Json, String>,
    r: Result<VerifiedBundle, BundleError>,
) -> bool {
    match manifest {
        Err(detail) => r is Err && r->Err_0@ == BundleFault::InvalidManifest(detail@),
        Ok(value) => match manifest_fault(value, semantic_version(value.release_version@)) {
            Some(detail) => r is Err && r->Err_0@ == BundleFault::InvalidManifest(detail),
            None => if !value.tree().authority_numbers() {
                r is Err && r->Err_0@ == BundleFault::InvalidManifest("numbers must be non-negative integers"@)
            } else {
                match files_fault(value.artifact, files) {
                    Some(found) => r is Err && r->Err_0@ == found,
                    None => verified_outcome(r) == verification(
                        value,
                        digest_of(compact_json(value.tree())),
                        wasm_sections(files[0].1@),
                        parsed,
                    ),
                }
            },
        },
    }
}

/// Verifies an already materialized directory as an exact immutable Bundle closure: its manifest, read
/// from strict JSON, and its other files by their relative paths. `parsed` is the reading of the bytes
/// that [`plugin_descriptor_section`] hands out for the Artifact, with repeated keys kept.
pub fn verify_bundle_directory(
    manifest: Result<PluginManifestV2, String>,
    files: &TextMap<Vec<u8>>,
    parsed: Result<Json, String>,
) -> (r: Result<VerifiedBundle, BundleError>)
    requires
        files.wf(),
        manifest is Ok ==> manifest->Ok_0.entry.descriptor.model().sound(),
    ensures
        bundle_verified(manifest, files.entries(), parsed, r),
{
    let document = match SourceManifestDocument::parse(manifest) {
        Ok(document) => document,
        Err(error) => return Err(error),
    };
    let bytes = match check_files(&document.value().artifact, files) {
        Ok(bytes) => bytes,
        Err(error) => return Err(error),
    };
    let descriptor = plugin_descriptor_section(bytes.as_slice());
    let ghost sections = wasm_sections(bytes@);
    let r = verify_component(&document, descriptor, parsed);
    assert(verified_outcome(r) == verification(document.typed(), document.identity(), sections, parsed));
    r
}

/// Takes what came of encoding the module of a Plugin as a Component. The encoder asserts much of what
/// it reads from a module, so it runs in the Host, which hands over the Component or the encoder's error.
pub fn take_component(encoded: Result<Vec<u8>, String>) -> (r: Result<Vec<u8>, BundleError>)
    ensures
        match encoded {
            Ok(component) => r == Ok::<Vec<u8>, BundleError>(component),
            Err(detail) => r is Err && r->Err_0@ == BundleFault::Wasm(detail@),
        },
{
    match encoded {
        Ok(component) => Ok(component),
        Err(detail) => Err(BundleError::Wasm(detail)),
    }
}

/// The Artifact that a build makes of a Component.
pub open spec fn built_artifact(component: Seq<u8>) -> (Seq<char>, Seq<char>, int, Seq<char>, Seq<char>) {
    ("plugin.wasm"@, digest_of(component), component.len() as int, "application/wasm"@, "wasm32-unknown-unknown"@)
}

/// The manifest is the one that a build makes of a package and a Component, with this descriptor.
pub open spec fn built_manifest(manifest: PluginManifestV2, package: CargoPackage, component: Seq<u8>, descriptor: JsonView) -> bool {
    &&& manifest.schema_version == 2
    &&& manifest.plugin_id@ == package.plugin_id@
    &&& manifest.release_version@ == package.version@
    &&& (
        manifest.artifact.path@,
        manifest.artifact.digest@,
        manifest.artifact.size as int,
        manifest.artifact.media_type@,
        manifest.artifact.target@,
    ) == built_artifact(component)
    &&& manifest.entry.descriptor.model() == descriptor
}

/// What a build comes to, from a package, its Component and the reading of its descriptor.
pub open spec fn bundle_built(package: CargoPackage, component: Seq<u8>, parsed: Result<Json, String>, r: Result<SourceManifestDocument, BundleError>) -> bool {
    match carried(wasm_sections(component).0, wasm_sections(component).1) {
        Err(found) => r is Err && r->Err_0@ == found,
        Ok(bytes) => match reading_fault(bytes, parsed) {
            Some(found) => r is Err && r->Err_0@ == found,
            None => match portable_descriptor(
                (package.plugin_id@, package.version@, package.root_slot@),
                digest_of(component),
                parsed->Ok_0.model(),
            ) {
                Err(found) => r is Err && r->Err_0@ == found,
                Ok(descriptor) => if package.plugin_id@.len() == 0 || !semantic_version(package.version@) {
                    r is Err && r->Err_0@ == BundleFault::InvalidManifest("Plugin identity or Release version is invalid"@)
                } else if component.len() == 0 {
                    r is Err && r->Err_0@ == BundleFault::InvalidManifest("V2 Artifact size, Wasm media type, and target must be exact"@)
                } else {
                    r is Ok && built_manifest(r->Ok_0.typed(), package, component, descriptor)
                },
            },
        },
    }
}

/// The Artifact that a build makes is accepted in a Bundle that holds the Component under its path, and
/// in none that holds other bytes or more files.
pub proof fn a_bundle_holds_what_was_built(
    manifest: PluginManifestV2,
    package: CargoPackage,
    component: Vec<u8>,
    descriptor: JsonView,
    files: Seq<(Seq<char>, Vec<u8>)>,
)
    requires
        built_manifest(manifest, package, component@, descriptor),
    ensures
        files_fault(manifest.artifact, files) is None ==> files.len() == 1 && files[0].0 == "plugin.wasm"@ && files[0].1@.len() == component@.len()
            && digest_of(files[0].1@) == digest_of(component@),
        files.len() == 1 && files[0].0 == "plugin.wasm"@ && files[0].1@ == component@ ==> files_fault(manifest.artifact, files) is None,
        digest_syntax(digest_of(component@)) && descriptor is Object && package.plugin_id@.len() > 0 && component@.len() > 0 ==> manifest_fault(
            manifest,
            true,
        ) is None,
{
    built_path_is_plain();
    if digest_syntax(digest_of(component@)) {
        computed_digest_is_sound(digest_of(component@));
    }
}

/// The path of the Artifact that a build makes is one that a Bundle may hold.
proof fn built_path_is_plain()
    ensures
        path_fault("plugin.wasm"@) is None,
{
    reveal_strlit("plugin.wasm");
    reveal_strlit("..");
    reveal_strlit(".");
    let s = "plugin.wasm"@;
    assert forall|i: int| 0 <= i < s.len() implies s[i] != '/' && s[i] != '\\' by {
        assert(s[0] == 'p' && s[1] == 'l' && s[2] == 'u' && s[3] == 'g' && s[4] == 'i' && s[5] == 'n' && s[6] == '.' && s[7] == 'w' && s[8]
            == 'a' && s[9] == 's' && s[10] == 'm');
    }
    assert forall|start: int, end: int| #[trigger] paths::segment_at(s, start, end) implies s.subrange(start, end) != ".."@ && !(start == 0
        && s.subrange(start, end) == "."@) by {
        if start > 0 {
            assert(s[start - 1] != '/');
        }
        if end < s.len() {
            assert(s[end] != '/');
        }
        assert(s.subrange(start, end).len() == 11);
    }
}

/// The hexadecimal digest of bytes is no fault.
proof fn computed_digest_is_sound(digest: Seq<char>)
    requires
        digest_syntax(digest),
    ensures
        digest_fault(digest) is None,
{
    reveal_strlit("sha256:");
    assert("sha256:"@ =~= digest.subrange(0, 7)) by {
        assert(digest.take(7) =~= digest.subrange(0, 7));
    }
}

/// Builds the manifest of a one-entry Plugin Bundle entirely from package and source evidence. A
/// manifest that is built is one that verifies against its Component. `parsed` is the reading of the
/// bytes that [`plugin_descriptor_section`] hands out for the Component, with repeated keys kept.
pub fn build_source_plugin_bundle(package: &CargoPackage, component: &Vec<u8>, parsed: Result<Json, String>) -> (r: Result<
    SourceManifestDocument,
    BundleError,
>)
    ensures
        bundle_built(*package, component@, parsed, r),
        r is Ok ==> r->Ok_0.raw() == compact_json(r->Ok_0.typed().tree()),
        r is Ok ==> verification(r->Ok_0.typed(), r->Ok_0.identity(), wasm_sections(component@), parsed) is Ok,
{
    let section = match plugin_descriptor_section(component.as_slice()) {
        Ok(section) => section,
        Err(error) => return Err(error),
    };
    let ghost sections = wasm_sections(component@);
    let ghost reading = parsed;
    let tree = match accept_descriptor(&section, parsed) {
        Ok(tree) => tree,
        Err(error) => return Err(error),
    };
    proof {
        strict_is_sound(tree.model());
    }
    let digest = digest::sha256_digest(component.as_slice());
    let descriptor = match portable_plugin_descriptor(
        package.plugin_id.as_str(),
        package.version.as_str(),
        package.root_slot.as_str(),
        digest.as_str(),
        &tree,
    ) {
        Ok(descriptor) => descriptor,
        Err(error) => return Err(error),
    };
    let artifact = PluginArtifactV2 {
        path: "plugin.wasm".to_owned(),
        digest,
        size: component.len() as u64,
        media_type: "application/wasm".to_owned(),
        target: "wasm32-unknown-unknown".to_owned(),
    };
    let manifest = PluginManifestV2 {
        schema_version: 2,
        plugin_id: package.plugin_id.clone(),
        release_version: package.version.clone(),
        artifact,
        entry: PluginEntryV2 { descriptor },
    };
    proof {
        built_path_is_plain();
        computed_digest_is_sound(manifest.artifact.digest@);
        strict_is_sound(manifest.entry.descriptor.model());
        let tree = manifest.tree();
        assert(tree->Object_0[3].1 == manifest.artifact.tree());
        assert(tree->Object_0[4].1 == manifest.entry.tree());
        assert(manifest.entry.tree()->Object_0[0].1.authority_numbers());
        assert(manifest.entry.tree().authority_numbers());
        assert forall|i: int| 0 <= i < manifest.artifact.tree()->Object_0.len() implies (#[trigger] manifest.artifact.tree()->Object_0[i]).1.authority_numbers() by {}
        assert(manifest.artifact.tree().authority_numbers());
        assert forall|i: int| 0 <= i < tree->Object_0.len() implies (#[trigger] tree->Object_0[i]).1.authority_numbers() by {}
        assert(tree.authority_numbers());
    }
    SourceManifestDocument::from_value(manifest)
}

/// What stands at a path of a Bundle directory, without following links.
#[derive(Clone, Copy, Debug, PartialEq, Eq, Structural)]
pub enum FoundEntry {
    Link,
    Directory,
    File,
    /// Neither a file nor a directory.
    Other,
}

/// Checks that the directory of a Bundle, or one below it, is a real directory.
pub fn check_directory(found: FoundEntry) -> (r: Result<(), BundleError>)
    ensures
        outcome(r) == if found == FoundEntry::Directory {
            Ok::<(), BundleFault>(())
        } else {
            Err(BundleFault::InvalidBundle("Bundle root contains a non-regular directory"@))
        },
{
    match found {
        FoundEntry::Directory => Ok(()),
        _ => Err(invalid_bundle("Bundle root contains a non-regular directory")),
    }
}

/// Why an entry of a Bundle directory is refused. `relative` is its path below the root, or `None` where
/// that path is not text.
pub open spec fn entry_fault(found: FoundEntry, relative: Option<Seq<char>>) -> Option<BundleFault> {
    match found {
        FoundEntry::Link => Some(BundleFault::InvalidBundle("Bundle contains a symbolic link"@)),
        FoundEntry::Directory => None,
        FoundEntry::Other => Some(BundleFault::InvalidBundle("Bundle contains a non-regular file"@)),
        FoundEntry::File => match relative {
            None => Some(BundleFault::InvalidBundle("Bundle path is not UTF-8"@)),
            Some(path) => match path_fault(path) {
                Some(detail) => Some(BundleFault::InvalidManifest(detail)),
                None => None,
            },
        },
    }
}

/// What becomes of one entry of a Bundle directory: whether it is a file to be read.
pub open spec fn entry_judged(found: FoundEntry, relative: Option<Seq<char>>, r: Result<bool, BundleError>) -> bool {
    match entry_fault(found, relative) {
        Some(fault) => r is Err && r->Err_0@ == fault,
        None => r == Ok::<bool, BundleError>(found == FoundEntry::File),
    }
}

/// Judges one entry of a Bundle directory: whether a file is to be read, or a directory to be entered.
pub fn judge_entry(found: FoundEntry, relative: Option<&str>) -> (r: Result<bool, BundleError>)
    ensures
        entry_judged(found, text::opt_str(relative), r),
{
    match found {
        FoundEntry::Link => Err(invalid_bundle("Bundle contains a symbolic link")),
        FoundEntry::Directory => Ok(false),
        FoundEntry::Other => Err(invalid_bundle("Bundle contains a non-regular file")),
        FoundEntry::File => match relative {
            None => Err(invalid_bundle("Bundle path is not UTF-8")),
            Some(path) => match validate_relative_path(path) {
                Ok(()) => Ok(true),
                Err(error) => Err(error),
            },
        },
    }
}

/// A file was already there where the Bundle is to be written.
pub fn output_taken(shown: &str) -> (r: BundleError)
    ensures
        r@ == BundleFault::InvalidBundle("output `"@ + shown@ + "` already exists"@),
{
    BundleError::InvalidBundle(text::around("output `", shown, "` already exists"))
}

} // verus!
