//! Admission into the content-addressed Plugin Store.
use vstd::prelude::*;
use vstd::string::*;

use crate::bundle;
use crate::bundle::{BundleError, BundleFault, VerifiedBundle};
use crate::canonical;
use crate::canonical::{content, keys_of, text_list_json, text_list_tree, CanonicalDocument, Document};
use crate::digest;
use crate::digest::{digest_fault, digest_of, digest_syntax};
use crate::error::{ControlPlaneError, ErrorView};
use crate::json::{entry_models, object_model, Json, JsonView};
use crate::text;
use crate::text::texts;
use crate::text_map::TextMap;

verus! {

/// Detached Bundle bytes presented to generic admission.
#[derive(Clone, Debug)]
pub struct PluginBundle {
    pub manifest: Vec<u8>,
    pub files: TextMap<Vec<u8>>,
    pub provenance: String,
}

impl PluginBundle {
    /// Creates a Bundle from exact Manifest bytes and normalized relative file entries.
    pub fn new(manifest: Vec<u8>, files: TextMap<Vec<u8>>, provenance: String) -> (r: Self)
        ensures
            r == (PluginBundle { manifest, files, provenance }),
    {
        PluginBundle { manifest, files, provenance }
    }
}

/// One Artifact that a Plugin Release declares.
#[derive(Clone, Debug)]
pub struct ArtifactDeclaration {
    pub id: String,
    pub digest: String,
    pub size: u64,
    pub media_type: String,
    pub path: String,
    pub targets: Vec<String>,
}

/// One product metadata file that a Plugin Release declares.
#[derive(Clone, Debug)]
pub struct ProductMetadata {
    pub path: String,
    pub digest: String,
}

/// What admission reads of the manifest of a Plugin Release.
#[derive(Clone, Debug)]
pub struct ReleaseManifest {
    pub plugin_id: String,
    pub release_version: String,
    pub artifacts: Vec<ArtifactDeclaration>,
    pub product_metadata: Vec<ProductMetadata>,
}

/// Operator-owned admission policy. A publisher signature never self-authorizes.
pub trait AdmissionPolicy {
    /// Returns bounded decision evidence or rejects this exact immutable Release.
    fn decide(
        &self,
        manifest: &ReleaseManifest,
        manifest_digest: &str,
        artifact_digests: &Vec<String>,
        product_metadata_digests: &Vec<String>,
        provenance: &str,
    ) -> Result<String, ControlPlaneError>;

    /// Stable identity recorded in Admission Receipts.
    fn identity(&self) -> &'static str;
}

/// Immutable operator admission decision.
#[derive(Clone, Debug, PartialEq, Eq)]
pub struct AdmissionReceipt {
    pub schema_version: u32,
    pub policy_identity: String,
    pub plugin_id: String,
    pub release_version: String,
    pub manifest_digest: String,
    pub artifact_digests: Vec<String>,
    pub product_metadata_digests: Vec<String>,
    pub provenance: String,
    pub decision_evidence: String,
}

impl Document for AdmissionReceipt {
    open spec fn tree(&self) -> JsonView {
        JsonView::Object(
            seq![
                ("schema_version"@, JsonView::Unsigned(self.schema_version as u64)),
                ("policy_identity"@, JsonView::Text(self.policy_identity@)),
                ("plugin_id"@, JsonView::Text(self.plugin_id@)),
                ("release_version"@, JsonView::Text(self.release_version@)),
                ("manifest_digest"@, JsonView::Text(self.manifest_digest@)),
                ("artifact_digests"@, text_list_tree(texts(self.artifact_digests@))),
                ("product_metadata_digests"@, text_list_tree(texts(self.product_metadata_digests@))),
                ("provenance"@, JsonView::Text(self.provenance@)),
                ("decision_evidence"@, JsonView::Text(self.decision_evidence@)),
            ],
        )
    }

    fn to_json(&self) -> (r: Json) {
        let mut entries: Vec<(String, Json)> = Vec::new();
        entries.push(("schema_version".to_owned(), Json::Unsigned(self.schema_version as u64)));
        entries.push(("policy_identity".to_owned(), Json::Text(self.policy_identity.clone())));
        entries.push(("plugin_id".to_owned(), Json::Text(self.plugin_id.clone())));
        entries.push(("release_version".to_owned(), Json::Text(self.release_version.clone())));
        entries.push(("manifest_digest".to_owned(), Json::Text(self.manifest_digest.clone())));
        entries.push(("artifact_digests".to_owned(), text_list_json(&self.artifact_digests)));
        entries.push(("product_metadata_digests".to_owned(), text_list_json(&self.product_metadata_digests)));
        entries.push(("provenance".to_owned(), Json::Text(self.provenance.clone())));
        entries.push(("decision_evidence".to_owned(), Json::Text(self.decision_evidence.clone())));
        proof {
            object_model(entries);
            assert(entry_models(entries@) =~= self.tree()->Object_0);
        }
        Json::Object(entries)
    }
}

/// Every receipt is strict.
pub proof fn receipt_is_strict(receipt: AdmissionReceipt)
    ensures
        receipt.tree().strict(),
{
    reveal_strlit("schema_version");
    reveal_strlit("policy_identity");
    reveal_strlit("plugin_id");
    reveal_strlit("release_version");
    reveal_strlit("manifest_digest");
    reveal_strlit("artifact_digests");
    reveal_strlit("product_metadata_digests");
    reveal_strlit("provenance");
    reveal_strlit("decision_evidence");
    let entries = receipt.tree()->Object_0;
    let keys = keys_of(entries);
    assert(keys =~= seq![
        "schema_version"@,
        "policy_identity"@,
        "plugin_id"@,
        "release_version"@,
        "manifest_digest"@,
        "artifact_digests"@,
        "product_metadata_digests"@,
        "provenance"@,
        "decision_evidence"@,
    ]);
    assert(keys[0].len() == 14 && keys[1].len() == 15 && keys[2].len() == 9 && keys[3].len() == 15 && keys[4].len() == 15 && keys[5].len() == 16
        && keys[6].len() == 24 && keys[7].len() == 10 && keys[8].len() == 17);
    assert(keys[1][0] == 'p' && keys[3][0] == 'r' && keys[4][0] == 'm');
    assert(keys.no_duplicates());
    canonical::text_list_is_strict(texts(receipt.artifact_digests@));
    canonical::text_list_is_strict(texts(receipt.product_metadata_digests@));
    canonical::object_is_strict(entries);
}

/// One admitted Store Artifact resolved by content identity.
#[derive(Clone, Debug, PartialEq, Eq)]
pub struct AdmittedArtifact {
    pub artifact_id: String,
    pub digest: String,
    pub size: u64,
    pub media_type: String,
    pub path: String,
}

/// Read-only source for exact Plugin Artifact bytes during Generation resolution.
pub trait ArtifactSource {
    /// Resolves and verifies one Artifact declared by the selected Plugin Release.
    fn artifact(&self, declaration: &ArtifactDeclaration) -> Result<AdmittedArtifact, ControlPlaneError>;
}

/// Fail-closed source for Host-built Plugin selections that declare no Artifacts.
#[derive(Clone, Debug, Default)]
pub struct NoArtifactSource;

impl ArtifactSource for NoArtifactSource {
    fn artifact(&self, declaration: &ArtifactDeclaration) -> (r: Result<AdmittedArtifact, ControlPlaneError>)
        ensures
            r is Err,
            r->Err_0@ == (ErrorView::AdmissionRejected {
                detail: "no Artifact source is configured for selected Artifact `"@ + declaration.id@ + "`"@,
            }),
    {
        Err(
            ControlPlaneError::AdmissionRejected {
                detail: text::around("no Artifact source is configured for selected Artifact `", declaration.id.as_str(), "`"),
            },
        )
    }
}

/// The failure of an admission for the stated reason.
pub open spec fn refusal(detail: Seq<char>) -> ErrorView {
    ErrorView::AdmissionRejected { detail }
}

fn refused(detail: &str) -> (r: ControlPlaneError)
    ensures
        r@ == refusal(detail@),
{
    ControlPlaneError::AdmissionRejected { detail: detail.to_owned() }
}

/// The control-plane failure that a Bundle failure is.
pub open spec fn bundle_failure(found: BundleFault) -> ErrorView {
    match found {
        BundleFault::DigestMismatch(subject) => ErrorView::DigestMismatch { subject },
        _ => refusal(bundle::shown(found)),
    }
}

/// Turns a Bundle failure into a control-plane failure.
pub fn bundle_error(error: BundleError) -> (r: ControlPlaneError)
    ensures
        r@ == bundle_failure(error@),
{
    match error {
        BundleError::DigestMismatch(subject) => ControlPlaneError::DigestMismatch { subject },
        _ => ControlPlaneError::AdmissionRejected { detail: error.message() },
    }
}

/// Content-addressed Plugin Store with no mutable "latest" authority.
#[derive(Clone, Debug)]
pub struct PluginStore {
    pub root: String,
    pub max_manifest_bytes: usize,
    pub max_artifact_bytes: u64,
}

/// One immutable file that an admission writes.
#[derive(Clone, Debug)]
pub struct StoreCommit {
    /// The directory below the Store root.
    pub namespace: &'static str,
    /// The content identity, which names the file.
    pub digest: String,
    pub bytes: Vec<u8>,
}

/// What an admission comes to: its receipt, and the files to write in order.
#[derive(Debug)]
pub struct Admission {
    pub receipt: CanonicalDocument<AdmissionReceipt>,
    pub commits: Vec<StoreCommit>,
}

/// The file that a commit writes: its directory, its digest and its bytes.
pub open spec fn commit_facts(commit: StoreCommit) -> (Seq<char>, Seq<char>, Seq<u8>) {
    (commit.namespace@, commit.digest@, commit.bytes@)
}

/// A declared file of a Release is larger than the Store takes.
pub open spec fn too_large(release: ReleaseManifest, files: TextMap<Vec<u8>>, max: u64) -> bool {
    ||| exists|i: int| 0 <= i < release.artifacts@.len() && (#[trigger] release.artifacts@[i]).size > max
    ||| exists|i: int|
        0 <= i < release.product_metadata@.len() && files.has((#[trigger] release.product_metadata@[i]).path@) && files.at(
            release.product_metadata@[i].path@,
        )@.len() > max
}

/// The closure of a Release is complete: every declared file is there.
pub open spec fn complete(release: ReleaseManifest, files: TextMap<Vec<u8>>) -> bool {
    &&& forall|i: int| 0 <= i < release.artifacts@.len() ==> files.has((#[trigger] release.artifacts@[i]).path@)
    &&& forall|i: int| 0 <= i < release.product_metadata@.len() ==> files.has((#[trigger] release.product_metadata@[i]).path@)
}

/// The files that the declared files of a Release are committed as, in order: Artifacts first.
pub open spec fn object_commits(release: ReleaseManifest, files: TextMap<Vec<u8>>) -> Seq<(Seq<char>, Seq<char>, Seq<u8>)> {
    Seq::new(
        release.artifacts@.len(),
        |i: int| ("objects"@, release.artifacts@[i].digest@, files.at(release.artifacts@[i].path@)@),
    ) + Seq::new(
        release.product_metadata@.len(),
        |i: int| ("objects"@, release.product_metadata@[i].digest@, files.at(release.product_metadata@[i].path@)@),
    )
}

/// The receipt is the one of this admission.
pub open spec fn receipt_of(
    receipt: AdmissionReceipt,
    policy_identity: Seq<char>,
    release: ReleaseManifest,
    manifest_digest: Seq<char>,
    verified: VerifiedBundle,
    provenance: Seq<char>,
    evidence: Seq<char>,
) -> bool {
    &&& receipt.schema_version == 1
    &&& receipt.policy_identity@ == policy_identity
    &&& receipt.plugin_id@ == release.plugin_id@
    &&& receipt.release_version@ == release.release_version@
    &&& receipt.manifest_digest@ == manifest_digest
    &&& texts(receipt.artifact_digests@) == texts(verified.artifact_digests@)
    &&& texts(receipt.product_metadata_digests@) == texts(verified.product_metadata_digests@)
    &&& receipt.provenance@ == provenance
    &&& receipt.decision_evidence@ == evidence
}

/// What an admission asks of its policy and makes of the decision.
pub open spec fn decided<P: AdmissionPolicy>(
    policy: P,
    release: ReleaseManifest,
    manifest_digest: Seq<char>,
    manifest_bytes: Seq<u8>,
    verified: VerifiedBundle,
    bundle: PluginBundle,
    r: Result<Admission, ControlPlaneError>,
) -> bool {
    exists|shown_digest: &str, shown_provenance: &str, identity: &'static str, evidence: Result<String, ControlPlaneError>|
        {
            &&& shown_digest@ == manifest_digest
            &&& shown_provenance@ == bundle.provenance@
            &&& #[trigger] call_ensures(
                P::decide,
                (&policy, &release, shown_digest, &verified.artifact_digests, &verified.product_metadata_digests, shown_provenance),
                evidence,
            )
            &&& match evidence {
                Err(error) => r == Err::<Admission, ControlPlaneError>(error),
                Ok(text) => {
                    &&& #[trigger] call_ensures(P::identity, (&policy,), identity)
                    &&& r is Ok
                    &&& receipt_of(
                        r->Ok_0.receipt.typed(),
                        identity@,
                        release,
                        manifest_digest,
                        verified,
                        bundle.provenance@,
                        text@,
                    )
                    &&& r->Ok_0.commits@.map_values(|commit: StoreCommit| commit_facts(commit)) == object_commits(release, bundle.files).push(
                        ("manifests"@, manifest_digest, manifest_bytes),
                    ).push(("receipts"@, r->Ok_0.receipt.identity(), r->Ok_0.receipt.raw()))
                },
            }
        }
}

/// What the admission of a Release comes to.
pub open spec fn release_admitted<P: AdmissionPolicy>(
    store: PluginStore,
    bundle: PluginBundle,
    release: ReleaseManifest,
    manifest_digest: Seq<char>,
    manifest_bytes: Seq<u8>,
    bundle_digest: Result<String, BundleError>,
    verified: Result<VerifiedBundle, BundleError>,
    policy: P,
    r: Result<Admission, ControlPlaneError>,
) -> bool {
    if bundle.manifest@.len() > store.max_manifest_bytes {
        r is Err && r->Err_0@ == refusal("Plugin Manifest exceeds Store byte limit"@)
    } else if too_large(release, bundle.files, store.max_artifact_bytes) {
        r is Err && r->Err_0@ == refusal("Bundle file exceeds Store byte limit"@)
    } else {
        match bundle_digest {
            Err(error) => r is Err && r->Err_0@ == bundle_failure(error@),
            Ok(digest) => if digest@ != manifest_digest {
                r is Err && r->Err_0@ == (ErrorView::DigestMismatch { subject: "Plugin Manifest"@ })
            } else {
                match verified {
                    Err(error) => r is Err && r->Err_0@ == bundle_failure(error@),
                    Ok(closure) => decided(policy, release, manifest_digest, manifest_bytes, closure, bundle, r),
                }
            },
        }
    }
}

/// A Release is admitted only within the Store's limits, under the identity that both readings of its
/// manifest agree on, once its Bundle was verified, and only where the operator's policy says so: what a
/// publisher supplies never admits itself. The receipt records what was admitted and why.
pub proof fn a_release_is_admitted_by_the_operator<P: AdmissionPolicy>(
    store: PluginStore,
    bundle: PluginBundle,
    release: ReleaseManifest,
    manifest_digest: Seq<char>,
    manifest_bytes: Seq<u8>,
    bundle_digest: Result<String, BundleError>,
    verified: Result<VerifiedBundle, BundleError>,
    policy: P,
    r: Result<Admission, ControlPlaneError>,
    i: int,
)
    requires
        release_admitted(store, bundle, release, manifest_digest, manifest_bytes, bundle_digest, verified, policy, r),
    ensures
        r matches Ok(admission) ==> {
            let receipt = admission.receipt.typed();
            &&& bundle.manifest@.len() <= store.max_manifest_bytes
            &&& 0 <= i < release.artifacts@.len() ==> release.artifacts@[i].size <= store.max_artifact_bytes
            &&& 0 <= i < release.product_metadata@.len() && bundle.files.has(release.product_metadata@[i].path@) ==> bundle.files.at(
                release.product_metadata@[i].path@,
            )@.len() <= store.max_artifact_bytes
            &&& bundle_digest matches Ok(digest) && digest@ == manifest_digest
            &&& verified is Ok
            &&& receipt.plugin_id@ == release.plugin_id@
            &&& receipt.release_version@ == release.release_version@
            &&& receipt.manifest_digest@ == manifest_digest
            &&& texts(receipt.artifact_digests@) == texts(verified->Ok_0.artifact_digests@)
            &&& texts(receipt.product_metadata_digests@) == texts(verified->Ok_0.product_metadata_digests@)
            &&& receipt.provenance@ == bundle.provenance@
            &&& exists|shown_digest: &str, shown_provenance: &str, evidence: String|
                {
                    &&& shown_digest@ == manifest_digest && shown_provenance@ == bundle.provenance@
                    &&& #[trigger] call_ensures(
                        P::decide,
                        (
                            &policy,
                            &release,
                            shown_digest,
                            &verified->Ok_0.artifact_digests,
                            &verified->Ok_0.product_metadata_digests,
                            shown_provenance,
                        ),
                        Ok::<String, ControlPlaneError>(evidence),
                    )
                    &&& receipt.decision_evidence@ == evidence@
                }
        },
        bundle.manifest@.len() > store.max_manifest_bytes || bundle_digest is Err || verified is Err ==> r is Err,
{
    if r is Ok {
        assert(!too_large(release, bundle.files, store.max_artifact_bytes));
        if 0 <= i < release.artifacts@.len() {
            assert(release.artifacts@[i].size <= store.max_artifact_bytes);
        }
        if 0 <= i < release.product_metadata@.len() {
            let item = release.product_metadata@[i];
            assert(!(bundle.files.has(item.path@) && bundle.files.at(item.path@)@.len() > store.max_artifact_bytes));
        }
    }
}

/// An admission writes each declared file once, under its declared identity and with the bytes that the
/// Bundle holds for it, then the manifest, and the receipt last: whatever a receipt speaks of is there
/// before the receipt is.
pub proof fn an_admission_writes_its_receipt_last<P: AdmissionPolicy>(
    policy: P,
    release: ReleaseManifest,
    manifest_digest: Seq<char>,
    manifest_bytes: Seq<u8>,
    verified: VerifiedBundle,
    bundle: PluginBundle,
    admission: Admission,
    i: int,
)
    requires
        decided(policy, release, manifest_digest, manifest_bytes, verified, bundle, Ok(admission)),
    ensures
        ({
            let commits = admission.commits@;
            let a = release.artifacts@.len() as int;
            let m = release.product_metadata@.len() as int;
            &&& commits.len() == a + m + 2
            &&& 0 <= i < a ==> commits[i].namespace@ == "objects"@ && commits[i].digest@ == release.artifacts@[i].digest@ && commits[i].bytes@
                == bundle.files.at(release.artifacts@[i].path@)@
            &&& a <= i < a + m ==> commits[i].namespace@ == "objects"@ && commits[i].digest@ == release.product_metadata@[i - a].digest@
                && commits[i].bytes@ == bundle.files.at(release.product_metadata@[i - a].path@)@
            &&& commits[a + m].namespace@ == "manifests"@ && commits[a + m].digest@ == manifest_digest && commits[a + m].bytes@ == manifest_bytes
            &&& commits[a + m + 1].namespace@ == "receipts"@ && commits[a + m + 1].digest@ == admission.receipt.identity()
                && commits[a + m + 1].bytes@ == admission.receipt.raw()
        }),
{
    let facts = admission.commits@.map_values(|commit: StoreCommit| commit_facts(commit));
    let wanted = object_commits(release, bundle.files).push(("manifests"@, manifest_digest, manifest_bytes)).push(
        ("receipts"@, admission.receipt.identity(), admission.receipt.raw()),
    );
    assert(facts == wanted);
    let a = release.artifacts@.len() as int;
    let m = release.product_metadata@.len() as int;
    assert(wanted.len() == a + m + 2);
    assert(facts.len() == admission.commits@.len());
    assert(facts[a + m] == commit_facts(admission.commits@[a + m]));
    assert(facts[a + m + 1] == commit_facts(admission.commits@[a + m + 1]));
    if 0 <= i < a + m {
        assert(facts[i] == commit_facts(admission.commits@[i]));
    }
}

impl PluginStore {
    /// A Store with bounded admission defaults.
    pub fn at(root: String) -> (r: Self)
        ensures
            r == (PluginStore { root, max_manifest_bytes: 1048576, max_artifact_bytes: 268435456 }),
    {
        PluginStore { root, max_manifest_bytes: 1024 * 1024, max_artifact_bytes: 256 * 1024 * 1024 }
    }

    /// Applies stricter Store-wide byte limits.
    pub fn with_limits(self, max_manifest_bytes: usize, max_artifact_bytes: u64) -> (r: Self)
        ensures
            r == (PluginStore { max_manifest_bytes, max_artifact_bytes, ..self }),
    {
        PluginStore { root: self.root, max_manifest_bytes, max_artifact_bytes }
    }

    /// Checks the manifest of a Bundle before it is read.
    pub fn check_manifest(&self, bundle: &PluginBundle) -> (r: Result<(), ControlPlaneError>)
        ensures
            match r {
                Ok(()) => bundle.manifest@.len() <= self.max_manifest_bytes,
                Err(error) => bundle.manifest@.len() > self.max_manifest_bytes && error@ == refusal(
                    "Plugin Manifest exceeds Store byte limit"@,
                ),
            },
    {
        if bundle.manifest.len() > self.max_manifest_bytes {
            return Err(refused("Plugin Manifest exceeds Store byte limit"));
        }
        Ok(())
    }

    /// Checks the sizes of the declared files of a Release.
    pub fn check_sizes(&self, release: &ReleaseManifest, files: &TextMap<Vec<u8>>) -> (r: Result<(), ControlPlaneError>)
        requires
            files.wf(),
        ensures
            match r {
                Ok(()) => !too_large(*release, *files, self.max_artifact_bytes),
                Err(error) => too_large(*release, *files, self.max_artifact_bytes) && error@ == refusal(
                    "Bundle file exceeds Store byte limit"@,
                ),
            },
    {
        let max: u64 = self.max_artifact_bytes;
        let mut i: usize = 0;
        while i < release.artifacts.len()
            invariant
                i <= release.artifacts.len(),
                max == self.max_artifact_bytes,
                forall|k: int| 0 <= k < i ==> (#[trigger] release.artifacts@[k]).size <= max,
            decreases release.artifacts.len() - i,
        {
            if release.artifacts[i].size > max {
                return Err(refused("Bundle file exceeds Store byte limit"));
            }
            i = i + 1;
        }
        let mut j: usize = 0;
        while j < release.product_metadata.len()
            invariant
                j <= release.product_metadata.len(),
                files.wf(),
                max == self.max_artifact_bytes,
                forall|k: int|
                    0 <= k < j ==> !(files.has((#[trigger] release.product_metadata@[k]).path@) && files.at(
                        release.product_metadata@[k].path@,
                    )@.len() > max),
            decreases release.product_metadata.len() - j,
        {
            match files.get(release.product_metadata[j].path.as_str()) {
                Some(bytes) => {
                    if bytes.len() as u64 > max {
                        return Err(refused("Bundle file exceeds Store byte limit"));
                    }
                },
                None => {},
            }
            j = j + 1;
        }
        Ok(())
    }

    /// Verifies one immutable Plugin Release and asks the policy: the receipt, and the files to write.
    /// `manifest_digest` and `manifest_bytes` are the canonical manifest, `bundle_digest` is its identity
    /// as the Bundle format computes it, and `verified` is what verifying the Bundle's files came to.
    pub fn admit_release<P: AdmissionPolicy>(
        &self,
        bundle: &PluginBundle,
        release: &ReleaseManifest,
        manifest_digest: &str,
        manifest_bytes: &Vec<u8>,
        bundle_digest: Result<String, BundleError>,
        verified: Result<VerifiedBundle, BundleError>,
        policy: &P,
    ) -> (r: Result<Admission, ControlPlaneError>)
        requires
            bundle.files.wf(),
            verified is Ok ==> complete(*release, bundle.files),
        ensures
            release_admitted(*self, *bundle, *release, manifest_digest@, manifest_bytes@, bundle_digest, verified, *policy, r),
    {
        match self.check_manifest(bundle) {
            Ok(()) => {},
            Err(error) => return Err(error),
        }
        match self.check_sizes(release, &bundle.files) {
            Ok(()) => {},
            Err(error) => return Err(error),
        }
        let digest = match bundle_digest {
            Ok(digest) => digest,
            Err(error) => return Err(bundle_error(error)),
        };
        if !text::same(digest.as_str(), manifest_digest) {
            return Err(ControlPlaneError::DigestMismatch { subject: "Plugin Manifest".to_owned() });
        }
        let closure = match verified {
            Ok(closure) => closure,
            Err(error) => return Err(bundle_error(error)),
        };
        let provenance = bundle.provenance.as_str();
        let evidence = policy.decide(release, manifest_digest, &closure.artifact_digests, &closure.product_metadata_digests, provenance);
        assert(call_ensures(
            P::decide,
            (policy, release, manifest_digest, &closure.artifact_digests, &closure.product_metadata_digests, provenance),
            evidence,
        ));
        let identity = policy.identity();
        assert(call_ensures(P::identity, (policy,), identity));
        let text = match evidence {
            Ok(text) => text,
            Err(error) => return Err(error),
        };
        let value = AdmissionReceipt {
            schema_version: 1,
            policy_identity: identity.to_owned(),
            plugin_id: release.plugin_id.clone(),
            release_version: release.release_version.clone(),
            manifest_digest: manifest_digest.to_owned(),
            artifact_digests: text::copy_all(&closure.artifact_digests),
            product_metadata_digests: text::copy_all(&closure.product_metadata_digests),
            provenance: bundle.provenance.clone(),
            decision_evidence: text.clone(),
        };
        proof {
            receipt_is_strict(value);
        }
        let receipt = match CanonicalDocument::from_value("Admission Receipt", value) {
            Ok(receipt) => receipt,
            Err(error) => return Err(error),
        };
        let mut commits = object_files(release, &bundle.files);
        let ghost objects = commits@;
        commits.push(
            StoreCommit { namespace: "manifests", digest: manifest_digest.to_owned(), bytes: manifest_bytes.clone() },
        );
        let raw = copy_bytes(receipt.bytes());
        commits.push(StoreCommit { namespace: "receipts", digest: receipt.digest().to_owned(), bytes: raw });
        proof {
            let facts = commits@.map_values(|commit: StoreCommit| commit_facts(commit));
            let before = objects.map_values(|commit: StoreCommit| commit_facts(commit));
            assert(before == object_commits(*release, bundle.files));
            assert(facts =~= before.push(("manifests"@, manifest_digest@, manifest_bytes@)).push(
                ("receipts"@, receipt.identity(), receipt.raw()),
            ));
        }
        Ok(Admission { receipt, commits })
    }
}

/// Copies bytes.
fn copy_bytes(bytes: &[u8]) -> (r: Vec<u8>)
    ensures
        r@ == bytes@,
{
    let mut r: Vec<u8> = Vec::new();
    let mut i: usize = 0;
    while i < bytes.len()
        invariant
            i <= bytes.len(),
            r@ == bytes@.take(i as int),
        decreases bytes.len() - i,
    {
        r.push(bytes[i]);
        assert(bytes@.take(i + 1) =~= bytes@.take(i as int).push(bytes@[i as int]));
        i = i + 1;
    }
    assert(bytes@.take(i as int) =~= bytes@);
    r
}

/// The files that the declared files of a Release are committed as.
fn object_files(release: &ReleaseManifest, files: &TextMap<Vec<u8>>) -> (r: Vec<StoreCommit>)
    requires
        files.wf(),
        complete(*release, *files),
    ensures
        r@.map_values(|commit: StoreCommit| commit_facts(commit)) == object_commits(*release, *files),
{
    let ghost wanted = object_commits(*release, *files);
    let mut r: Vec<StoreCommit> = Vec::new();
    let mut i: usize = 0;
    while i < release.artifacts.len()
        invariant
            i <= release.artifacts.len(),
            files.wf(),
            complete(*release, *files),
            wanted == object_commits(*release, *files),
            r@.len() == i,
            forall|k: int| 0 <= k < i ==> commit_facts(#[trigger] r@[k]) == wanted[k],
        decreases release.artifacts.len() - i,
    {
        let item = &release.artifacts[i];
        assert(files.has(release.artifacts@[i as int].path@));
        let bytes = files.get(item.path.as_str()).unwrap();
        r.push(StoreCommit { namespace: "objects", digest: item.digest.clone(), bytes: copy_bytes(bytes.as_slice()) });
        i = i + 1;
    }
    let mut j: usize = 0;
    while j < release.product_metadata.len()
        invariant
            j <= release.product_metadata.len(),
            files.wf(),
            complete(*release, *files),
            wanted == object_commits(*release, *files),
            r@.len() == release.artifacts@.len() + j,
            forall|k: int| 0 <= k < r@.len() ==> commit_facts(#[trigger] r@[k]) == wanted[k],
        decreases release.product_metadata.len() - j,
    {
        let item = &release.product_metadata[j];
        assert(files.has(release.product_metadata@[j as int].path@));
        let bytes = files.get(item.path.as_str()).unwrap();
        r.push(StoreCommit { namespace: "objects", digest: item.digest.clone(), bytes: copy_bytes(bytes.as_slice()) });
        j = j + 1;
    }
    assert(r@.map_values(|commit: StoreCommit| commit_facts(commit)) =~= wanted);
    r
}

/// The file name of a content identity in the Store.
pub fn digest_component(digest: &str) -> (r: Result<&str, ControlPlaneError>)
    ensures
        match r {
            Ok(name) => digest_fault(digest@) is None && digest_syntax(digest@) && name@ == digest@.skip(7),
            Err(error) => digest_fault(digest@) is Some && error@ == refusal(digest_fault(digest@)->Some_0),
        },
{
    match digest::hex_component(digest) {
        Ok(name) => Ok(name),
        Err(detail) => Err(refused(detail)),
    }
}

/// Why stored bytes are not the Artifact that is declared.
pub open spec fn stored_fault(declaration: ArtifactDeclaration, regular: bool, bytes: Seq<u8>) -> Option<ErrorView> {
    if !regular {
        Some(refusal("stored Artifact is not a regular immutable file"@))
    } else if bytes.len() != declaration.size || digest_of(bytes) != declaration.digest@ {
        Some(ErrorView::DigestMismatch { subject: "stored Artifact `"@ + declaration.id@ + "`"@ })
    } else {
        None
    }
}

/// Checks the bytes that the Store holds for an Artifact. `regular` is whether they are those of a
/// regular file, and `path` is where they are.
pub fn stored_artifact(declaration: &ArtifactDeclaration, regular: bool, bytes: &Vec<u8>, path: String) -> (r: Result<
    AdmittedArtifact,
    ControlPlaneError,
>)
    ensures
        match stored_fault(*declaration, regular, bytes@) {
            Some(found) => r is Err && r->Err_0@ == found,
            None => r is Ok && r->Ok_0.artifact_id@ == declaration.id@ && r->Ok_0.digest@ == declaration.digest@ && r->Ok_0.size
                == declaration.size && r->Ok_0.media_type@ == declaration.media_type@ && r->Ok_0.path == path,
        },
{
    if !regular {
        return Err(refused("stored Artifact is not a regular immutable file"));
    }
    if bytes.len() as u64 != declaration.size || !text::same(
        digest::sha256_digest(bytes.as_slice()).as_str(),
        declaration.digest.as_str(),
    ) {
        return Err(ControlPlaneError::DigestMismatch { subject: text::around("stored Artifact `", declaration.id.as_str(), "`") });
    }
    Ok(
        AdmittedArtifact {
            artifact_id: declaration.id.clone(),
            digest: declaration.digest.clone(),
            size: declaration.size,
            media_type: declaration.media_type.clone(),
            path,
        },
    )
}

/// Checks a stored admission receipt against the identity under which it was asked for. `regular` is
/// whether it is a regular file, and `typed` its reading as strict JSON.
pub fn admission_receipt(digest: &str, regular: bool, typed: Result<AdmissionReceipt, String>) -> (r: Result<
    CanonicalDocument<AdmissionReceipt>,
    ControlPlaneError,
>)
    ensures
        receipt_found(digest@, regular, typed, r),
{
    match digest_component(digest) {
        Ok(_) => {},
        Err(error) => return Err(error),
    }
    if !regular {
        return Err(refused("Admission Receipt is not a regular immutable file"));
    }
    proof {
        if typed is Ok {
            receipt_is_strict(typed->Ok_0);
        }
    }
    let receipt = match CanonicalDocument::parse("Admission Receipt", typed) {
        Ok(receipt) => receipt,
        Err(error) => return Err(error),
    };
    if !text::same(receipt.digest(), digest) {
        return Err(ControlPlaneError::DigestMismatch { subject: "Admission Receipt".to_owned() });
    }
    Ok(receipt)
}

/// What stands where an immutable file is to be written.
#[derive(Clone, Debug)]
pub enum Existing {
    /// Something that is no regular file.
    Irregular,
    /// A file, found before anything was written.
    File(Vec<u8>),
    /// A file that was written meanwhile.
    Raced(Vec<u8>),
}

/// Judges what stands where an immutable file is to be written: the same bytes are as good as written.
pub fn judge_existing(existing: &Existing, bytes: &Vec<u8>, shown: &str) -> (r: Result<(), ControlPlaneError>)
    ensures
        existing_judged(*existing, bytes@, shown@, r),
{
    match existing {
        Existing::Irregular => Err(
            ControlPlaneError::StoreFailure { detail: text::around("Store object `", shown, "` is not a regular file") },
        ),
        Existing::File(found) => if bundle::same_bytes(found, bytes) {
            Ok(())
        } else {
            Err(ControlPlaneError::StoreFailure { detail: text::around("immutable Store object `", shown, "` changed") })
        },
        Existing::Raced(found) => if bundle::same_bytes(found, bytes) {
            Ok(())
        } else {
            Err(
                ControlPlaneError::StoreFailure {
                    detail: text::around("immutable Store object `", shown, "` raced with different bytes"),
                },
            )
        },
    }
}

/// What was committed under a content identity is what the Store hands out for it: bytes that hash to
/// the declared digest and have the declared size are accepted, and no others.
pub proof fn only_committed_content_is_handed_out(declaration: ArtifactDeclaration, bytes: Seq<u8>)
    ensures
        stored_fault(declaration, true, bytes) is None <==> declaration.size == bytes.len() && declaration.digest@ == digest_of(bytes),
{
}

/// What stands where an immutable file is to be written, against the bytes to be written.
pub open spec fn existing_judged(existing: Existing, bytes: Seq<u8>, shown: Seq<char>, r: Result<(), ControlPlaneError>) -> bool {
    match existing {
        Existing::Irregular => r is Err && r->Err_0@ == (ErrorView::StoreFailure { detail: "Store object `"@ + shown + "` is not a regular file"@ }),
        Existing::File(found) => if found@ == bytes {
            r is Ok
        } else {
            r is Err && r->Err_0@ == (ErrorView::StoreFailure { detail: "immutable Store object `"@ + shown + "` changed"@ })
        },
        Existing::Raced(found) => if found@ == bytes {
            r is Ok
        } else {
            r is Err && r->Err_0@ == (ErrorView::StoreFailure {
                detail: "immutable Store object `"@ + shown + "` raced with different bytes"@,
            })
        },
    }
}

/// What a stored receipt comes to under the identity that it is asked for.
pub open spec fn receipt_found(
    digest: Seq<char>,
    regular: bool,
    typed: Result<AdmissionReceipt, String>,
    r: Result<CanonicalDocument<AdmissionReceipt>, ControlPlaneError>,
) -> bool {
    if digest_fault(digest) is Some {
        r is Err && r->Err_0@ == refusal(digest_fault(digest)->Some_0)
    } else if !regular {
        r is Err && r->Err_0@ == refusal("Admission Receipt is not a regular immutable file"@)
    } else {
        match typed {
            Err(detail) => r is Err && r->Err_0@ == (ErrorView::InvalidDocument { kind: "Admission Receipt"@, detail: detail@ }),
            Ok(value) => if digest_of(content(value.tree())) != digest {
                r is Err && r->Err_0@ == (ErrorView::DigestMismatch { subject: "Admission Receipt"@ })
            } else {
                r is Ok && r->Ok_0.typed() == value && r->Ok_0.identity() == digest
            },
        }
    }
}

/// Nothing in the Store is ever written over: what is there already is accepted only where it is the
/// same, byte for byte, and a regular file. A receipt is handed out only under its own identity.
pub proof fn the_store_is_immutable(
    existing: Existing,
    bytes: Seq<u8>,
    shown: Seq<char>,
    judged: Result<(), ControlPlaneError>,
    digest: Seq<char>,
    regular: bool,
    typed: Result<AdmissionReceipt, String>,
    r: Result<CanonicalDocument<AdmissionReceipt>, ControlPlaneError>,
)
    requires
        existing_judged(existing, bytes, shown, judged),
        receipt_found(digest, regular, typed, r),
    ensures
        judged is Ok <==> match existing {
            Existing::Irregular => false,
            Existing::File(found) => found@ == bytes,
            Existing::Raced(found) => found@ == bytes,
        },
        r matches Ok(receipt) ==> regular && receipt.identity() == digest && typed == Ok::<AdmissionReceipt, String>(receipt.typed()) && digest_of(
            content(receipt.typed().tree()),
        ) == digest,
        regular && typed is Ok && digest_fault(digest) is None && digest_of(content(typed->Ok_0.tree())) == digest ==> r is Ok,
{
}

} // verus!
