//! Fail-closed assembly of one prepared Host distribution and an external Plugin Root.
use vstd::prelude::*;
use vstd::string::*;
use vstd::utf8::encode_utf8;

use crate::canonical;
use crate::canonical::{keys_of, trees, CanonicalDocument, Document};
use crate::catalog;
use crate::digest;
use crate::digest::{digest_of, digest_syntax};
use crate::generation::{ArtifactHandle, ResolvedGeneration};
use crate::model::{AdapterProfile, EmbeddedPlugin, HostBuildManifest, HostExecutionPolicy};
use crate::paths;
use crate::paths::{last_name, leads_down, portable};
use crate::plan::{plan_verdict, AppPlan, PlanInstance};
use crate::resolver;
use crate::resolver::{generation_of, input_fault, PlanArtifact, PlanGenerationInput};
use crate::text;
use crate::text::{blank, decimal, texts, trimmed};
use crate::text_map::TextMap;

verus! {

/// Largest lock that is read.
pub const LOCK_LIMIT: u64 = 8388608;

/// Largest Bundle inventory that is read.
pub const INVENTORY_LIMIT: u64 = 8388608;

/// Most output that is kept of the resolver.
pub const RESOLVER_OUTPUT_LIMIT: usize = 8388608;

/// Most error output that is kept of the resolver.
pub const RESOLVER_ERROR_LIMIT: usize = 65536;

/// Fail-closed distribution error without embedding untrusted file contents.
#[derive(Debug, PartialEq, Eq)]
pub struct DistributionError(pub String);

impl View for DistributionError {
    type V = Seq<char>;

    open spec fn view(&self) -> Seq<char> {
        self.0@
    }
}

impl DistributionError {
    /// The text of the failure.
    pub fn message(&self) -> (r: String)
        ensures
            r@ == self@,
    {
        self.0.clone()
    }
}

/// What a call that may fail came to, by the text of its failure.
pub open spec fn outcome<T>(r: Result<T, DistributionError>) -> Result<T, Seq<char>> {
    match r {
        Ok(value) => Ok(value),
        Err(error) => Err(error@),
    }
}

fn invalid(detail: &str) -> (r: DistributionError)
    ensures
        r@ == detail@,
{
    DistributionError(detail.to_owned())
}

fn invalid_about(prefix: &str, subject: &str, suffix: &str) -> (r: DistributionError)
    ensures
        r@ == prefix@ + subject@ + suffix@,
{
    DistributionError(text::around(prefix, subject, suffix))
}

/// An operation on the file system or a process failed, with its text.
pub fn io_error(context: &str, error: &str) -> (r: DistributionError)
    ensures
        r@ == context@ + ": "@ + error@,
{
    let mut detail = text::behind(context, ": ");
    detail.append(error);
    DistributionError(detail)
}

/// One file of a distribution.
#[derive(Debug, PartialEq, Eq)]
pub struct DistributionFile {
    pub path: String,
    pub role: String,
    pub sha256: String,
    pub size: u64,
    pub executable: bool,
}

impl DistributionFile {
    /// What the lock says of the file.
    pub open spec fn facts(self) -> (Seq<char>, Seq<char>, Seq<char>, u64, bool) {
        (self.path@, self.role@, self.sha256@, self.size, self.executable)
    }
}

impl Clone for DistributionFile {
    fn clone(&self) -> (r: Self)
        ensures
            r.facts() == self.facts(),
    {
        DistributionFile {
            path: self.path.clone(),
            role: self.role.clone(),
            sha256: self.sha256.clone(),
            size: self.size,
            executable: self.executable,
        }
    }
}

/// The lock of a distribution.
#[derive(Debug, PartialEq, Eq)]
pub struct DistributionLock {
    pub schema: String,
    pub app_id: String,
    pub target: String,
    pub platform: String,
    pub arch: String,
    pub files: Vec<DistributionFile>,
}

/// One Plugin Bundle that a distribution carries, and the Artifact selected from it.
#[derive(Debug, PartialEq, Eq)]
pub struct BundleInventory {
    pub path: String,
    pub plugin_id: String,
    pub release_version: String,
    pub manifest_digest: String,
    pub execution_class: String,
    pub target: String,
    pub implementation_id: String,
    pub artifact_path: String,
    pub artifact_digest: String,
    pub artifact_size: u64,
    pub artifact_media_type: String,
    pub artifact_target: String,
}

/// The lock names a distribution of this form.
pub open spec fn lock_identity(lock: DistributionLock) -> bool {
    lock.schema@ == "lenso.host-distribution.v1"@ && !blank(lock.app_id@) && !blank(lock.target@)
}

/// Validates the identity of a lock.
pub fn validate_lock_identity(lock: &DistributionLock) -> (r: Result<(), DistributionError>)
    ensures
        outcome(r) == if lock_identity(*lock) {
            Ok::<(), Seq<char>>(())
        } else {
            Err("invalid distribution identity"@)
        },
{
    if !text::same(lock.schema.as_str(), "lenso.host-distribution.v1") || text::is_blank(lock.app_id.as_str()) || text::is_blank(
        lock.target.as_str(),
    ) {
        return Err(invalid("invalid distribution identity"));
    }
    Ok(())
}

/// The name that a distribution uses for an operating system.
pub open spec fn platform_name(os: Seq<char>) -> Seq<char> {
    if os == "macos"@ {
        "darwin"@
    } else {
        os
    }
}

/// The name that a distribution uses for a processor architecture.
pub open spec fn arch_name(arch: Seq<char>) -> Seq<char> {
    if arch == "aarch64"@ {
        "arm64"@
    } else if arch == "x86_64"@ {
        "x64"@
    } else {
        arch
    }
}

/// The text for a distribution of another platform.
pub open spec fn other_platform(lock: DistributionLock, os: Seq<char>, arch: Seq<char>) -> Seq<char> {
    "distribution targets "@ + lock.platform@ + "/"@ + lock.arch@ + ", current Host is "@ + platform_name(os) + "/"@ + arch_name(arch)
}

/// Checks that a distribution is for the running Host.
pub fn validate_current_platform(lock: &DistributionLock, os: &str, arch: &str) -> (r: Result<(), DistributionError>)
    ensures
        outcome(r) == if lock.platform@ == platform_name(os@) && lock.arch@ == arch_name(arch@) {
            Ok::<(), Seq<char>>(())
        } else {
            Err(other_platform(*lock, os@, arch@))
        },
{
    let platform: &str = if text::same(os, "macos") {
        "darwin"
    } else {
        os
    };
    let arch: &str = if text::same(arch, "aarch64") {
        "arm64"
    } else if text::same(arch, "x86_64") {
        "x64"
    } else {
        arch
    };
    if !text::same(lock.platform.as_str(), platform) || !text::same(lock.arch.as_str(), arch) {
        let mut detail = text::around("distribution targets ", lock.platform.as_str(), "/");
        detail.append(lock.arch.as_str());
        detail.append(", current Host is ");
        detail.append(platform);
        detail.append("/");
        detail.append(arch);
        return Err(DistributionError(detail));
    }
    Ok(())
}

/// Validates a digest.
pub fn validate_digest(value: &str) -> (r: Result<(), DistributionError>)
    ensures
        outcome(r) == if digest_syntax(value@) {
            Ok::<(), Seq<char>>(())
        } else {
            Err("invalid SHA-256 digest"@)
        },
{
    if !digest::is_digest(value) {
        return Err(invalid("invalid SHA-256 digest"));
    }
    Ok(())
}

/// A path that stays inside the distribution.
pub open spec fn inside(path: Seq<char>) -> bool {
    portable(path) && leads_down(path)
}

/// The text for a path that does not stay inside the distribution.
pub open spec fn outside_text(path: Seq<char>) -> Seq<char> {
    "invalid distribution-relative path `"@ + path + "`"@
}

/// Validates a path inside the distribution.
pub fn validate_relative(value: &str) -> (r: Result<(), DistributionError>)
    ensures
        outcome(r) == if inside(value@) {
            Ok::<(), Seq<char>>(())
        } else {
            Err(outside_text(value@))
        },
{
    if !paths::is_portable(value) || !paths::is_leading_down(value) {
        return Err(invalid_about("invalid distribution-relative path `", value, "`"));
    }
    Ok(())
}

/// What was found at the path of a locked file.
#[derive(Clone, Copy, Debug, PartialEq, Eq, Structural)]
pub struct FoundFile {
    pub regular: bool,
    pub size: u64,
    /// Some user may execute the file.
    pub executable: bool,
}

/// Why a found file is not the locked one.
pub open spec fn file_fault(expected: DistributionFile, found: FoundFile, bytes: Seq<u8>) -> Option<Seq<char>> {
    if !found.regular || found.size != expected.size {
        Some("distribution file `"@ + expected.path@ + "` differs from lock"@)
    } else if expected.executable && !found.executable {
        Some("distribution file `"@ + expected.path@ + "` is not executable"@)
    } else if digest_of(bytes) != expected.sha256@ {
        Some("distribution file `"@ + expected.path@ + "` failed integrity"@)
    } else {
        None
    }
}

/// Verifies a found file and its bytes against the lock.
pub fn verify_file(expected: &DistributionFile, found: FoundFile, bytes: &Vec<u8>) -> (r: Result<(), DistributionError>)
    ensures
        outcome(r) == match file_fault(*expected, found, bytes@) {
            Some(detail) => Err::<(), Seq<char>>(detail),
            None => Ok(()),
        },
{
    if !found.regular || found.size != expected.size {
        return Err(invalid_about("distribution file `", expected.path.as_str(), "` differs from lock"));
    }
    if expected.executable && !found.executable {
        return Err(invalid_about("distribution file `", expected.path.as_str(), "` is not executable"));
    }
    if !text::same(digest::sha256_digest(bytes.as_slice()).as_str(), expected.sha256.as_str()) {
        return Err(invalid_about("distribution file `", expected.path.as_str(), "` failed integrity"));
    }
    Ok(())
}

/// Why a file of a lock is not accepted before it is looked at. `earlier` are the paths before it.
pub open spec fn entry_fault(file: DistributionFile, earlier: Seq<Seq<char>>) -> Option<Seq<char>> {
    if !inside(file.path@) {
        Some(outside_text(file.path@))
    } else if !digest_syntax(file.sha256@) {
        Some("invalid SHA-256 digest"@)
    } else if blank(file.role@) {
        Some("distribution file `"@ + file.path@ + "` has no role"@)
    } else if earlier.contains(file.path@) {
        Some("duplicate distribution path `"@ + file.path@ + "`"@)
    } else {
        None
    }
}

/// The paths of the first `n` files of a lock.
pub open spec fn locked_paths(files: Seq<DistributionFile>, n: int) -> Seq<Seq<char>> {
    files.take(n).map_values(|file: DistributionFile| file.path@)
}

/// A map holds exactly the first `n` files of a lock, by path.
pub open spec fn holds_files(map: TextMap<DistributionFile>, files: Seq<DistributionFile>, n: int) -> bool {
    &&& map.wf()
    &&& forall|i: int|
        0 <= i < n ==> map.has((#[trigger] files[i]).path@) && map.at(files[i].path@).facts() == files[i].facts()
    &&& forall|path: Seq<char>| #[trigger] map.has(path) ==> exists|i: int| 0 <= i < n && (#[trigger] files[i]).path@ == path
}

/// Every one of the first `n` files of a lock is accepted, and was found with the contents that the lock
/// names.
pub open spec fn files_verified(files: Seq<DistributionFile>, contents: Seq<Seq<u8>>, n: int) -> bool {
    &&& contents.len() == n
    &&& forall|i: int|
        0 <= i < n ==> entry_fault(#[trigger] files[i], locked_paths(files, i)) is None && digest_of(contents[i]) == files[i].sha256@
}

/// A distribution while its files are verified, one after the other.
pub struct OpeningDistribution {
    root: String,
    identity: String,
    lock: DistributionLock,
    files: TextMap<DistributionFile>,
    next: usize,
    accepted: bool,
    contents: Ghost<Seq<Seq<u8>>>,
}

/// What is to be done next to open a distribution.
#[derive(Debug)]
pub enum OpeningStep {
    /// Look at this file of the lock, by its position.
    Inspect(usize),
    /// Every file was verified.
    Finished,
}

/// Why a lock is not accepted before its files are looked at.
pub open spec fn lock_fault(lock: Result<DistributionLock, String>, os: Seq<char>, arch: Seq<char>) -> Option<Seq<char>> {
    match lock {
        Err(error) => Some("invalid distribution lock: "@ + error@),
        Ok(lock) => if !lock_identity(lock) {
            Some("invalid distribution identity"@)
        } else if lock.platform@ != platform_name(os) || lock.arch@ != arch_name(arch) {
            Some(other_platform(lock, os, arch))
        } else if lock.files@.len() > 2048 {
            Some("distribution declares more than 2048 files"@)
        } else {
            None
        },
    }
}

/// What one step of the opening comes to: the next file to look at, or the end.
pub open spec fn opening_stepped(before: OpeningDistribution, r: Result<(OpeningDistribution, OpeningStep), DistributionError>) -> bool {
    if before.done() == before.locked().files@.len() {
        r is Ok && r->Ok_0.0 == before && r->Ok_0.1 is Finished
    } else {
        match entry_fault(before.locked().files@[before.done()], locked_paths(before.locked().files@, before.done())) {
            Some(detail) => r is Err && r->Err_0@ == detail,
            None => r is Ok && r->Ok_0.1 == OpeningStep::Inspect(before.done() as usize) && r->Ok_0.0.waits() && r->Ok_0.0.done()
                == before.done() && r->Ok_0.0.locked() == before.locked() && r->Ok_0.0.directory() == before.directory() && r->Ok_0.0.digest()
                == before.digest(),
        }
    }
}

/// What becomes of the opening once the next file was looked at.
pub open spec fn file_inspected(before: OpeningDistribution, found: FoundFile, bytes: Seq<u8>, r: Result<OpeningDistribution, DistributionError>) -> bool {
    match file_fault(before.locked().files@[before.done()], found, bytes) {
        Some(detail) => r is Err && r->Err_0@ == detail,
        None => r is Ok && !r->Ok_0.waits() && r->Ok_0.done() == before.done() + 1 && r->Ok_0.locked() == before.locked()
            && r->Ok_0.directory() == before.directory() && r->Ok_0.digest() == before.digest(),
    }
}

/// An opening looks at each file of the lock in turn and passes over none: it names the next one, and
/// goes on behind it only where that file is just as it is locked.
pub proof fn an_opening_looks_at_every_file(
    before: OpeningDistribution,
    step: Result<(OpeningDistribution, OpeningStep), DistributionError>,
    found: FoundFile,
    bytes: Seq<u8>,
    next: Result<OpeningDistribution, DistributionError>,
)
    requires
        0 <= before.done() <= before.locked().files@.len() <= usize::MAX,
        opening_stepped(before, step),
        step matches Ok((waiting, OpeningStep::Inspect(_))) ==> file_inspected(waiting, found, bytes, next),
    ensures
        step matches Ok((_, OpeningStep::Finished)) ==> before.done() == before.locked().files@.len(),
        step matches Ok((_, OpeningStep::Inspect(i))) ==> i == before.done() && i < before.locked().files@.len(),
        step matches Ok((waiting, OpeningStep::Inspect(_))) ==> (next is Ok <==> {
            let file = before.locked().files@[before.done()];
            &&& found.regular
            &&& found.size == file.size
            &&& file.executable ==> found.executable
            &&& digest_of(bytes) == file.sha256@
        }),
        step matches Ok((waiting, OpeningStep::Inspect(_))) && next is Ok ==> next->Ok_0.done() == before.done() + 1 && next->Ok_0.locked()
            == before.locked() && !next->Ok_0.waits(),
{
}

impl OpeningDistribution {
    /// The directory of the distribution.
    pub closed spec fn directory(self) -> Seq<char> {
        self.root@
    }

    /// The digest of the lock bytes.
    pub closed spec fn digest(self) -> Seq<char> {
        self.identity@
    }

    /// The lock.
    pub closed spec fn locked(self) -> DistributionLock {
        self.lock
    }

    /// How many files were verified.
    pub closed spec fn done(self) -> int {
        self.next as int
    }

    /// The next file was accepted and is to be looked at.
    pub closed spec fn waits(self) -> bool {
        self.accepted
    }

    #[verifier::type_invariant]
    spec fn inv(self) -> bool {
        &&& self.next <= self.lock.files@.len()
        &&& self.accepted ==> self.next < self.lock.files@.len() && entry_fault(
            self.lock.files@[self.next as int],
            locked_paths(self.lock.files@, self.next as int),
        ) is None
        &&& holds_files(
            self.files,
            self.lock.files@,
            self.next + if self.accepted {
                1int
            } else {
                0int
            },
        )
        &&& files_verified(self.lock.files@, self.contents@, self.next as int)
    }

    /// Begins with the bytes of the lock and their reading as strict JSON. `os` and `arch` name the
    /// platform of the running Host.
    pub fn begin(root: String, lock_bytes: &[u8], lock: Result<DistributionLock, String>, os: &str, arch: &str) -> (r: Result<
        Self,
        DistributionError,
    >)
        ensures
            match lock_fault(lock, os@, arch@) {
                Some(detail) => r is Err && r->Err_0@ == detail,
                None => r is Ok && r->Ok_0.directory() == root@ && r->Ok_0.digest() == digest_of(lock_bytes@) && lock == Ok::<
                    DistributionLock,
                    String,
                >(r->Ok_0.locked()) && r->Ok_0.done() == 0 && !r->Ok_0.waits(),
            },
    {
        let lock = match lock {
            Ok(lock) => lock,
            Err(error) => return Err(DistributionError(text::behind("invalid distribution lock: ", error.as_str()))),
        };
        match validate_lock_identity(&lock) {
            Ok(()) => {},
            Err(error) => return Err(error),
        }
        match validate_current_platform(&lock, os, arch) {
            Ok(()) => {},
            Err(error) => return Err(error),
        }
        if lock.files.len() > 2048 {
            return Err(invalid("distribution declares more than 2048 files"));
        }
        Ok(
            OpeningDistribution {
                root,
                identity: digest::sha256_digest(lock_bytes),
                lock,
                files: TextMap::new(),
                next: 0,
                accepted: false,
                contents: Ghost(Seq::empty()),
            },
        )
    }

    /// The file of the lock at a position.
    pub fn file(&self, i: usize) -> (r: &DistributionFile)
        requires
            i < self.locked().files@.len(),
        ensures
            *r == self.locked().files@[i as int],
    {
        &self.lock.files[i]
    }

    /// Accepts the next file of the lock, or tells that none is left.
    pub fn step(self) -> (r: Result<(Self, OpeningStep), DistributionError>)
        requires
            !self.waits(),
        ensures
            opening_stepped(self, r),
    {
        proof {
            use_type_invariant(&self);
        }
        if self.next == self.lock.files.len() {
            return Ok((self, OpeningStep::Finished));
        }
        let i: usize = self.next;
        let file = &self.lock.files[i];
        match validate_relative(file.path.as_str()) {
            Ok(()) => {},
            Err(error) => return Err(error),
        }
        match validate_digest(file.sha256.as_str()) {
            Ok(()) => {},
            Err(error) => return Err(error),
        }
        if text::is_blank(file.role.as_str()) {
            return Err(invalid_about("distribution file `", file.path.as_str(), "` has no role"));
        }
        proof {
            let earlier = locked_paths(self.lock.files@, i as int);
            if self.files.has(file.path@) {
                let k = choose|k: int| 0 <= k < i && (#[trigger] self.lock.files@[k]).path@ == file.path@;
                assert(earlier[k] == file.path@);
            }
            if earlier.contains(file.path@) {
                let k = choose|k: int| 0 <= k < earlier.len() && earlier[k] == file.path@;
                assert(self.lock.files@[k].path@ == file.path@);
            }
        }
        if self.files.contains_key(file.path.as_str()) {
            return Err(invalid_about("duplicate distribution path `", file.path.as_str(), "`"));
        }
        let key = file.path.clone();
        let copy = file.clone();
        let ghost path = file.path@;
        let ghost facts = copy;
        let ghost before = self.files;
        let mut files = self.files;
        let _ = files.insert(key, copy);
        proof {
            files.after_insert(before, path, facts);
            let all = self.lock.files@;
            assert forall|k: int| 0 <= k < i + 1 implies files.has((#[trigger] all[k]).path@) && files.at(all[k].path@).facts()
                == all[k].facts() by {
                if k < i {
                    assert(before.has(all[k].path@));
                    assert(locked_paths(all, i as int)[k] == all[k].path@);
                }
            }
            assert forall|p: Seq<char>| #[trigger] files.has(p) implies exists|k: int| 0 <= k < i + 1 && (#[trigger] all[k]).path@ == p by {
                if p == path {
                    assert(all[i as int].path@ == p);
                } else {
                    let k = choose|k: int| 0 <= k < i && (#[trigger] all[k]).path@ == p;
                    assert(all[k].path@ == p);
                }
            }
        }
        Ok(
            (
                OpeningDistribution {
                    root: self.root,
                    identity: self.identity,
                    lock: self.lock,
                    files,
                    next: i,
                    accepted: true,
                    contents: self.contents,
                },
                OpeningStep::Inspect(i),
            ),
        )
    }

    /// Verifies the accepted file by what was found at its path.
    pub fn inspected(self, found: FoundFile, bytes: &Vec<u8>) -> (r: Result<Self, DistributionError>)
        requires
            self.waits(),
        ensures
            file_inspected(self, found, bytes@, r),
    {
        proof {
            use_type_invariant(&self);
        }
        let i: usize = self.next;
        assert(i < self.lock.files.len());
        match verify_file(&self.lock.files[i], found, bytes) {
            Ok(()) => {},
            Err(error) => return Err(error),
        }
        let ghost contents = self.contents@.push(bytes@);
        Ok(
            OpeningDistribution {
                root: self.root,
                identity: self.identity,
                lock: self.lock,
                files: self.files,
                next: i + 1,
                accepted: false,
                contents: Ghost(contents),
            },
        )
    }

    /// Finishes once every file was verified: the roles that a Host needs must be there.
    pub fn finish(self) -> (r: Result<VerifiedDistribution, DistributionError>)
        requires
            !self.waits(),
            self.done() == self.locked().files@.len(),
        ensures
            match roles_fault(self.locked().files@, 0) {
                Some(detail) => r is Err && r->Err_0@ == detail,
                None => r is Ok && r->Ok_0.directory() == self.directory() && r->Ok_0.digest() == self.digest() && r->Ok_0.locked()
                    == self.locked(),
            },
    {
        proof {
            use_type_invariant(&self);
            assert(required_roles().len() == 7);
        }
        let roles: [(&'static str, &'static str); 7] = [
            ("host_authority", ".lenso/host-build.json"),
            ("bundle_inventory", "bundles.json"),
            ("host_runtime", "runtime/lenso-host-runtime"),
            ("runtime_resolver", "runtime/lenso-resolver"),
            ("process_owner", "runtime/lenso-process-owner"),
            ("entrypoint", "host.js"),
            ("notices", "THIRD_PARTY_NOTICES.txt"),
        ];
        let mut i: usize = 0;
        while i < 7
            invariant
                i <= 7,
                roles@.map_values(|role: (&'static str, &'static str)| (role.0@, role.1@)) == required_roles(),
                required_roles().len() == 7,
                roles_fault(self.lock.files@, 0) == roles_fault(self.lock.files@, i as nat),
                forall|k: int| 0 <= k < i ==> role_at(self.lock.files@, (#[trigger] required_roles()[k]).0, required_roles()[k].1),
            decreases 7 - i,
        {
            assert(required_roles()[i as int] == (roles@[i as int].0@, roles@[i as int].1@));
            match require_role_path(&self.lock.files, roles[i].0, roles[i].1) {
                Ok(()) => {},
                Err(error) => return Err(error),
            }
            i = i + 1;
        }
        Ok(
            VerifiedDistribution { root: self.root, identity: self.identity, lock: self.lock, files: self.files, contents: self.contents },
        )
    }
}

/// Exactly one file of the lock has the role, and it is at the path.
pub open spec fn role_at(files: Seq<DistributionFile>, role: Seq<char>, path: Seq<char>) -> bool {
    exists|i: int|
        {
            &&& 0 <= i < files.len()
            &&& (#[trigger] files[i]).role@ == role
            &&& files[i].path@ == path
            &&& forall|k: int| 0 <= k < files.len() && (#[trigger] files[k]).role@ == role ==> k == i
        }
}

/// The roles that a Host needs, with the path of each.
pub open spec fn required_roles() -> Seq<(Seq<char>, Seq<char>)> {
    seq![
        ("host_authority"@, ".lenso/host-build.json"@),
        ("bundle_inventory"@, "bundles.json"@),
        ("host_runtime"@, "runtime/lenso-host-runtime"@),
        ("runtime_resolver"@, "runtime/lenso-resolver"@),
        ("process_owner"@, "runtime/lenso-process-owner"@),
        ("entrypoint"@, "host.js"@),
        ("notices"@, "THIRD_PARTY_NOTICES.txt"@),
    ]
}

/// The text for a role that is not where it has to be.
pub open spec fn role_text(role: Seq<char>, path: Seq<char>) -> Seq<char> {
    "distribution needs exactly one `"@ + role + "` at `"@ + path + "`"@
}

/// The first of the needed roles from the `k`th on that is not where it has to be.
pub open spec fn roles_fault(files: Seq<DistributionFile>, k: nat) -> Option<Seq<char>>
    decreases required_roles().len() - k,
{
    if k >= required_roles().len() {
        None
    } else if !role_at(files, required_roles()[k as int].0, required_roles()[k as int].1) {
        Some(role_text(required_roles()[k as int].0, required_roles()[k as int].1))
    } else {
        roles_fault(files, k + 1)
    }
}

/// Checks that exactly one file has a role, and that it is at a path.
pub fn require_role_path(files: &Vec<DistributionFile>, role: &str, path: &str) -> (r: Result<(), DistributionError>)
    ensures
        outcome(r) == if role_at(files@, role@, path@) {
            Ok::<(), Seq<char>>(())
        } else {
            Err(role_text(role@, path@))
        },
{
    let mut count: usize = 0;
    let mut chosen: usize = 0;
    let mut i: usize = 0;
    while i < files.len()
        invariant
            i <= files.len(),
            count <= i,
            count == 0 ==> forall|k: int| 0 <= k < i ==> (#[trigger] files@[k]).role@ != role@,
            count > 0 ==> chosen < i && files@[chosen as int].role@ == role@,
            count == 1 ==> forall|k: int| 0 <= k < i && (#[trigger] files@[k]).role@ == role@ ==> k == chosen,
            count > 1 ==> exists|k: int| 0 <= k < i && (#[trigger] files@[k]).role@ == role@ && k != chosen,
        decreases files.len() - i,
    {
        if text::same(files[i].role.as_str(), role) {
            if count == 0 {
                chosen = i;
            }
            count = count + 1;
        }
        i = i + 1;
    }
    if count != 1 || !text::same(files[chosen].path.as_str(), path) {
        let mut detail = text::around("distribution needs exactly one `", role, "` at `");
        detail.append(path);
        detail.append("`");
        return Err(DistributionError(detail));
    }
    Ok(())
}

/// A verified immutable distribution and its identity.
pub struct VerifiedDistribution {
    root: String,
    identity: String,
    lock: DistributionLock,
    files: TextMap<DistributionFile>,
    contents: Ghost<Seq<Seq<u8>>>,
}

impl VerifiedDistribution {
    /// The directory of the distribution.
    pub closed spec fn directory(self) -> Seq<char> {
        self.root@
    }

    /// The digest of the lock bytes.
    pub closed spec fn digest(self) -> Seq<char> {
        self.identity@
    }

    /// The lock.
    pub closed spec fn locked(self) -> DistributionLock {
        self.lock
    }

    /// What every file held when it was verified.
    pub closed spec fn verified_contents(self) -> Seq<Seq<u8>> {
        self.contents@
    }

    #[verifier::type_invariant]
    spec fn inv(self) -> bool {
        &&& holds_files(self.files, self.lock.files@, self.lock.files@.len() as int)
        &&& files_verified(self.lock.files@, self.contents@, self.lock.files@.len() as int)
        &&& forall|k: int|
            0 <= k < required_roles().len() ==> role_at(self.lock.files@, (#[trigger] required_roles()[k]).0, required_roles()[k].1)
    }

    /// Returns the exact digest of the distribution lock bytes. Every file of the lock was found with
    /// the contents that the lock names.
    pub fn identity(&self) -> (r: &str)
        ensures
            r@ == self.digest(),
            files_verified(self.locked().files@, self.verified_contents(), self.locked().files@.len() as int),
    {
        proof {
            use_type_invariant(self);
        }
        self.identity.as_str()
    }

    /// Returns the App identity fixed by the distribution.
    pub fn app_id(&self) -> (r: &str)
        ensures
            r@ == self.locked().app_id@,
    {
        self.lock.app_id.as_str()
    }

    /// Returns the canonical directory containing this verified distribution.
    pub fn root(&self) -> (r: &str)
        ensures
            r@ == self.directory(),
    {
        self.root.as_str()
    }
}

/// What is kept of a stream of output, and whether there was more.
#[derive(Debug)]
pub struct Drained {
    pub kept: Vec<u8>,
    pub overflow: bool,
}

/// What is kept of a stream once a chunk was taken.
pub open spec fn chunk_taken(before: Drained, chunk: Seq<u8>, limit: usize, after: Drained) -> bool {
    &&& after.kept@ == if before.kept@.len() + chunk.len() <= limit {
        before.kept@ + chunk
    } else {
        before.kept@ + chunk.take(limit - before.kept@.len())
    }
    &&& after.overflow == (before.overflow || before.kept@.len() + chunk.len() > limit)
}

/// What is kept of a stream is its beginning, up to the limit, and the overflow is noted exactly where
/// bytes were left out.
pub proof fn a_stream_is_kept_up_to_its_limit(before: Drained, chunk: Seq<u8>, limit: usize, after: Drained)
    requires
        before.kept@.len() <= limit,
        chunk_taken(before, chunk, limit, after),
    ensures
        after.kept@.len() <= limit,
        after.kept@.is_prefix_of(before.kept@ + chunk),
        before.kept@.is_prefix_of(after.kept@),
        after.kept@.len() < before.kept@.len() + chunk.len() ==> after.kept@.len() == limit && after.overflow,
        after.kept@.len() == before.kept@.len() + chunk.len() ==> after.overflow == before.overflow,
{
    let all = before.kept@ + chunk;
    assert(after.kept@ =~= all.take(after.kept@.len() as int));
    assert(before.kept@ =~= after.kept@.take(before.kept@.len() as int));
}

impl Drained {
    /// Nothing was read yet.
    pub fn new() -> (r: Self)
        ensures
            r.kept@.len() == 0,
            !r.overflow,
    {
        Drained { kept: Vec::new(), overflow: false }
    }

    /// Takes one more chunk of the output: up to `limit` bytes are kept in all.
    pub fn take(&mut self, chunk: &[u8], limit: usize)
        requires
            old(self).kept@.len() <= limit,
        ensures
            chunk_taken(*old(self), chunk@, limit, *final(self)),
            final(self).kept@.len() <= limit,
    {
        let remaining: usize = limit - self.kept.len();
        let count: usize = if chunk.len() < remaining {
            chunk.len()
        } else {
            remaining
        };
        let ghost before = self.kept@;
        let mut i: usize = 0;
        assert(before + chunk@.take(0) =~= before);
        while i < count
            invariant
                i <= count <= chunk.len(),
                count <= remaining,
                before.len() + remaining == limit,
                self.kept@ == before + chunk@.take(i as int),
                self.overflow == old(self).overflow,
            decreases count - i,
        {
            self.kept.push(chunk[i]);
            assert(chunk@.take(i + 1) =~= chunk@.take(i as int).push(chunk@[i as int]));
            assert(self.kept@ =~= before + chunk@.take(i + 1));
            i = i + 1;
        }
        assert(chunk@.take(chunk@.len() as int) =~= chunk@);
        if chunk.len() > remaining {
            self.overflow = true;
        }
    }
}

/// The first bytes of a stream, as far as they are kept.
pub open spec fn kept_of(stream: Seq<u8>, limit: nat) -> Seq<u8> {
    if stream.len() <= limit {
        stream
    } else {
        stream.take(limit as int)
    }
}

/// However a stream is cut into chunks, the same bytes are kept of it: those before a chunk and those of
/// the chunk.
pub proof fn draining_keeps_the_first_bytes(read: Seq<u8>, chunk: Seq<u8>, limit: nat)
    ensures
        ({
            let kept = kept_of(read, limit);
            kept_of(read + chunk, limit) == if kept.len() + chunk.len() <= limit {
                kept + chunk
            } else {
                kept + chunk.take(limit - kept.len())
            }
        }),
        (read + chunk).len() > limit <==> read.len() > limit || kept_of(read, limit).len() + chunk.len() > limit,
{
    let kept = kept_of(read, limit);
    if kept.len() + chunk.len() <= limit {
        if read.len() > limit {
            assert(chunk.len() == 0);
            assert(read + chunk =~= read);
            assert(kept + chunk =~= kept);
        }
    } else {
        assert(kept_of(read + chunk, limit) =~= kept + chunk.take(limit - kept.len()));
    }
}

/// How the bundled resolver ended.
#[derive(Debug)]
pub enum ResolverEnd {
    /// It did not end in time.
    TimedOut,
    /// A reader of its output failed.
    ReaderFailed(&'static str),
    /// It ended: whether it succeeded, whether its output was cut off, what it wrote as errors, and the
    /// reading of its output as strict JSON.
    Ended { success: bool, overflow: bool, errors: String, resolution: Result<RuntimeResolution, String> },
}

/// What the bundled resolver says of an App root.
#[derive(Debug)]
pub struct RuntimeResolution {
    pub schema: String,
    pub app_id: String,
    pub authority_digest: String,
    pub host_build_digest: String,
    pub plugin_root_revision: String,
    pub plan: AppPlan,
}

/// The arguments of the bundled resolver.
pub fn resolver_arguments(app_root: &str, host_build: &str) -> (r: Vec<String>)
    ensures
        texts(r@) == seq!["app"@, "show"@, "--root"@, app_root@, "--host-build"@, host_build@, "--runtime-json"@],
{
    let mut r: Vec<String> = Vec::new();
    r.push("app".to_owned());
    r.push("show".to_owned());
    r.push("--root".to_owned());
    r.push(app_root.to_owned());
    r.push("--host-build".to_owned());
    r.push(host_build.to_owned());
    r.push("--runtime-json".to_owned());
    assert(texts(r@) =~= seq!["app"@, "show"@, "--root"@, app_root@, "--host-build"@, host_build@, "--runtime-json"@]);
    r
}

/// What the end of the bundled resolver means.
pub open spec fn resolver_judged(end: ResolverEnd, r: Result<RuntimeResolution, DistributionError>) -> bool {
    match end {
        ResolverEnd::TimedOut => r is Err && r->Err_0@ == "bundled resolver timed out"@,
        ResolverEnd::ReaderFailed(stream) => r is Err && r->Err_0@ == "resolver "@ + stream@ + " reader failed"@,
        ResolverEnd::Ended { success, overflow, errors, resolution } => if overflow {
            r is Err && r->Err_0@ == "bundled resolver exceeded its output limit"@
        } else if !success {
            r is Err && r->Err_0@ == "bundled resolver rejected App root: "@ + trimmed(errors@)
        } else {
            match resolution {
                Err(error) => r is Err && r->Err_0@ == "bundled resolver returned invalid JSON: "@ + error@,
                Ok(found) => r == Ok::<RuntimeResolution, DistributionError>(found),
            }
        },
    }
}

/// A resolution is taken exactly from a resolver that ended in time, with success and within its output
/// limit, as it was read.
pub proof fn only_a_clean_resolver_is_believed(end: ResolverEnd, r: Result<RuntimeResolution, DistributionError>)
    requires
        resolver_judged(end, r),
    ensures
        r is Ok <==> end is Ended && end->success && !end->overflow && end->resolution is Ok,
        r is Ok ==> end->resolution == Ok::<RuntimeResolution, String>(r->Ok_0),
{
}

/// Judges how the bundled resolver ended.
pub fn judge_resolver(end: ResolverEnd) -> (r: Result<RuntimeResolution, DistributionError>)
    ensures
        resolver_judged(end, r),
{
    match end {
        ResolverEnd::TimedOut => Err(invalid("bundled resolver timed out")),
        ResolverEnd::ReaderFailed(stream) => Err(invalid_about("resolver ", stream, " reader failed")),
        ResolverEnd::Ended { success, overflow, errors, resolution } => {
            if overflow {
                return Err(invalid("bundled resolver exceeded its output limit"));
            }
            if !success {
                let detail = text::trim(errors.as_str());
                return Err(DistributionError(text::behind("bundled resolver rejected App root: ", detail.as_str())));
            }
            match resolution {
                Ok(found) => Ok(found),
                Err(error) => Err(DistributionError(text::behind("bundled resolver returned invalid JSON: ", error.as_str()))),
            }
        },
    }
}

/// A lock has a file at a path.
pub open spec fn is_locked(files: Seq<DistributionFile>, path: Seq<char>) -> bool {
    exists|i: int| 0 <= i < files.len() && (#[trigger] files[i]).path@ == path
}

/// The file that a lock has at a path.
pub open spec fn locked_file(files: Seq<DistributionFile>, path: Seq<char>) -> DistributionFile {
    files[choose|i: int| 0 <= i < files.len() && (#[trigger] files[i]).path@ == path]
}

/// Why a resolution is not the one of this distribution.
pub open spec fn resolution_fault(lock: DistributionLock, resolution: RuntimeResolution) -> Option<Seq<char>> {
    if resolution.schema@ != "lenso.runtime-app-resolution.v1"@ || resolution.app_id@ != lock.app_id@ {
        Some("resolver output differs from distribution App authority"@)
    } else if !digest_syntax(resolution.authority_digest@) || !digest_syntax(resolution.host_build_digest@) || !digest_syntax(
        resolution.plugin_root_revision@,
    ) {
        Some("invalid SHA-256 digest"@)
    } else if plan_verdict(resolution.plan.bytes@) is Err {
        Some("resolver returned invalid Plan: "@ + plan_verdict(resolution.plan.bytes@)->Err_0)
    } else if resolution.host_build_digest@ != locked_file(lock.files@, ".lenso/host-build.json"@).sha256@ {
        Some("resolver Host authority digest differs from distribution lock"@)
    } else {
        None
    }
}

/// What was chosen for one Instance: the Bundle of the inventory, and the Artifact in the distribution.
#[derive(Debug)]
pub struct ArtifactChoice {
    pub index: usize,
    pub relative: String,
}

/// An inventory entry is for an Instance on a target.
pub open spec fn offered(item: BundleInventory, instance: PlanInstance, target: Seq<char>) -> bool {
    &&& item.plugin_id@ == instance.package_id@
    &&& item.release_version@ == instance.package_revision@
    &&& item.execution_class@ == instance.execution_class@
    &&& item.target@ == target
}

/// What identifies the Artifact of an inventory entry.
pub open spec fn artifact_identity(item: BundleInventory) -> (Seq<char>, Seq<char>, u64, Seq<char>, Seq<char>, Seq<char>) {
    (
        item.implementation_id@,
        item.artifact_digest@,
        item.artifact_size,
        item.artifact_media_type@,
        item.artifact_target@,
        item.artifact_path@,
    )
}

/// The position of the first inventory entry from the `k`th on that is for an Instance on a target.
pub open spec fn first_offer(inventory: Seq<BundleInventory>, instance: PlanInstance, target: Seq<char>, k: nat) -> Option<int>
    decreases inventory.len() - k,
{
    if k >= inventory.len() {
        None
    } else if offered(inventory[k as int], instance, target) {
        Some(k as int)
    } else {
        first_offer(inventory, instance, target, k + 1)
    }
}

/// Another entry for the Instance has another Artifact than the one at `chosen`.
pub open spec fn ambiguous(inventory: Seq<BundleInventory>, instance: PlanInstance, target: Seq<char>, chosen: int) -> bool {
    exists|i: int|
        chosen < i < inventory.len() && offered(#[trigger] inventory[i], instance, target) && artifact_identity(inventory[i]) != artifact_identity(
            inventory[chosen],
        )
}

/// Where the Artifact of an inventory entry stands in the distribution.
pub open spec fn artifact_location(index: int, item: BundleInventory) -> Seq<char> {
    "artifacts/"@ + decimal(index as nat) + "/"@ + last_name(item.artifact_path@)
}

/// Why the chosen entry of the inventory is not the one of the distribution.
pub open spec fn choice_fault(files: Seq<DistributionFile>, index: int, item: BundleInventory) -> Option<Seq<char>> {
    if !digest_syntax(item.manifest_digest@) || !digest_syntax(item.artifact_digest@) {
        Some("invalid SHA-256 digest"@)
    } else if !inside(item.path@) {
        Some(outside_text(item.path@))
    } else if !inside(item.artifact_path@) {
        Some(outside_text(item.artifact_path@))
    } else if !is_locked(files, item.path@) {
        Some("selected bundle `"@ + item.path@ + "` is absent from distribution lock"@)
    } else if locked_file(files, item.path@).role@ != "plugin_bundle"@ {
        Some("selected bundle `"@ + item.path@ + "` differs from inventory"@)
    } else if blank(item.implementation_id@) || blank(item.artifact_media_type@) || blank(item.artifact_target@) {
        Some("selected Artifact identity is incomplete"@)
    } else if !is_locked(files, artifact_location(index, item)) {
        Some("selected Artifact `"@ + artifact_location(index, item) + "` is absent from distribution lock"@)
    } else {
        let locked = locked_file(files, artifact_location(index, item));
        if locked.role@ != "plugin_artifact"@ || locked.sha256@ != item.artifact_digest@ || locked.size != item.artifact_size {
            Some("selected Artifact `"@ + artifact_location(index, item) + "` differs from inventory"@)
        } else {
            None
        }
    }
}

/// What is chosen for one Instance.
pub open spec fn choice(lock: DistributionLock, inventory: Seq<BundleInventory>, instance: PlanInstance) -> Result<
    (int, Seq<char>),
    Seq<char>,
> {
    match first_offer(inventory, instance, lock.target@, 0) {
        None => Err("no distribution Artifact for Plugin Instance `"@ + instance.instance_key@ + "`"@),
        Some(i) => if ambiguous(inventory, instance, lock.target@, i) {
            Err("ambiguous distribution Artifact for Plugin Instance `"@ + instance.instance_key@ + "`"@)
        } else {
            match choice_fault(lock.files@, i, inventory[i]) {
                Some(detail) => Err(detail),
                None => Ok((i, artifact_location(i, inventory[i]))),
            }
        },
    }
}

/// What choosing came to, by its facts.
pub open spec fn choice_outcome(r: Result<ArtifactChoice, DistributionError>) -> Result<(int, Seq<char>), Seq<char>> {
    match r {
        Ok(found) => Ok((found.index as int, found.relative@)),
        Err(error) => Err(error@),
    }
}

/// Decides whether two inventory entries have the same Artifact.
fn same_artifact(a: &BundleInventory, b: &BundleInventory) -> (r: bool)
    ensures
        r == (artifact_identity(*a) == artifact_identity(*b)),
{
    text::same(a.implementation_id.as_str(), b.implementation_id.as_str()) && text::same(
        a.artifact_digest.as_str(),
        b.artifact_digest.as_str(),
    ) && a.artifact_size == b.artifact_size && text::same(a.artifact_media_type.as_str(), b.artifact_media_type.as_str()) && text::same(
        a.artifact_target.as_str(),
        b.artifact_target.as_str(),
    ) && text::same(a.artifact_path.as_str(), b.artifact_path.as_str())
}

/// Decides whether an inventory entry is for an Instance on a target.
fn is_offered(item: &BundleInventory, instance: &PlanInstance, target: &str) -> (r: bool)
    ensures
        r == offered(*item, *instance, target@),
{
    text::same(item.plugin_id.as_str(), instance.package_id.as_str()) && text::same(
        item.release_version.as_str(),
        instance.package_revision.as_str(),
    ) && text::same(item.execution_class.as_str(), instance.execution_class.as_str()) && text::same(item.target.as_str(), target)
}

impl VerifiedDistribution {
    /// The file that the lock has at a path.
    fn locked_at(&self, path: &str) -> (r: Option<&DistributionFile>)
        ensures
            match r {
                Some(file) => is_locked(self.locked().files@, path@) && file.facts() == locked_file(self.locked().files@, path@).facts(),
                None => !is_locked(self.locked().files@, path@),
            },
    {
        proof {
            use_type_invariant(self);
            let files = self.lock.files@;
            if is_locked(files, path@) {
                let i = choose|i: int| 0 <= i < files.len() && (#[trigger] files[i]).path@ == path@;
                assert(self.files.has(files[i].path@));
            }
            if self.files.has(path@) {
                let i = choose|i: int| 0 <= i < files.len() && (#[trigger] files[i]).path@ == path@;
                assert(files[i].path@ == path@);
            }
        }
        self.files.get(path)
    }

    /// Checks that a resolution is the one of this distribution.
    pub fn check_resolution(&self, resolution: &RuntimeResolution) -> (r: Result<(), DistributionError>)
        ensures
            outcome(r) == match resolution_fault(self.locked(), *resolution) {
                Some(detail) => Err::<(), Seq<char>>(detail),
                None => Ok(()),
            },
    {
        if !text::same(resolution.schema.as_str(), "lenso.runtime-app-resolution.v1") || !text::same(
            resolution.app_id.as_str(),
            self.lock.app_id.as_str(),
        ) {
            return Err(invalid("resolver output differs from distribution App authority"));
        }
        if !digest::is_digest(resolution.authority_digest.as_str()) || !digest::is_digest(resolution.host_build_digest.as_str())
            || !digest::is_digest(resolution.plugin_root_revision.as_str()) {
            return Err(invalid("invalid SHA-256 digest"));
        }
        match resolution.plan.validate() {
            Err(error) => return Err(DistributionError(text::behind("resolver returned invalid Plan: ", error.as_str()))),
            Ok(()) => {},
        }
        proof {
            use_type_invariant(self);
            assert(required_roles()[0] == ("host_authority"@, ".lenso/host-build.json"@));
            assert(role_at(self.lock.files@, required_roles()[0].0, required_roles()[0].1));
            assert(is_locked(self.lock.files@, ".lenso/host-build.json"@));
        }
        let authority = self.locked_at(".lenso/host-build.json").unwrap();
        if !text::same(resolution.host_build_digest.as_str(), authority.sha256.as_str()) {
            return Err(invalid("resolver Host authority digest differs from distribution lock"));
        }
        Ok(())
    }

    /// Chooses the Artifact of one Instance from the inventory and closes it over the lock.
    pub fn select_artifact(&self, instance: &PlanInstance, inventory: &Vec<BundleInventory>) -> (r: Result<ArtifactChoice, DistributionError>)
        ensures
            choice_outcome(r) == choice(self.locked(), inventory@, *instance),
            r is Ok ==> r->Ok_0.index < inventory@.len(),
    {
        let target = self.lock.target.as_str();
        let mut index: usize = 0;
        while index < inventory.len() && !is_offered(&inventory[index], instance, target)
            invariant
                index <= inventory.len(),
                target@ == self.lock.target@,
                first_offer(inventory@, *instance, target@, 0) == first_offer(inventory@, *instance, target@, index as nat),
            decreases inventory.len() - index,
        {
            index = index + 1;
        }
        if index == inventory.len() {
            return Err(invalid_about("no distribution Artifact for Plugin Instance `", instance.instance_key.as_str(), "`"));
        }
        let selected = &inventory[index];
        let mut i: usize = index + 1;
        while i < inventory.len()
            invariant
                index < i <= inventory.len(),
                target@ == self.lock.target@,
                *selected == inventory@[index as int],
                first_offer(inventory@, *instance, target@, 0) == Some(index as int),
                forall|k: int|
                    index < k < i && offered(#[trigger] inventory@[k], *instance, target@) ==> artifact_identity(inventory@[k])
                        == artifact_identity(*selected),
            decreases inventory.len() - i,
        {
            if is_offered(&inventory[i], instance, target) && !same_artifact(&inventory[i], selected) {
                assert(ambiguous(inventory@, *instance, target@, index as int)) by {
                    assert(offered(inventory@[i as int], *instance, target@));
                }
                return Err(invalid_about("ambiguous distribution Artifact for Plugin Instance `", instance.instance_key.as_str(), "`"));
            }
            i = i + 1;
        }
        assert(!ambiguous(inventory@, *instance, target@, index as int));
        match self.check_choice(index, selected) {
            Ok(relative) => Ok(ArtifactChoice { index, relative }),
            Err(error) => Err(error),
        }
    }

    /// Closes an inventory entry over the lock: where its Artifact stands in the distribution.
    fn check_choice(&self, index: usize, selected: &BundleInventory) -> (r: Result<String, DistributionError>)
        ensures
            match choice_fault(self.locked().files@, index as int, *selected) {
                Some(detail) => r is Err && r->Err_0@ == detail,
                None => r is Ok && r->Ok_0@ == artifact_location(index as int, *selected),
            },
    {
        if !digest::is_digest(selected.manifest_digest.as_str()) || !digest::is_digest(selected.artifact_digest.as_str()) {
            return Err(invalid("invalid SHA-256 digest"));
        }
        match validate_relative(selected.path.as_str()) {
            Ok(()) => {},
            Err(error) => return Err(error),
        }
        match validate_relative(selected.artifact_path.as_str()) {
            Ok(()) => {},
            Err(error) => return Err(error),
        }
        let bundle = match self.locked_at(selected.path.as_str()) {
            Some(bundle) => bundle,
            None => return Err(invalid_about("selected bundle `", selected.path.as_str(), "` is absent from distribution lock")),
        };
        if !text::same(bundle.role.as_str(), "plugin_bundle") {
            return Err(invalid_about("selected bundle `", selected.path.as_str(), "` differs from inventory"));
        }
        if text::is_blank(selected.implementation_id.as_str()) || text::is_blank(selected.artifact_media_type.as_str()) || text::is_blank(
            selected.artifact_target.as_str(),
        ) {
            return Err(invalid("selected Artifact identity is incomplete"));
        }
        let name = paths::file_name(selected.artifact_path.as_str());
        let number = text::print_u128(index as u128);
        let mut relative = text::around("artifacts/", number.as_str(), "/");
        relative.append(name.as_str());
        let locked = match self.locked_at(relative.as_str()) {
            Some(locked) => locked,
            None => return Err(invalid_about("selected Artifact `", relative.as_str(), "` is absent from distribution lock")),
        };
        if !text::same(locked.role.as_str(), "plugin_artifact") || !text::same(
            locked.sha256.as_str(),
            selected.artifact_digest.as_str(),
        ) || locked.size != selected.artifact_size {
            return Err(invalid_about("selected Artifact `", relative.as_str(), "` differs from inventory"));
        }
        Ok(relative)
    }
}

/// What a chosen Artifact is to the Generation.
pub open spec fn planned_artifact(artifact: PlanArtifact, instance: PlanInstance, item: BundleInventory, handle: ArtifactHandle) -> bool {
    &&& artifact.instance_key@ == instance.instance_key@
    &&& artifact.plugin_id@ == item.plugin_id@
    &&& artifact.artifact_id@ == item.implementation_id@
    &&& artifact.media_type@ == item.artifact_media_type@
    &&& artifact.target@ == item.artifact_target@
    &&& artifact.handle == handle
}

/// Takes over a chosen Artifact that was opened, or the text of the error in opening it.
pub fn take_artifact(
    instance: &PlanInstance,
    inventory: &Vec<BundleInventory>,
    choice: &ArtifactChoice,
    opened: Result<ArtifactHandle, String>,
) -> (r: Result<PlanArtifact, DistributionError>)
    requires
        choice.index < inventory@.len(),
    ensures
        match opened {
            Err(error) => r is Err && r->Err_0@ == "open selected Artifact `"@ + choice.relative@ + "`: "@ + error@,
            Ok(handle) => r is Ok && planned_artifact(r->Ok_0, *instance, inventory@[choice.index as int], handle),
        },
{
    let selected = &inventory[choice.index];
    match opened {
        Ok(handle) => Ok(
            PlanArtifact {
                instance_key: instance.instance_key.clone(),
                plugin_id: selected.plugin_id.clone(),
                artifact_id: selected.implementation_id.clone(),
                media_type: selected.artifact_media_type.clone(),
                target: selected.artifact_target.clone(),
                handle,
            },
        ),
        Err(error) => {
            let mut detail = text::around("open selected Artifact `", choice.relative.as_str(), "`: ");
            detail.append(error.as_str());
            Err(DistributionError(detail))
        },
    }
}

/// What a bundle inventory is accepted as.
pub open spec fn inventory_checked(inventory: Result<Vec<BundleInventory>, String>, r: Result<Vec<BundleInventory>, DistributionError>) -> bool {
    match inventory {
        Err(error) => r is Err && r->Err_0@ == "invalid bundle inventory: "@ + error@,
        Ok(items) => if items@.len() > 256 {
            r is Err && r->Err_0@ == "bundle inventory exceeds 256 entries"@
        } else {
            r == Ok::<Vec<BundleInventory>, DistributionError>(items)
        },
    }
}

/// Whether a file is within a bound.
pub open spec fn bound_checked(regular: bool, size: u64, limit: u64, label: Seq<char>, r: Result<(), DistributionError>) -> bool {
    outcome(r) == if !regular || size > limit {
        Err::<(), Seq<char>>(label + " must be a regular file no larger than "@ + decimal(limit as nat) + " bytes"@)
    } else {
        Ok(())
    }
}

/// An inventory is taken as it is, up to 256 entries, and a file exactly where it is regular and no
/// larger than its limit.
pub proof fn what_is_read_is_bounded(
    inventory: Result<Vec<BundleInventory>, String>,
    items: Result<Vec<BundleInventory>, DistributionError>,
    file: (bool, u64, u64),
    label: Seq<char>,
    checked: Result<(), DistributionError>,
)
    requires
        inventory_checked(inventory, items),
        bound_checked(file.0, file.1, file.2, label, checked),
    ensures
        items is Ok <==> inventory is Ok && inventory->Ok_0@.len() <= 256,
        items is Ok ==> inventory == Ok::<Vec<BundleInventory>, String>(items->Ok_0),
        checked is Ok <==> file.0 && file.1 <= file.2,
{
}

/// Checks the reading of the Bundle inventory.
pub fn check_inventory(inventory: Result<Vec<BundleInventory>, String>) -> (r: Result<Vec<BundleInventory>, DistributionError>)
    ensures
        inventory_checked(inventory, r),
{
    match inventory {
        Ok(items) => if items.len() > 256 {
            Err(invalid("bundle inventory exceeds 256 entries"))
        } else {
            Ok(items)
        },
        Err(error) => Err(DistributionError(text::behind("invalid bundle inventory: ", error.as_str()))),
    }
}

/// Checks what was found of a bounded file before it is read.
pub fn check_bounded(regular: bool, size: u64, limit: u64, label: &str) -> (r: Result<(), DistributionError>)
    ensures
        bound_checked(regular, size, limit, label@, r),
{
    if !regular || size > limit {
        let number = text::print_u128(limit as u128);
        let mut detail = text::around(label, " must be a regular file no larger than ", number.as_str());
        detail.append(" bytes");
        return Err(DistributionError(detail));
    }
    Ok(())
}

/// One executable Generation produced from a verified distribution and external Root.
#[derive(Debug)]
pub struct PreparedHostGeneration {
    pub distribution_identity: String,
    pub plugin_root_revision: String,
    pub generation: ResolvedGeneration,
}

/// The execution classes that a Plan selects, in strictly increasing order.
pub open spec fn class_list(classes: Seq<Seq<char>>, instances: Seq<PlanInstance>) -> bool {
    &&& forall|i: int, j: int| 0 <= i < j < classes.len() ==> text::text_lt(#[trigger] classes[i], #[trigger] classes[j])
    &&& forall|class: Seq<char>| #[trigger] classes.contains(class) <==> catalog::selects(instances, class)
}

/// The execution class of a trusted Bun child process.
pub const BUN_CLASS: &'static str = "lenso.bun-process@1";

/// The text for a Bun execution without a Bun.
pub open spec fn no_bun() -> Seq<char> {
    "Bun execution requires `javascript_runtime` at `runtime/bun`"@
}

/// The distribution carries Bun.
pub open spec fn carries_bun(files: Seq<DistributionFile>) -> bool {
    is_locked(files, "runtime/bun"@) && locked_file(files, "runtime/bun"@).role@ == "javascript_runtime"@
}

/// The build identity of the Adapter of one class: the runtime, and Bun where it runs the class.
pub open spec fn adapter_identity(files: Seq<DistributionFile>, class: Seq<char>) -> Seq<char> {
    let runtime = locked_file(files, "runtime/lenso-host-runtime"@).sha256@;
    if class == BUN_CLASS@ {
        digest_of(encode_utf8(runtime + "\n"@ + locked_file(files, "runtime/bun"@).sha256@))
    } else {
        runtime
    }
}

/// What the profile of one class says.
pub open spec fn profile_facts(profile: AdapterProfile) -> (Seq<char>, Seq<char>, Seq<Seq<char>>, Seq<Seq<char>>) {
    (profile.execution_class@, profile.adapter_build_identity@, texts(profile.targets@), texts(profile.profiles@))
}

/// The authority documents are the ones of this distribution and Plan.
pub open spec fn authority_of(
    host_build: CanonicalDocument<HostBuildManifest>,
    policy: CanonicalDocument<HostExecutionPolicy>,
    lock: DistributionLock,
    instances: Seq<PlanInstance>,
) -> bool {
    let build = host_build.typed();
    let preference = texts(policy.typed().preference@);
    &&& class_list(preference, instances)
    &&& build.schema_version == 3
    &&& build.app_id@ == lock.app_id@
    &&& build.host_executable_digest@ == locked_file(lock.files@, "runtime/lenso-host-runtime"@).sha256@
    &&& build.target@ == lock.target@
    &&& build.embedded_plugins@.len() == 0
    &&& build.adapter_profiles@.map_values(|item: AdapterProfile| profile_facts(item)) == preference.map_values(
        |class: Seq<char>| (class, adapter_identity(lock.files@, class), seq![lock.target@], seq!["request"@]),
    )
    &&& policy.typed().schema_version == 2
    &&& policy.typed().app_id@ == lock.app_id@
    &&& policy.typed().host_build_manifest_digest@ == host_build.identity()
    &&& policy.typed().target@ == lock.target@
}

proof fn profile_is_strict(item: AdapterProfile)
    ensures
        item.tree().strict(),
{
    reveal_strlit("execution_class");
    reveal_strlit("adapter_build_identity");
    reveal_strlit("targets");
    reveal_strlit("profiles");
    let entries = item.tree()->Object_0;
    let keys = keys_of(entries);
    assert(keys =~= seq!["execution_class"@, "adapter_build_identity"@, "targets"@, "profiles"@]);
    assert(keys[0].len() == 15 && keys[1].len() == 22 && keys[2].len() == 7 && keys[3].len() == 8);
    canonical::text_list_is_strict(texts(item.targets@));
    canonical::text_list_is_strict(texts(item.profiles@));
    canonical::object_is_strict(entries);
}

proof fn build_is_strict(item: HostBuildManifest)
    requires
        item.embedded_plugins@.len() == 0,
    ensures
        item.tree().strict(),
{
    reveal_strlit("schema_version");
    reveal_strlit("app_id");
    reveal_strlit("host_executable_digest");
    reveal_strlit("target");
    reveal_strlit("embedded_plugins");
    reveal_strlit("adapter_profiles");
    let entries = item.tree()->Object_0;
    let keys = keys_of(entries);
    assert(keys =~= seq![
        "schema_version"@,
        "app_id"@,
        "host_executable_digest"@,
        "target"@,
        "embedded_plugins"@,
        "adapter_profiles"@,
    ]);
    assert(keys[0].len() == 14 && keys[1].len() == 6 && keys[2].len() == 22 && keys[3].len() == 6 && keys[4].len() == 16 && keys[5].len() == 16);
    assert(keys[1][0] == 'a' && keys[3][0] == 't' && keys[4][0] == 'e' && keys[5][0] == 'a');
    canonical::list_is_strict(trees(item.embedded_plugins@));
    assert forall|i: int| 0 <= i < trees(item.adapter_profiles@).len() implies (#[trigger] trees(item.adapter_profiles@)[i]).strict() by {
        profile_is_strict(item.adapter_profiles@[i]);
    }
    canonical::list_is_strict(trees(item.adapter_profiles@));
    canonical::object_is_strict(entries);
}

proof fn policy_is_strict(item: HostExecutionPolicy)
    ensures
        item.tree().strict(),
{
    reveal_strlit("schema_version");
    reveal_strlit("app_id");
    reveal_strlit("host_build_manifest_digest");
    reveal_strlit("target");
    reveal_strlit("preference");
    let entries = item.tree()->Object_0;
    let keys = keys_of(entries);
    assert(keys =~= seq!["schema_version"@, "app_id"@, "host_build_manifest_digest"@, "target"@, "preference"@]);
    assert(keys[0].len() == 14 && keys[1].len() == 6 && keys[2].len() == 26 && keys[3].len() == 6 && keys[4].len() == 10);
    assert(keys[1][0] == 'a' && keys[3][0] == 't');
    canonical::text_list_is_strict(texts(item.preference@));
    canonical::object_is_strict(entries);
}

/// Why no authority can be constructed.
pub open spec fn authority_fault(lock: DistributionLock, instances: Seq<PlanInstance>) -> Option<Seq<char>> {
    if catalog::selects(instances, BUN_CLASS@) && !carries_bun(lock.files@) {
        Some(no_bun())
    } else {
        None
    }
}

impl VerifiedDistribution {
    /// The build identity of the Adapter of one class.
    fn adapter_build_identity(&self, runtime: &str, class: &str) -> (r: Result<String, DistributionError>)
        requires
            runtime@ == locked_file(self.locked().files@, "runtime/lenso-host-runtime"@).sha256@,
        ensures
            if class@ == BUN_CLASS@ && !carries_bun(self.locked().files@) {
                r is Err && r->Err_0@ == no_bun()
            } else {
                r is Ok && r->Ok_0@ == adapter_identity(self.locked().files@, class@)
            },
    {
        if !text::same(class, BUN_CLASS) {
            return Ok(runtime.to_owned());
        }
        let bun = match self.locked_at("runtime/bun") {
            Some(bun) => bun,
            None => return Err(invalid("Bun execution requires `javascript_runtime` at `runtime/bun`")),
        };
        if !text::same(bun.role.as_str(), "javascript_runtime") {
            return Err(invalid("Bun execution requires `javascript_runtime` at `runtime/bun`"));
        }
        let mut joined = text::around(runtime, "\n", bun.sha256.as_str());
        assert(joined@ =~= runtime@ + "\n"@ + bun.sha256@);
        Ok(digest::sha256_digest(joined.as_str().as_bytes()))
    }

    /// Constructs the build authority and the execution policy for a Plan.
    pub fn generation_authority(&self, plan: &AppPlan) -> (r: Result<
        (CanonicalDocument<HostBuildManifest>, CanonicalDocument<HostExecutionPolicy>),
        DistributionError,
    >)
        ensures
            match authority_fault(self.locked(), plan.instances@) {
                Some(detail) => r is Err && r->Err_0@ == detail,
                None => r is Ok && authority_of(r->Ok_0.0, r->Ok_0.1, self.locked(), plan.instances@),
            },
    {
        proof {
            use_type_invariant(self);
            assert(required_roles()[2] == ("host_runtime"@, "runtime/lenso-host-runtime"@));
            assert(role_at(self.lock.files@, required_roles()[2].0, required_roles()[2].1));
            assert(is_locked(self.lock.files@, "runtime/lenso-host-runtime"@));
        }
        let runtime = self.locked_at("runtime/lenso-host-runtime").unwrap();
        let classes = catalog::selected_execution_classes(plan);
        let ghost lock = self.locked();
        let ghost target = lock.target@;
        let mut preference: Vec<String> = Vec::new();
        let mut adapter_profiles: Vec<AdapterProfile> = Vec::new();
        let mut i: usize = 0;
        while i < classes.len()
            invariant
                i <= classes.entries().len(),
                classes.wf(),
                forall|class: Seq<char>| #[trigger] classes.has(class) <==> catalog::selects(plan.instances@, class),
                lock == self.locked(),
                target == self.lock.target@,
                runtime.sha256@ == locked_file(lock.files@, "runtime/lenso-host-runtime"@).sha256@,
                preference@.len() == i,
                adapter_profiles@.len() == i,
                forall|k: int| 0 <= k < i ==> (#[trigger] preference@[k])@ == classes.entries()[k].0,
                forall|k: int| 0 <= k < i ==> !(classes.entries()[k].0 == BUN_CLASS@ && !carries_bun(lock.files@)),
                forall|k: int|
                    0 <= k < i ==> profile_facts(#[trigger] adapter_profiles@[k]) == (
                        classes.entries()[k].0,
                        adapter_identity(lock.files@, classes.entries()[k].0),
                        seq![target],
                        seq!["request"@],
                    ),
            decreases classes.entries().len() - i,
        {
            let class = classes.key_at(i);
            let identity = match self.adapter_build_identity(runtime.sha256.as_str(), class) {
                Ok(identity) => identity,
                Err(error) => {
                    assert(classes.has(classes.entries()[i as int].0));
                    return Err(error);
                },
            };
            let mut targets: Vec<String> = Vec::new();
            targets.push(self.lock.target.clone());
            let mut profiles: Vec<String> = Vec::new();
            profiles.push("request".to_owned());
            proof {
                assert(texts(targets@) =~= seq![target]);
                assert(texts(profiles@) =~= seq!["request"@]);
            }
            preference.push(class.to_owned());
            adapter_profiles.push(
                AdapterProfile { execution_class: class.to_owned(), adapter_build_identity: identity, targets, profiles },
            );
            i = i + 1;
        }
        let ghost names = texts(preference@);
        proof {
            assert forall|k: int| 0 <= k < names.len() implies #[trigger] names[k] == classes.entries()[k].0 by {
                assert(names[k] == preference@[k]@);
            }
            assert forall|class: Seq<char>| #[trigger] names.contains(class) <==> catalog::selects(plan.instances@, class) by {
                if names.contains(class) {
                    let k = choose|k: int| 0 <= k < names.len() && names[k] == class;
                    assert(classes.entries()[k].0 == class);
                    assert(classes.has(class));
                }
                if catalog::selects(plan.instances@, class) {
                    assert(classes.has(class));
                    let k = choose|k: int| 0 <= k < classes.entries().len() && (#[trigger] classes.entries()[k]).0 == class;
                    assert(names[k] == class);
                }
            }
            assert(class_list(names, plan.instances@));
            if catalog::selects(plan.instances@, BUN_CLASS@) {
                assert(classes.has(BUN_CLASS@));
                let k = choose|k: int| 0 <= k < classes.entries().len() && (#[trigger] classes.entries()[k]).0 == BUN_CLASS@;
                assert(classes.entries()[k].0 == BUN_CLASS@);
            }
            assert(adapter_profiles@.map_values(|item: AdapterProfile| profile_facts(item)) =~= names.map_values(
                |class: Seq<char>| (class, adapter_identity(lock.files@, class), seq![lock.target@], seq!["request"@]),
            ));
        }
        let none: Vec<EmbeddedPlugin> = Vec::new();
        let build = HostBuildManifest {
            schema_version: 3,
            app_id: self.lock.app_id.clone(),
            host_executable_digest: runtime.sha256.clone(),
            target: self.lock.target.clone(),
            embedded_plugins: none,
            adapter_profiles,
        };
        proof {
            build_is_strict(build);
        }
        let host_build = match CanonicalDocument::from_value("lenso-host-build.json", build) {
            Ok(document) => document,
            Err(error) => return Err(DistributionError(text::behind("construct Host build authority: ", error.message().as_str()))),
        };
        let value = HostExecutionPolicy {
            schema_version: 2,
            app_id: self.lock.app_id.clone(),
            host_build_manifest_digest: host_build.digest().to_owned(),
            target: self.lock.target.clone(),
            preference,
        };
        proof {
            policy_is_strict(value);
        }
        let policy = match CanonicalDocument::from_value("lenso-host-execution-policy.json", value) {
            Ok(document) => document,
            Err(error) => return Err(DistributionError(text::behind("construct Host execution policy: ", error.message().as_str()))),
        };
        Ok((host_build, policy))
    }

    /// Closes a checked resolution over its opened Artifacts into one executable Generation.
    fn close_generation(&self, resolution: RuntimeResolution, artifacts: Vec<PlanArtifact>) -> (r: Result<
        PreparedHostGeneration,
        DistributionError,
    >)
        ensures
            match authority_fault(self.locked(), resolution.plan.instances@) {
                Some(detail) => r is Err && r->Err_0@ == detail,
                None => exists|input: PlanGenerationInput| #[trigger]
                    closing_input(input, self.locked(), resolution, artifacts@) && match input_fault(input) {
                        Some(detail) => r is Err && r->Err_0@ == "close resolved Generation: "@ + detail,
                        None => r is Ok && generation_of(r->Ok_0.generation, input) && r->Ok_0.distribution_identity@ == self.digest()
                            && r->Ok_0.plugin_root_revision@ == resolution.plugin_root_revision@,
                    },
            },
    {
        let (host_build, policy) = match self.generation_authority(&resolution.plan) {
            Ok(found) => found,
            Err(error) => return Err(error),
        };
        let app_id = resolution.app_id.clone();
        let authority_digest = resolution.authority_digest.clone();
        let input = PlanGenerationInput {
            app_id: app_id.as_str(),
            authority_digest: authority_digest.as_str(),
            plan: resolution.plan,
            host_build: &host_build,
            policy: &policy,
            artifacts,
            resources: TextMap::new(),
        };
        let ghost closing = input;
        assert(closing_input(closing, self.locked(), resolution, artifacts@));
        match resolver::resolve_plan_generation(input) {
            Ok(generation) => Ok(
                PreparedHostGeneration {
                    distribution_identity: self.identity.clone(),
                    plugin_root_revision: resolution.plugin_root_revision,
                    generation,
                },
            ),
            Err(error) => Err(DistributionError(text::behind("close resolved Generation: ", error.message().as_str()))),
        }
    }
}

/// The input is the one with which a resolution is closed.
pub open spec fn closing_input(
    input: PlanGenerationInput,
    lock: DistributionLock,
    resolution: RuntimeResolution,
    artifacts: Seq<PlanArtifact>,
) -> bool {
    &&& input.app_id@ == resolution.app_id@
    &&& input.authority_digest@ == resolution.authority_digest@
    &&& input.plan == resolution.plan
    &&& authority_of(*input.host_build, *input.policy, lock, resolution.plan.instances@)
    &&& input.artifacts@ == artifacts
    &&& input.resources.entries().len() == 0
}

/// An Artifact is the one that is chosen for an Instance.
pub open spec fn resolved_artifact(lock: DistributionLock, inventory: Seq<BundleInventory>, instance: PlanInstance, artifact: PlanArtifact) -> bool {
    choice(lock, inventory, instance) matches Ok((j, _)) && planned_artifact(artifact, instance, inventory[j], artifact.handle)
}

/// The Artifacts are those of the Instances, one for each, in their order, none skipped.
pub open spec fn resolved_artifacts(
    lock: DistributionLock,
    inventory: Seq<BundleInventory>,
    instances: Seq<PlanInstance>,
    artifacts: Seq<PlanArtifact>,
) -> bool {
    &&& artifacts.len() == instances.len()
    &&& forall|i: int| 0 <= i < artifacts.len() ==> resolved_artifact(lock, inventory, instances[i], #[trigger] artifacts[i])
}

/// A resolution that was checked to be the one of a distribution.
pub struct CheckedResolution<'a> {
    distribution: &'a VerifiedDistribution,
    resolution: RuntimeResolution,
}

/// The Artifacts of a Plan while they are resolved, Instance by Instance.
pub struct ResolvingArtifacts<'a> {
    distribution: &'a VerifiedDistribution,
    resolution: RuntimeResolution,
    inventory: Vec<BundleInventory>,
    artifacts: Vec<PlanArtifact>,
    chosen: Option<ArtifactChoice>,
}

/// What resolving the Artifacts of a Plan needs next.
#[derive(Debug)]
pub enum ArtifactStep {
    /// Open the Artifact in the distribution, then hand the outcome to `opened`.
    Open { relative: String, digest: String, size: u64 },
    /// Every Instance has its Artifact: close the Generation.
    Finished,
}

impl VerifiedDistribution {
    /// Begins to close a resolution over its Artifacts: checks that it is the one of this distribution.
    pub fn begin_resolution(&self, resolution: RuntimeResolution) -> (r: Result<CheckedResolution<'_>, DistributionError>)
        ensures
            match resolution_fault(self.locked(), resolution) {
                Some(detail) => r is Err && r->Err_0@ == detail,
                None => r is Ok && r->Ok_0.source() == *self && r->Ok_0.resolving() == resolution,
            },
    {
        match self.check_resolution(&resolution) {
            Ok(()) => Ok(CheckedResolution { distribution: self, resolution }),
            Err(error) => Err(error),
        }
    }
}

impl<'a> CheckedResolution<'a> {
    /// The distribution.
    pub closed spec fn source(self) -> VerifiedDistribution {
        *self.distribution
    }

    /// The resolution.
    pub closed spec fn resolving(self) -> RuntimeResolution {
        self.resolution
    }

    #[verifier::type_invariant]
    spec fn inv(self) -> bool {
        resolution_fault(self.distribution.locked(), self.resolution) is None
    }

    /// Begins with the reading of the Bundle inventory.
    pub fn begin_artifacts(self, inventory: Result<Vec<BundleInventory>, String>) -> (r: Result<ResolvingArtifacts<'a>, DistributionError>)
        ensures
            match inventory {
                Err(error) => r is Err && r->Err_0@ == "invalid bundle inventory: "@ + error@,
                Ok(items) => if items@.len() > 256 {
                    r is Err && r->Err_0@ == "bundle inventory exceeds 256 entries"@
                } else {
                    r is Ok && r->Ok_0.source() == self.source() && r->Ok_0.resolving() == self.resolving() && r->Ok_0.offers() == items@
                        && r->Ok_0.resolved().len() == 0 && r->Ok_0.pending() is None
                },
            },
    {
        proof {
            use_type_invariant(&self);
        }
        let inventory = match check_inventory(inventory) {
            Ok(inventory) => inventory,
            Err(error) => return Err(error),
        };
        Ok(
            ResolvingArtifacts {
                distribution: self.distribution,
                resolution: self.resolution,
                inventory,
                artifacts: Vec::new(),
                chosen: None,
            },
        )
    }
}

impl<'a> ResolvingArtifacts<'a> {
    /// The distribution.
    pub closed spec fn source(self) -> VerifiedDistribution {
        *self.distribution
    }

    /// The resolution.
    pub closed spec fn resolving(self) -> RuntimeResolution {
        self.resolution
    }

    /// The Bundle inventory.
    pub closed spec fn offers(self) -> Seq<BundleInventory> {
        self.inventory@
    }

    /// The Artifacts of the Instances that were resolved, in their order.
    pub closed spec fn resolved(self) -> Seq<PlanArtifact> {
        self.artifacts@
    }

    /// What was chosen for the next Instance, where its Artifact is being opened.
    pub closed spec fn pending(self) -> Option<(int, Seq<char>)> {
        match self.chosen {
            Some(found) => Some((found.index as int, found.relative@)),
            None => None,
        }
    }

    /// What stays the same while Artifacts are resolved.
    pub open spec fn continues(self, before: Self) -> bool {
        self.source() == before.source() && self.resolving() == before.resolving() && self.offers() == before.offers()
    }

    #[verifier::type_invariant]
    spec fn inv(self) -> bool {
        let lock = self.distribution.locked();
        let instances = self.resolution.plan.instances@;
        &&& resolution_fault(lock, self.resolution) is None
        &&& self.artifacts@.len() <= instances.len()
        &&& forall|i: int|
            0 <= i < self.artifacts@.len() ==> resolved_artifact(lock, self.inventory@, instances[i], #[trigger] self.artifacts@[i])
        &&& self.chosen matches Some(found) ==> {
            &&& self.artifacts@.len() < instances.len()
            &&& found.index < self.inventory@.len()
            &&& choice(lock, self.inventory@, instances[self.artifacts@.len() as int]) == Ok::<(int, Seq<char>), Seq<char>>(
                (found.index as int, found.relative@),
            )
        }
    }

    /// Chooses the Artifact of the next Instance.
    pub fn step(self) -> (r: Result<(Self, ArtifactStep), DistributionError>)
        ensures
            ({
                let instances = self.resolving().plan.instances@;
                let n = self.resolved().len();
                if n >= instances.len() {
                    r is Ok && r->Ok_0.0 == self && r->Ok_0.1 is Finished && resolved_artifacts(
                        self.source().locked(),
                        self.offers(),
                        instances,
                        self.resolved(),
                    )
                } else {
                    match choice(self.source().locked(), self.offers(), instances[n as int]) {
                        Err(detail) => r is Err && r->Err_0@ == detail,
                        Ok((j, relative)) => {
                            &&& r is Ok
                            &&& r->Ok_0.0.continues(self)
                            &&& r->Ok_0.0.resolved() == self.resolved()
                            &&& r->Ok_0.0.pending() == Some((j, relative))
                            &&& r->Ok_0.1 matches ArtifactStep::Open { relative: place, digest, size } && place@ == relative && digest@
                                == self.offers()[j].artifact_digest@ && size == self.offers()[j].artifact_size
                        },
                    }
                }
            }),
    {
        proof {
            use_type_invariant(&self);
        }
        if self.artifacts.len() == self.resolution.plan.instances.len() {
            return Ok((self, ArtifactStep::Finished));
        }
        let ResolvingArtifacts { distribution, resolution, inventory, artifacts, chosen: _ } = self;
        let n: usize = artifacts.len();
        let found = match distribution.select_artifact(&resolution.plan.instances[n], &inventory) {
            Ok(found) => found,
            Err(error) => return Err(error),
        };
        let open = ArtifactStep::Open {
            relative: found.relative.clone(),
            digest: inventory[found.index].artifact_digest.clone(),
            size: inventory[found.index].artifact_size,
        };
        Ok((ResolvingArtifacts { distribution, resolution, inventory, artifacts, chosen: Some(found) }, open))
    }

    /// Takes over the chosen Artifact that was opened, or the text of the error in opening it.
    pub fn opened(self, handle: Result<ArtifactHandle, String>) -> (r: Result<Self, DistributionError>)
        requires
            self.pending() is Some,
        ensures
            match handle {
                Err(error) => r is Err && r->Err_0@ == "open selected Artifact `"@ + self.pending()->Some_0.1 + "`: "@ + error@,
                Ok(handle) => {
                    let instance = self.resolving().plan.instances@[self.resolved().len() as int];
                    &&& r is Ok
                    &&& r->Ok_0.continues(self)
                    &&& r->Ok_0.pending() is None
                    &&& r->Ok_0.resolved().len() == self.resolved().len() + 1
                    &&& r->Ok_0.resolved().drop_last() == self.resolved()
                    &&& r->Ok_0.resolved().last().handle == handle
                    &&& resolved_artifact(self.source().locked(), self.offers(), instance, r->Ok_0.resolved().last())
                },
            },
    {
        proof {
            use_type_invariant(&self);
        }
        let ResolvingArtifacts { distribution, resolution, inventory, artifacts, chosen } = self;
        let found = chosen.unwrap();
        let n: usize = artifacts.len();
        let artifact = match take_artifact(&resolution.plan.instances[n], &inventory, &found, handle) {
            Ok(artifact) => artifact,
            Err(error) => return Err(error),
        };
        let mut artifacts = artifacts;
        let ghost before = artifacts@;
        artifacts.push(artifact);
        assert(artifacts@.drop_last() =~= before);
        Ok(ResolvingArtifacts { distribution, resolution, inventory, artifacts, chosen: None })
    }

    /// Closes the resolution over the Artifacts of all its Instances into one executable Generation.
    pub fn close_generation(self) -> (r: Result<PreparedHostGeneration, DistributionError>)
        requires
            self.resolved().len() == self.resolving().plan.instances@.len(),
        ensures
            resolved_artifacts(self.source().locked(), self.offers(), self.resolving().plan.instances@, self.resolved()),
            resolution_fault(self.source().locked(), self.resolving()) is None,
            match authority_fault(self.source().locked(), self.resolving().plan.instances@) {
                Some(detail) => r is Err && r->Err_0@ == detail,
                None => exists|input: PlanGenerationInput| #[trigger]
                    closing_input(input, self.source().locked(), self.resolving(), self.resolved()) && match input_fault(input) {
                        Some(detail) => r is Err && r->Err_0@ == "close resolved Generation: "@ + detail,
                        None => r is Ok && generation_of(r->Ok_0.generation, input) && r->Ok_0.distribution_identity@ == self.source().digest()
                            && r->Ok_0.plugin_root_revision@ == self.resolving().plugin_root_revision@,
                    },
            },
    {
        proof {
            use_type_invariant(&self);
        }
        self.distribution.close_generation(self.resolution, self.artifacts)
    }
}

} // verus!
