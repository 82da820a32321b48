//! The decisions of the trusted dynamic-library Execution Adapter.
use std::collections::BTreeMap;

use vstd::prelude::*;
use vstd::string::*;
use vstd::utf8::{encode_scalar, encode_utf8};

use crate::digest::digest_syntax;
use crate::failure;
use crate::failure::{invalid_plan, outcome, FailureView, RuntimeFailure};
use crate::generation::ArtifactHandle;
use crate::json;
use crate::json::{read_json, Json, JsonView};
use crate::plan::{AppPlan, PlanInstance};
use crate::text;
use crate::text::texts;

verus! {

/// The ABI version of the tables.
pub const ABI_VERSION: u32 = 1;

/// The call succeeded.
pub const STATUS_OK: u32 = 0;

/// The call ended in a declared Domain Error.
pub const STATUS_DOMAIN_ERROR: u32 = 1;

/// The call must not be followed by another.
pub const STATUS_FATAL: u32 = 2;

/// The longest failure text, in bytes.
pub const MAX_DETAIL: usize = 1024;

/// The encoding of a text in two parts.
proof fn encoding_concat(a: Seq<char>, b: Seq<char>)
    ensures
        encode_utf8(a + b) == encode_utf8(a) + encode_utf8(b),
    decreases a.len(),
{
    if a.len() == 0 {
        assert(a + b =~= b);
    } else {
        assert((a + b).drop_first() =~= a.drop_first() + b);
        encoding_concat(a.drop_first(), b);
        assert((a + b)[0] == a[0]);
        assert(encode_utf8(a + b) =~= encode_utf8(a) + encode_utf8(b));
    }
}

/// What is left of a text once characters are taken off its end until its encoding fits.
pub open spec fn bounded_text(s: Seq<char>, max: nat) -> Seq<char>
    decreases s.len(),
{
    if s.len() == 0 || encode_utf8(s).len() <= max {
        s
    } else {
        bounded_text(s.drop_last(), max)
    }
}

/// The longest prefix that fits is what is left.
proof fn longest_prefix(s: Seq<char>, n: int, max: nat)
    requires
        0 <= n <= s.len(),
        encode_utf8(s.take(n)).len() <= max,
        n == s.len() || encode_utf8(s.take(n + 1)).len() > max,
    ensures
        bounded_text(s, max) == s.take(n),
    decreases s.len(),
{
    if n == s.len() {
        assert(s.take(n) =~= s);
    } else {
        assert(s =~= s.take(n + 1) + s.skip(n + 1));
        encoding_concat(s.take(n + 1), s.skip(n + 1));
        let shorter = s.drop_last();
        assert(shorter.take(n) =~= s.take(n));
        if n < shorter.len() {
            assert(shorter.take(n + 1) =~= s.take(n + 1));
        }
        longest_prefix(shorter, n, max);
    }
}

/// Cuts a failure text to at most [`MAX_DETAIL`] bytes, at a character boundary.
pub fn bounded(detail: String) -> (r: String)
    ensures
        r@ == bounded_text(detail@, MAX_DETAIL as nat),
{
    let chars = text::chars_of(detail.as_str());
    let mut n: usize = 0;
    let mut size: usize = 0;
    proof {
        assert(detail@.take(0) =~= Seq::<char>::empty());
    }
    while n < chars.len()
        invariant
            n <= chars.len(),
            chars@ == detail@,
            size == encode_utf8(detail@.take(n as int)).len(),
            size <= MAX_DETAIL,
        decreases chars.len() - n,
    {
        let scalar: u32 = chars[n] as u32;
        let width: usize = if scalar < 0x80 {
            1
        } else if scalar < 0x800 {
            2
        } else if scalar < 0x10000 {
            3
        } else {
            4
        };
        proof {
            let c = detail@[n as int];
            assert(detail@.take(n + 1) =~= detail@.take(n as int) + seq![c]);
            encoding_concat(detail@.take(n as int), seq![c]);
            vstd::utf8::char_is_scalar(c);
            reveal_with_fuel(encode_utf8, 2);
            assert(seq![c].drop_first() =~= Seq::<char>::empty());
            assert(encode_utf8(seq![c]) =~= encode_scalar(c as u32));
        }
        if size + width > MAX_DETAIL {
            proof {
                longest_prefix(detail@, n as int, MAX_DETAIL as nat);
                assert(detail@.subrange(0, n as int) =~= detail@.take(n as int));
            }
            return detail.as_str().substring_char(0, n).to_owned();
        }
        size = size + width;
        n = n + 1;
    }
    proof {
        longest_prefix(detail@, n as int, MAX_DETAIL as nat);
        assert(detail@.take(n as int) =~= detail@);
    }
    detail
}

/// A Plugin failure with a bounded text.
pub open spec fn plugin_fault(detail: Seq<char>) -> FailureView {
    FailureView::PluginFailure { detail: bounded_text(detail, MAX_DETAIL as nat) }
}

/// A Plugin failure with a bounded text.
fn plugin_failure(detail: &str) -> (r: RuntimeFailure)
    ensures
        r@ == plugin_fault(detail@),
{
    RuntimeFailure::PluginFailure { detail: bounded(detail.to_owned()) }
}

/// Loading the library failed, with the loader's text.
pub fn abi_failure(error: &str) -> (r: RuntimeFailure)
    ensures
        r@ == plugin_fault("native dylib ABI failure: "@ + error@),
{
    plugin_failure(text::behind("native dylib ABI failure: ", error).as_str())
}

/// Stable open execution-class identity.
pub const EXECUTION_CLASS: &'static str = "lenso.native-dylib@1";

/// Exact runtime profile implemented by this Adapter release.
pub const RUNTIME_PROFILE: &'static str = "lenso.native-dylib@1";

/// A buffer that the Host's allocator owns. The pointer is its address.
#[derive(Clone, Copy, Debug, PartialEq, Eq, Structural)]
pub struct LensoBufferV1 {
    pub pointer: usize,
    pub length: usize,
    pub capacity: usize,
}

/// No buffer.
pub open spec fn no_buffer() -> LensoBufferV1 {
    LensoBufferV1 { pointer: 0, length: 0, capacity: 0 }
}

/// No buffer.
pub fn empty_buffer() -> (r: LensoBufferV1)
    ensures
        r == no_buffer(),
{
    LensoBufferV1 { pointer: 0, length: 0, capacity: 0 }
}

/// Bounded native ABI inputs controlled by the Host Execution Policy.
#[derive(Clone, Copy, Debug, PartialEq, Eq, Structural)]
pub struct DylibLimits {
    pub max_request_bytes: usize,
    pub max_result_bytes: usize,
    pub max_descriptor_bytes: usize,
}

impl Default for DylibLimits {
    fn default() -> (r: Self)
        ensures
            r == (DylibLimits { max_request_bytes: 1048576, max_result_bytes: 1048576, max_descriptor_bytes: 262144 }),
    {
        DylibLimits { max_request_bytes: 1024 * 1024, max_result_bytes: 1024 * 1024, max_descriptor_bytes: 256 * 1024 }
    }
}

/// Host-owned trust and platform-signature decision for exact dylib bytes.
pub trait DylibVerifier {
    /// Rejects any Artifact not explicitly admitted for native in-process execution.
    fn verify(&self, artifact: &ArtifactHandle) -> Result<(), RuntimeFailure>;
}

/// Exact-digest verifier for environments whose outer host already checked platform signing.
#[derive(Debug)]
pub struct ExplicitDigestTrust {
    digests: Vec<String>,
}

impl ExplicitDigestTrust {
    /// The digests that are trusted.
    pub closed spec fn trusted(self) -> Set<Seq<char>> {
        texts(self.digests@).to_set()
    }

    /// Creates an explicit allow-list. Wildcard trust is intentionally unavailable.
    pub fn new(digests: Vec<String>) -> (r: Self)
        ensures
            r.trusted() == texts(digests@).to_set(),
    {
        ExplicitDigestTrust { digests }
    }
}

impl DylibVerifier for ExplicitDigestTrust {
    fn verify(&self, artifact: &ArtifactHandle) -> (r: Result<(), RuntimeFailure>)
        ensures
            outcome(r) == if self.trusted().contains(artifact.digest@) {
                Ok::<(), FailureView>(())
            } else {
                Err(invalid_plan("native dylib `"@ + artifact.digest@ + "` lacks an exact explicit trust decision"@))
            },
    {
        if text::contains(&self.digests, artifact.digest.as_str()) {
            Ok(())
        } else {
            Err(failure::invalid_about("native dylib `", artifact.digest.as_str(), "` lacks an exact explicit trust decision"))
        }
    }
}

/// One line of a text: what stands between two line feeds, or before the first or behind the last. A
/// carriage return before the line feed is no part of the line.
pub open spec fn is_line(s: Seq<char>, line: Seq<char>) -> bool {
    exists|start: int, end: int| #[trigger] line_at(s, start, end) && line == line_text(s, start, end)
}

/// A line stands at these positions.
pub open spec fn line_at(s: Seq<char>, start: int, end: int) -> bool {
    &&& 0 <= start <= end <= s.len()
    &&& start < s.len()
    &&& start == 0 || s[start - 1] == '\n'
    &&& end == s.len() || s[end] == '\n'
    &&& forall|i: int| start <= i < end ==> #[trigger] s[i] != '\n'
}

/// The text of the line at these positions.
pub open spec fn line_text(s: Seq<char>, start: int, end: int) -> Seq<char> {
    if end < s.len() && start < end && s[end - 1] == '\r' {
        s.subrange(start, end - 1)
    } else {
        s.subrange(start, end)
    }
}

/// Decides whether a text has a line.
pub fn has_line(s: &str, line: &str) -> (r: bool)
    ensures
        r == is_line(s@, line@),
{
    let chars = text::chars_of(s);
    let wanted = text::chars_of(line);
    let mut start: usize = 0;
    while start < chars.len()
        invariant
            start <= chars.len(),
            chars@ == s@,
            wanted@ == line@,
            start == 0 || chars@[start - 1] == '\n',
            forall|a: int, b: int| 0 <= a < start && #[trigger] line_at(s@, a, b) ==> line@ != line_text(s@, a, b),
        decreases chars.len() - start,
    {
        let mut end: usize = start;
        while end < chars.len() && chars[end] != '\n'
            invariant
                start <= end <= chars.len(),
                forall|i: int| start <= i < end ==> #[trigger] chars@[i] != '\n',
            decreases chars.len() - end,
        {
            end = end + 1;
        }
        let last: usize = if end < chars.len() && start < end && chars[end - 1] == '\r' {
            end - 1
        } else {
            end
        };
        assert(line_at(s@, start as int, end as int));
        let mut equal: bool = last - start == wanted.len();
        let mut i: usize = 0;
        while equal && i < wanted.len()
            invariant
                i <= wanted.len(),
                start <= last <= chars.len(),
                equal ==> last - start == wanted.len(),
                equal ==> forall|k: int| 0 <= k < i ==> #[trigger] wanted@[k] == chars@[start + k],
                !equal ==> wanted@ != chars@.subrange(start as int, last as int),
            decreases wanted.len() - i,
        {
            if wanted[i] != chars[start + i] {
                assert(chars@.subrange(start as int, last as int)[i as int] == chars@[start + i]);
                equal = false;
            }
            i = i + 1;
        }
        if equal {
            assert(wanted@ =~= chars@.subrange(start as int, last as int));
            return true;
        }
        proof {
            assert forall|a: int, b: int| 0 <= a <= end && #[trigger] line_at(s@, a, b) implies line@ != line_text(s@, a, b) by {
                if a == start {
                    if b < end {
                        assert(s@[b] != '\n');
                    } else if b > end {
                        assert(s@[end as int] != '\n');
                    }
                    assert(b == end);
                } else if a > start {
                    assert(s@[a - 1] != '\n');
                }
            }
        }
        if end == chars.len() {
            return false;
        }
        start = end + 1;
    }
    false
}

/// Requires a valid strict code signature and one exact Team Identifier.
#[derive(Debug)]
pub struct CodeSignatureVerifier {
    team_identifier: String,
    digests: Vec<String>,
}

/// What checking a signature means: whether the tool succeeded, or why it did not run.
pub open spec fn signature_judged(verification: Result<bool, String>, r: Result<(), RuntimeFailure>) -> bool {
    outcome(r) == match verification {
        Ok(true) => Ok::<(), FailureView>(()),
        Ok(false) => Err(invalid_plan("native dylib has an invalid code signature"@)),
        Err(error) => Err(FailureView::Internal { detail: "failed to execute codesign: "@ + error@ }),
    }
}

/// What inspecting a signature means: whether the tool succeeded and what it reported, or why it did not
/// run.
pub open spec fn identity_judged(team: Seq<char>, details: Result<(bool, String), String>, r: Result<(), RuntimeFailure>) -> bool {
    outcome(r) == match details {
        Ok((success, report)) => if success && is_line(report@, "TeamIdentifier="@ + team) {
            Ok::<(), FailureView>(())
        } else {
            Err(invalid_plan("native dylib Team Identifier is not admitted"@))
        },
        Err(error) => Err(FailureView::Internal { detail: "failed to inspect codesign identity: "@ + error@ }),
    }
}

impl CodeSignatureVerifier {
    /// The Team Identifier that is required.
    pub closed spec fn team(self) -> Seq<char> {
        self.team_identifier@
    }

    /// The digests that are trusted.
    pub closed spec fn trusted(self) -> Set<Seq<char>> {
        texts(self.digests@).to_set()
    }

    /// Creates the verifier for one Team Identifier and an explicit allow-list.
    pub fn new(team_identifier: String, digests: Vec<String>) -> (r: Self)
        ensures
            r.team() == team_identifier@,
            r.trusted() == texts(digests@).to_set(),
    {
        CodeSignatureVerifier { team_identifier, digests }
    }

    /// Checks that the digest is trusted, before any tool runs.
    pub fn check_trust(&self, artifact: &ArtifactHandle) -> (r: Result<(), RuntimeFailure>)
        ensures
            outcome(r) == if self.trusted().contains(artifact.digest@) {
                Ok::<(), FailureView>(())
            } else {
                Err(invalid_plan("native dylib digest lacks explicit trust"@))
            },
    {
        if text::contains(&self.digests, artifact.digest.as_str()) {
            Ok(())
        } else {
            Err(failure::invalid("native dylib digest lacks explicit trust"))
        }
    }

    /// Judges what checking the signature came to: whether the tool succeeded, or why it did not run.
    pub fn judge_signature(&self, verification: Result<bool, String>) -> (r: Result<(), RuntimeFailure>)
        ensures
            signature_judged(verification, r),
    {
        match verification {
            Ok(success) => if success {
                Ok(())
            } else {
                Err(failure::invalid("native dylib has an invalid code signature"))
            },
            Err(error) => {
                Err(RuntimeFailure::Internal { detail: text::behind("failed to execute codesign: ", error.as_str()) })
            },
        }
    }

    /// Judges what inspecting the signature came to: whether the tool succeeded and what it reported,
    /// or why it did not run.
    pub fn judge_identity(&self, details: Result<(bool, String), String>) -> (r: Result<(), RuntimeFailure>)
        ensures
            identity_judged(self.team(), details, r),
    {
        match details {
            Ok((success, report)) => {
                let mut expected = "TeamIdentifier=".to_owned();
                expected.append(self.team_identifier.as_str());
                if success && has_line(report.as_str(), expected.as_str()) {
                    Ok(())
                } else {
                    Err(failure::invalid("native dylib Team Identifier is not admitted"))
                }
            },
            Err(error) => {
                Err(RuntimeFailure::Internal { detail: text::behind("failed to inspect codesign identity: ", error.as_str()) })
            },
        }
    }
}

/// The root table that a library returned, as far as it is judged: its pointers by whether they are set.
#[derive(Clone, Copy, Debug, PartialEq, Eq, Structural)]
pub struct RootTable {
    pub abi_version: u32,
    pub struct_size: usize,
    pub has_invoke: bool,
    pub has_shutdown: bool,
    pub reserved_is_zero: bool,
    pub has_descriptor: bool,
    pub descriptor_json_len: usize,
}

/// The table is one of this ABI version: `struct_size` is the size of the table.
pub open spec fn sound_root(root: RootTable, struct_size: usize, limits: DylibLimits) -> bool {
    &&& root.abi_version == ABI_VERSION
    &&& root.struct_size == struct_size
    &&& root.has_invoke
    &&& root.reserved_is_zero
    &&& root.descriptor_json_len <= limits.max_descriptor_bytes
    &&& root.descriptor_json_len == 0 || root.has_descriptor
}

/// Validates the root table.
pub fn validate_root(root: &RootTable, struct_size: usize, limits: &DylibLimits) -> (r: Result<(), RuntimeFailure>)
    ensures
        outcome(r) == if sound_root(*root, struct_size, *limits) {
            Ok::<(), FailureView>(())
        } else {
            Err(plugin_fault("native dylib returned an invalid V1 root table"@))
        },
{
    if root.abi_version != ABI_VERSION || root.struct_size != struct_size || !root.has_invoke || !root.reserved_is_zero
        || root.descriptor_json_len > limits.max_descriptor_bytes || (root.descriptor_json_len != 0 && !root.has_descriptor) {
        return Err(plugin_failure("native dylib returned an invalid V1 root table"));
    }
    Ok(())
}

/// One Capability as the Plan binds it or as a library declares it.
#[derive(Debug)]
pub struct CapabilityAbiDescriptor {
    pub capability_id: String,
    pub descriptor_version: String,
    pub request_operations: Vec<String>,
}

/// What a Capability says.
pub open spec fn capability_facts(capability: CapabilityAbiDescriptor) -> (Seq<char>, Seq<char>, Seq<Seq<char>>) {
    (capability.capability_id@, capability.descriptor_version@, texts(capability.request_operations@))
}

/// The descriptor of a library.
#[derive(Debug)]
pub struct DylibDescriptor {
    pub capabilities: Vec<CapabilityAbiDescriptor>,
}

/// The first of the first `n` Capabilities that is not declared as planned.
pub open spec fn first_mismatch(planned: Seq<CapabilityAbiDescriptor>, declared: Seq<CapabilityAbiDescriptor>, n: nat) -> Option<int>
    decreases n,
{
    if n == 0 {
        None
    } else {
        match first_mismatch(planned, declared, (n - 1) as nat) {
            Some(i) => Some(i),
            None => if capability_facts(planned[n - 1]) != capability_facts(declared[n - 1]) {
                Some(n - 1)
            } else {
                None
            },
        }
    }
}

/// Why a descriptor does not fit the Plan.
pub open spec fn descriptor_fault(planned: Seq<CapabilityAbiDescriptor>, descriptor: Result<DylibDescriptor, String>) -> Option<FailureView> {
    match descriptor {
        Err(error) => Some(
            invalid_plan(bounded_text("native dylib descriptor is invalid: "@ + error@, MAX_DETAIL as nat)),
        ),
        Ok(found) => if found.capabilities@.len() != planned.len() {
            Some(plugin_fault("native dylib Capability table does not match the Plan"@))
        } else {
            match first_mismatch(planned, found.capabilities@, planned.len()) {
                Some(i) => Some(FailureView::ProtocolViolation { capability: planned[i].capability_id@ }),
                None => None,
            }
        },
    }
}

/// Decides whether two lists hold the same texts in the same order.
pub fn same_texts(a: &Vec<String>, b: &Vec<String>) -> (r: bool)
    ensures
        r == (texts(a@) == texts(b@)),
{
    if a.len() != b.len() {
        assert(texts(a@).len() != texts(b@).len());
        return false;
    }
    let mut i: usize = 0;
    while i < a.len()
        invariant
            i <= a.len() == b.len(),
            forall|k: int| 0 <= k < i ==> (#[trigger] a@[k])@ == b@[k]@,
        decreases a.len() - i,
    {
        if !text::same(a[i].as_str(), b[i].as_str()) {
            assert(texts(a@)[i as int] != texts(b@)[i as int]);
            return false;
        }
        i = i + 1;
    }
    assert(texts(a@) =~= texts(b@));
    true
}

/// Validates the descriptor that a library declared, or the text of the error in reading it.
pub fn validate_descriptor(
    capabilities: &Vec<CapabilityAbiDescriptor>,
    descriptor: &Result<DylibDescriptor, String>,
) -> (r: Result<(), RuntimeFailure>)
    ensures
        outcome(r) == match descriptor_fault(capabilities@, *descriptor) {
            Some(fault) => Err::<(), FailureView>(fault),
            None => Ok(()),
        },
{
    match descriptor {
        Err(error) => Err(
            RuntimeFailure::InvalidResolvedPlan { detail: bounded(text::behind("native dylib descriptor is invalid: ", error.as_str())) },
        ),
        Ok(found) => {
            if found.capabilities.len() != capabilities.len() {
                return Err(plugin_failure("native dylib Capability table does not match the Plan"));
            }
            let mut i: usize = 0;
            while i < capabilities.len()
                invariant
                    i <= capabilities.len() == found.capabilities.len(),
                    first_mismatch(capabilities@, found.capabilities@, i as nat) is None,
                    *descriptor == Ok::<DylibDescriptor, String>(*found),
                decreases capabilities.len() - i,
            {
                let planned = &capabilities[i];
                let declared = &found.capabilities[i];
                if !text::same(declared.capability_id.as_str(), planned.capability_id.as_str()) || !text::same(
                    declared.descriptor_version.as_str(),
                    planned.descriptor_version.as_str(),
                ) || !same_texts(&declared.request_operations, &planned.request_operations) {
                    proof {
                        mismatch_stays(capabilities@, found.capabilities@, (i + 1) as nat, capabilities@.len());
                    }
                    return Err(RuntimeFailure::ProtocolViolation { capability: planned.capability_id.clone() });
                }
                i = i + 1;
            }
            Ok(())
        },
    }
}

/// A first mismatch stays the first.
proof fn mismatch_stays(planned: Seq<CapabilityAbiDescriptor>, declared: Seq<CapabilityAbiDescriptor>, n: nat, m: nat)
    requires
        n <= m,
        first_mismatch(planned, declared, n) is Some,
    ensures
        first_mismatch(planned, declared, m) == first_mismatch(planned, declared, n),
    decreases m,
{
    if n < m {
        mismatch_stays(planned, declared, n, (m - 1) as nat);
    }
}

/// One buffer that the Host holds for a library: its bytes and the capacity under which it was handed
/// out.
#[derive(Debug)]
pub struct Allocation {
    pub bytes: Vec<u8>,
    pub capacity: usize,
}

/// The buffers that the Host holds for a library, by their addresses.
#[derive(Debug)]
pub struct AllocatorState {
    allocations: BTreeMap<usize, Allocation>,
}

impl View for AllocatorState {
    type V = Map<usize, Allocation>;

    closed spec fn view(&self) -> Map<usize, Allocation> {
        self.allocations@
    }
}

/// Whether a request to allocate is served: it names the Host's allocator and some capacity.
pub open spec fn allocatable(has_context: bool, capacity: usize) -> bool {
    has_context && capacity != 0
}

/// How a request to reallocate begins, and the buffers after it.
pub open spec fn reallocation_begun(
    before: Map<usize, Allocation>,
    has_context: bool,
    buffer: LensoBufferV1,
    new_capacity: usize,
    r: Option<Vec<u8>>,
    after: Map<usize, Allocation>,
) -> bool {
    &&& r is Some <==> has_context && new_capacity >= buffer.length && before.contains_key(buffer.pointer) && before[buffer.pointer].capacity
        == buffer.capacity
    &&& r is None ==> after == before
    &&& r is Some ==> after == before.remove(buffer.pointer)
    &&& r is Some ==> r->Some_0@ == grown(before[buffer.pointer].bytes@, new_capacity as nat)
}

/// What a request to free comes to, and the buffers after it.
pub open spec fn freed(before: Map<usize, Allocation>, has_context: bool, buffer: LensoBufferV1, r: u32, after: Map<usize, Allocation>) -> bool {
    &&& r == if has_context && before.contains_key(buffer.pointer) && before[buffer.pointer].capacity == buffer.capacity {
        STATUS_OK
    } else {
        STATUS_FATAL
    }
    &&& after == if has_context {
        before.remove(buffer.pointer)
    } else {
        before
    }
}

impl AllocatorState {
    /// No buffers.
    pub fn new() -> (r: Self)
        ensures
            r@ == Map::<usize, Allocation>::empty(),
    {
        AllocatorState { allocations: BTreeMap::new() }
    }

    /// Decides whether no buffer is held.
    pub fn is_empty(&self) -> (r: bool)
        ensures
            r == self@.is_empty(),
    {
        self.allocations.is_empty()
    }

    /// Begins to serve a request to allocate: the zeroed bytes, or nothing where it is not served.
    pub fn begin_allocate(has_context: bool, capacity: usize) -> (r: Option<Vec<u8>>)
        ensures
            r is Some <==> allocatable(has_context, capacity),
            r is Some ==> r->Some_0@ == Seq::new(capacity as nat, |i: int| 0u8),
    {
        if !has_context || capacity == 0 {
            return None;
        }
        let bytes: Vec<u8> = vec![0u8; capacity];
        assert(bytes@ =~= Seq::new(capacity as nat, |i: int| 0u8));
        Some(bytes)
    }

    /// Holds the bytes at an address and hands the buffer out with `length` bytes in use.
    pub fn hold(&mut self, address: usize, bytes: Vec<u8>, capacity: usize, length: usize) -> (r: LensoBufferV1)
        ensures
            final(self)@ == old(self)@.insert(address, (Allocation { bytes, capacity })),
            r == (LensoBufferV1 { pointer: address, length, capacity }),
    {
        broadcast use vstd::std_specs::btree::group_btree_axioms;
        let _ = self.allocations.insert(address, Allocation { bytes, capacity });
        LensoBufferV1 { pointer: address, length, capacity }
    }

    /// Begins to serve a request to reallocate: the bytes of the buffer, grown to the new capacity,
    /// leave the table. A request that is not served leaves the table as it is.
    pub fn begin_reallocate(&mut self, has_context: bool, buffer: LensoBufferV1, new_capacity: usize) -> (r: Option<Vec<u8>>)
        ensures
            reallocation_begun(old(self)@, has_context, buffer, new_capacity, r, final(self)@),
    {
        broadcast use vstd::std_specs::btree::group_btree_axioms;
        if !has_context || new_capacity < buffer.length {
            return None;
        }
        let allocation = match self.allocations.remove(&buffer.pointer) {
            Some(allocation) => allocation,
            None => {
                assert(self@ =~= old(self)@);
                return None;
            },
        };
        if allocation.capacity != buffer.capacity {
            let _ = self.allocations.insert(buffer.pointer, allocation);
            assert(self@ =~= old(self)@);
            return None;
        }
        assert(self@ =~= old(self)@.remove(buffer.pointer));
        let mut bytes = allocation.bytes;
        let ghost before = bytes@;
        if new_capacity > bytes.len() {
            bytes.resize(new_capacity, 0u8);
            assert(bytes@.subrange(0, before.len() as int) == before);
            assert forall|i: int| 0 <= i < bytes@.len() implies #[trigger] bytes@[i] == grown(before, new_capacity as nat)[i] by {
                if i < before.len() {
                    assert(bytes@.subrange(0, before.len() as int)[i] == bytes@[i]);
                }
            }
            assert(bytes@ =~= grown(before, new_capacity as nat));
        }
        Some(bytes)
    }

    /// Serves a request to free a buffer. The buffer at the address leaves the table either way.
    pub fn free(&mut self, has_context: bool, buffer: LensoBufferV1) -> (r: u32)
        ensures
            freed(old(self)@, has_context, buffer, r, final(self)@),
    {
        broadcast use vstd::std_specs::btree::group_btree_axioms;
        if !has_context {
            return STATUS_FATAL;
        }
        let removed = self.allocations.remove(&buffer.pointer);
        assert(self@ =~= old(self)@.remove(buffer.pointer));
        match removed {
            Some(allocation) => if allocation.capacity == buffer.capacity {
                STATUS_OK
            } else {
                STATUS_FATAL
            },
            None => STATUS_FATAL,
        }
    }
}

/// Bytes with zeroes behind them, up to a length.
pub open spec fn grown(bytes: Seq<u8>, length: nat) -> Seq<u8> {
    if length > bytes.len() {
        bytes + Seq::new((length - bytes.len()) as nat, |i: int| 0u8)
    } else {
        bytes
    }
}

/// What an invocation handed back.
#[derive(Debug, PartialEq, Eq)]
pub enum JsonInvocationOutcome {
    Success(Json),
    DomainError(Json),
}

/// What an invocation handed back, by its tree.
pub enum OutcomeView {
    Success(JsonView),
    DomainError(JsonView),
}

/// The facts of what a call into a library came to.
pub open spec fn call_view(r: Result<JsonInvocationOutcome, RuntimeFailure>) -> Result<OutcomeView, FailureView> {
    match r {
        Ok(JsonInvocationOutcome::Success(value)) => Ok(OutcomeView::Success(value.model())),
        Ok(JsonInvocationOutcome::DomainError(value)) => Ok(OutcomeView::DomainError(value.model())),
        Err(failure) => Err(failure@),
    }
}

/// One loaded library: its limits, the buffers that it holds, and whether it can still be called.
#[derive(Debug)]
pub struct LoadedDylib {
    pub allocator: AllocatorState,
    pub limits: DylibLimits,
    pub failed: bool,
    pub shutdown: bool,
}

/// Why an output buffer is not taken over.
pub open spec fn output_fault(allocations: Map<usize, Allocation>, limits: DylibLimits, output: LensoBufferV1) -> Option<FailureView> {
    if output.length > limits.max_result_bytes || output.length > output.capacity {
        Some(plugin_fault("native dylib returned an invalid output buffer length"@))
    } else if !allocations.contains_key(output.pointer) {
        Some(FailureView::PluginFailure { detail: "native dylib returned a buffer not owned by the host allocator"@ })
    } else if allocations[output.pointer].capacity != output.capacity {
        Some(plugin_fault("native dylib changed output buffer ownership metadata"@))
    } else {
        None
    }
}

/// The bytes in use of an output buffer that is taken over.
pub open spec fn output_bytes(allocations: Map<usize, Allocation>, output: LensoBufferV1) -> Seq<u8> {
    let bytes = allocations[output.pointer].bytes@;
    if output.length <= bytes.len() {
        bytes.subrange(0, output.length as int)
    } else {
        bytes
    }
}

/// What a completed call comes to: `status` is what the library returned, if it did not unwind.
pub open spec fn call_result(
    allocations: Map<usize, Allocation>,
    limits: DylibLimits,
    status: Option<u32>,
    output: LensoBufferV1,
) -> Result<OutcomeView, FailureView> {
    match status {
        None => Err(FailureView::PluginFailure { detail: "native dylib panicked across its invoke callback"@ }),
        Some(code) => match output_fault(allocations, limits, output) {
            Some(fault) => Err(fault),
            None => match read_json(output_bytes(allocations, output)) {
                Err(error) => Err(plugin_fault("native dylib returned invalid JSON: "@ + error)),
                Ok(tree) => if code == STATUS_OK {
                    Ok(OutcomeView::Success(tree))
                } else if code == STATUS_DOMAIN_ERROR {
                    Ok(OutcomeView::DomainError(tree))
                } else {
                    Err(plugin_fault("native dylib returned a fatal status"@))
                },
            },
        },
    }
}

/// The completed call leaves the library unusable.
pub open spec fn call_is_fatal(allocations: Map<usize, Allocation>, limits: DylibLimits, status: Option<u32>, output: LensoBufferV1) -> bool {
    match status {
        None => false,
        Some(code) => match output_fault(allocations, limits, output) {
            Some(_) => output.length > limits.max_result_bytes || output.length > output.capacity || allocations.contains_key(output.pointer),
            None => read_json(output_bytes(allocations, output)) is Ok && code != STATUS_OK && code != STATUS_DOMAIN_ERROR,
        },
    }
}

/// The buffers that are left once an output buffer was looked at.
pub open spec fn after_output(allocations: Map<usize, Allocation>, limits: DylibLimits, output: LensoBufferV1) -> Map<usize, Allocation> {
    if output.length > limits.max_result_bytes || output.length > output.capacity {
        allocations
    } else {
        allocations.remove(output.pointer)
    }
}

/// How a library is loaded: `entry` is what its entry point returned, if it did not unwind, with the
/// root table and the size of one.
pub open spec fn loaded(
    entry: (Option<u32>, RootTable, usize),
    capabilities: Seq<CapabilityAbiDescriptor>,
    descriptor: Result<DylibDescriptor, String>,
    allocator: AllocatorState,
    limits: DylibLimits,
    r: Result<LoadedDylib, RuntimeFailure>,
) -> bool {
    match entry.0 {
        None => r is Err && r->Err_0@ == (FailureView::PluginFailure { detail: "native dylib panicked while constructing its root table"@ }),
        Some(code) => if code != STATUS_OK {
            r is Err && r->Err_0@ == plugin_fault("native dylib rejected V1 host table"@)
        } else if !sound_root(entry.1, entry.2, limits) {
            r is Err && r->Err_0@ == plugin_fault("native dylib returned an invalid V1 root table"@)
        } else {
            match descriptor_fault(capabilities, descriptor) {
                Some(fault) => r is Err && r->Err_0@ == fault,
                None => r is Ok && r->Ok_0.allocator == allocator && r->Ok_0.limits == limits && !r->Ok_0.failed && !r->Ok_0.shutdown,
            }
        },
    }
}

/// Whether a library may be called with a request.
pub open spec fn call_admitted(dylib: LoadedDylib, request_len: usize, r: Result<(), RuntimeFailure>) -> bool {
    outcome(r) == if dylib.failed || dylib.shutdown {
        Err::<(), FailureView>(plugin_fault("native dylib generation is retired"@))
    } else if request_len > dylib.limits.max_request_bytes {
        Err(plugin_fault("native dylib request exceeds max_request_bytes"@))
    } else {
        Ok(())
    }
}

/// What a call comes to, and the library after it.
pub open spec fn call_finished(
    before: LoadedDylib,
    status: Option<u32>,
    output: LensoBufferV1,
    r: Result<JsonInvocationOutcome, RuntimeFailure>,
    after: LoadedDylib,
) -> bool {
    &&& call_view(r) == call_result(before.allocator@, before.limits, status, output)
    &&& after.allocator@ == if status is Some {
        after_output(before.allocator@, before.limits, output)
    } else {
        before.allocator@
    }
    &&& after.limits == before.limits
    &&& after.shutdown == before.shutdown
    &&& after.failed == (before.failed || call_is_fatal(before.allocator@, before.limits, status, output))
}

/// How a shutdown begins, and the library after it.
pub open spec fn shutdown_begun(before: LoadedDylib, has_callback: bool, r: bool, after: LoadedDylib) -> bool {
    &&& r == (has_callback && !before.shutdown)
    &&& after.shutdown
    &&& after.failed == before.failed
    &&& after.limits == before.limits
    &&& after.allocator == before.allocator
}

/// What a shutdown comes to once the callback has run.
pub open spec fn shutdown_judged(dylib: LoadedDylib, status: Option<u32>, r: Result<(), RuntimeFailure>) -> bool {
    outcome(r) == match status {
        None => Err::<(), FailureView>(FailureView::PluginFailure { detail: "native dylib panicked across its shutdown callback"@ }),
        Some(code) => if code != STATUS_OK {
            Err(plugin_fault("native dylib shutdown returned a fatal status"@))
        } else if !dylib.allocator@.is_empty() {
            Err(plugin_fault("native dylib leaked host-owned output buffers"@))
        } else {
            Ok(())
        },
    }
}

impl LoadedDylib {
    /// A library that was just loaded. `status` is what its entry point returned, if it did not unwind.
    pub fn load(
        status: Option<u32>,
        root: &RootTable,
        struct_size: usize,
        capabilities: &Vec<CapabilityAbiDescriptor>,
        descriptor: &Result<DylibDescriptor, String>,
        allocator: AllocatorState,
        limits: DylibLimits,
    ) -> (r: Result<Self, RuntimeFailure>)
        ensures
            loaded((status, *root, struct_size), capabilities@, *descriptor, allocator, limits, r),
    {
        match status {
            None => return Err(
                RuntimeFailure::PluginFailure { detail: "native dylib panicked while constructing its root table".to_owned() },
            ),
            Some(code) => if code != STATUS_OK {
                return Err(plugin_failure("native dylib rejected V1 host table"));
            },
        }
        match validate_root(root, struct_size, &limits) {
            Ok(()) => {},
            Err(failure) => return Err(failure),
        }
        match validate_descriptor(capabilities, descriptor) {
            Ok(()) => {},
            Err(failure) => return Err(failure),
        }
        Ok(LoadedDylib { allocator, limits, failed: false, shutdown: false })
    }

    /// Decides whether the library may be called with a request.
    pub fn begin_invoke(&self, request_len: usize) -> (r: Result<(), RuntimeFailure>)
        ensures
            call_admitted(*self, request_len, r),
    {
        if self.failed || self.shutdown {
            return Err(plugin_failure("native dylib generation is retired"));
        }
        if request_len > self.limits.max_request_bytes {
            return Err(plugin_failure("native dylib request exceeds max_request_bytes"));
        }
        Ok(())
    }

    /// Takes over an output buffer.
    pub fn take_output(&mut self, output: LensoBufferV1) -> (r: Result<Vec<u8>, RuntimeFailure>)
        ensures
            match output_fault(old(self).allocator@, old(self).limits, output) {
                Some(fault) => r is Err && r->Err_0@ == fault,
                None => r is Ok && r->Ok_0@ == output_bytes(old(self).allocator@, output),
            },
            final(self).allocator@ == after_output(old(self).allocator@, old(self).limits, output),
            final(self).limits == old(self).limits,
            final(self).shutdown == old(self).shutdown,
            final(self).failed == (old(self).failed || (output_fault(old(self).allocator@, old(self).limits, output) is Some && (
            output.length > old(self).limits.max_result_bytes || output.length > output.capacity || old(self).allocator@.contains_key(
                output.pointer,
            )))),
    {
        broadcast use vstd::std_specs::btree::group_btree_axioms;
        if output.length > self.limits.max_result_bytes || output.length > output.capacity {
            self.failed = true;
            return Err(plugin_failure("native dylib returned an invalid output buffer length"));
        }
        let allocation = match self.allocator.allocations.remove(&output.pointer) {
            Some(allocation) => allocation,
            None => {
                assert(self.allocator@ =~= old(self).allocator@.remove(output.pointer));
                return Err(
                    RuntimeFailure::PluginFailure { detail: "native dylib returned a buffer not owned by the host allocator".to_owned() },
                );
            },
        };
        assert(self.allocator@ =~= old(self).allocator@.remove(output.pointer));
        if allocation.capacity != output.capacity {
            self.failed = true;
            return Err(plugin_failure("native dylib changed output buffer ownership metadata"));
        }
        let mut bytes = allocation.bytes;
        bytes.truncate(output.length);
        Ok(bytes)
    }

    /// Completes a call: `status` is what the library returned, if it did not unwind.
    pub fn finish_invoke(&mut self, status: Option<u32>, output: LensoBufferV1) -> (r: Result<JsonInvocationOutcome, RuntimeFailure>)
        ensures
            call_finished(*old(self), status, output, r, *final(self)),
    {
        let code: u32 = match status {
            Some(code) => code,
            None => return Err(RuntimeFailure::PluginFailure { detail: "native dylib panicked across its invoke callback".to_owned() }),
        };
        let bytes = match self.take_output(output) {
            Ok(bytes) => bytes,
            Err(failure) => return Err(failure),
        };
        let value = match json::from_bytes(bytes.as_slice()) {
            Ok(value) => value,
            Err(error) => return Err(plugin_failure(text::behind("native dylib returned invalid JSON: ", error.as_str()).as_str())),
        };
        if code == STATUS_OK {
            Ok(JsonInvocationOutcome::Success(value))
        } else if code == STATUS_DOMAIN_ERROR {
            Ok(JsonInvocationOutcome::DomainError(value))
        } else {
            self.failed = true;
            Err(plugin_failure("native dylib returned a fatal status"))
        }
    }

    /// Begins the shutdown: tells whether the library's callback has to run.
    pub fn begin_shutdown(&mut self, has_callback: bool) -> (r: bool)
        ensures
            shutdown_begun(*old(self), has_callback, r, *final(self)),
    {
        let first: bool = !self.shutdown;
        self.shutdown = true;
        has_callback && first
    }

    /// Judges the shutdown once the callback has run: `status` is what it returned, if it did not unwind.
    pub fn finish_shutdown(&self, status: Option<u32>) -> (r: Result<(), RuntimeFailure>)
        ensures
            shutdown_judged(*self, status, r),
    {
        let code: u32 = match status {
            Some(code) => code,
            None => return Err(RuntimeFailure::PluginFailure { detail: "native dylib panicked across its shutdown callback".to_owned() }),
        };
        if code != STATUS_OK {
            return Err(plugin_failure("native dylib shutdown returned a fatal status"));
        }
        if !self.allocator.is_empty() {
            return Err(plugin_failure("native dylib leaked host-owned output buffers"));
        }
        Ok(())
    }
}

/// The buffer that the library returned cannot be taken over twice.
pub proof fn output_is_taken_once(allocations: Map<usize, Allocation>, limits: DylibLimits, output: LensoBufferV1)
    requires
        output_fault(allocations, limits, output) is None,
    ensures
        output_fault(after_output(allocations, limits, output), limits, output) == Some(
            FailureView::PluginFailure { detail: "native dylib returned a buffer not owned by the host allocator"@ },
        ),
{
}

/// What a waiting caller of a worker saw first.
#[derive(Debug)]
pub enum InvokeEvent {
    /// The worker answered.
    Answered(Result<JsonInvocationOutcome, RuntimeFailure>),
    /// The worker went away without an answer.
    WorkerStopped,
    /// The caller cancelled the invocation.
    Cancelled { request_id: u64 },
}

/// What becomes of the worker once its generation stops.
#[derive(Clone, Copy, Debug, PartialEq, Eq, Structural)]
pub enum WorkerStop {
    /// The generation had stopped before.
    Nothing,
    /// The worker is told to stop and is waited for.
    Join,
    /// The worker is told to stop and is left to itself: it is inside a call that cannot be preempted.
    Detach,
}

/// One generation of a library on its own worker.
#[derive(Clone, Copy, Debug, PartialEq, Eq, Structural)]
pub struct DylibGeneration {
    pub failed: bool,
    pub busy: bool,
    pub stopped: bool,
}

/// What a worker that finished a call does next, and its generation after it.
pub open spec fn worker_finished(before: DylibGeneration, call_failed: bool, r: bool, after: DylibGeneration) -> bool {
    &&& after == (DylibGeneration { busy: false, failed: before.failed || call_failed, ..before })
    &&& r == !after.failed
}

/// Whether a caller may hand the worker a call.
pub open spec fn worker_takes_calls(generation: DylibGeneration, r: Result<(), RuntimeFailure>) -> bool {
    outcome(r) == if generation.failed {
        Err::<(), FailureView>(FailureView::PluginFailure { detail: "native dylib generation is retired"@ })
    } else {
        Ok(())
    }
}

/// What a caller is told of its call, and the generation after it.
pub open spec fn call_settled(
    before: DylibGeneration,
    event: InvokeEvent,
    r: Result<JsonInvocationOutcome, RuntimeFailure>,
    after: DylibGeneration,
) -> bool {
    &&& match event {
        InvokeEvent::Answered(result) => r == result,
        InvokeEvent::WorkerStopped => r is Err && r->Err_0@ == (FailureView::PluginFailure { detail: "native dylib worker stopped"@ }),
        InvokeEvent::Cancelled { request_id } => r is Err && r->Err_0@ == (FailureView::Cancelled { request_id }),
    }
    &&& after == (DylibGeneration { failed: before.failed || event is Cancelled, ..before })
}

/// What becomes of the worker of a generation that stops, and the generation after it.
pub open spec fn generation_stopped(before: DylibGeneration, r: WorkerStop, after: DylibGeneration) -> bool {
    &&& before.stopped ==> r == WorkerStop::Nothing && after == before
    &&& !before.stopped ==> after == (DylibGeneration { failed: true, stopped: true, busy: before.busy }) && r == if before.busy {
        WorkerStop::Detach
    } else {
        WorkerStop::Join
    }
}

impl DylibGeneration {
    /// Judges how the worker started: whether it could be spawned, and what it then reported, if it
    /// did not go away.
    pub fn start(spawned: Result<(), String>, ready: Result<Result<(), RuntimeFailure>, String>) -> (r: Result<Self, RuntimeFailure>)
        ensures
            outcome(r) == match spawned {
                Err(error) => Err::<DylibGeneration, FailureView>(
                    FailureView::Internal { detail: "failed to start native dylib worker: "@ + error@ },
                ),
                Ok(()) => match ready {
                    Ok(Ok(())) => Ok(DylibGeneration { failed: false, busy: false, stopped: false }),
                    Ok(Err(failure)) => Err(failure@),
                    Err(error) => Err(
                        FailureView::PluginFailure { detail: "native dylib worker stopped before Ready: "@ + error@ },
                    ),
                },
            },
    {
        match spawned {
            Err(error) => return Err(
                RuntimeFailure::Internal { detail: text::behind("failed to start native dylib worker: ", error.as_str()) },
            ),
            Ok(()) => {},
        }
        match ready {
            Ok(Ok(())) => Ok(DylibGeneration { failed: false, busy: false, stopped: false }),
            Ok(Err(failure)) => Err(failure),
            Err(error) => Err(
                RuntimeFailure::PluginFailure { detail: text::behind("native dylib worker stopped before Ready: ", error.as_str()) },
            ),
        }
    }

    /// The worker begins a call.
    pub fn begin_call(&mut self)
        ensures
            *final(self) == (DylibGeneration { busy: true, ..*old(self) }),
    {
        self.busy = true;
    }

    /// The worker finished a call: tells whether it takes another.
    pub fn finish_call(&mut self, call_failed: bool) -> (r: bool)
        ensures
            worker_finished(*old(self), call_failed, r, *final(self)),
    {
        self.busy = false;
        if call_failed {
            self.failed = true;
        }
        !self.failed
    }

    /// Decides whether a caller may hand the worker a call.
    pub fn begin_invoke(&self) -> (r: Result<(), RuntimeFailure>)
        ensures
            worker_takes_calls(*self, r),
    {
        if self.failed {
            return Err(RuntimeFailure::PluginFailure { detail: "native dylib generation is retired".to_owned() });
        }
        Ok(())
    }

    /// The worker's queue did not take the call.
    pub fn refused() -> (r: RuntimeFailure)
        ensures
            r@ == (FailureView::ResourceExhausted { capability: EXECUTION_CLASS@, operation: "invoke"@ }),
    {
        RuntimeFailure::ResourceExhausted { capability: EXECUTION_CLASS.to_owned(), operation: "invoke".to_owned() }
    }

    /// Settles a call by what its caller saw first. A cancelled call retires the generation: the
    /// library cannot be preempted.
    pub fn settle(&mut self, event: InvokeEvent) -> (r: Result<JsonInvocationOutcome, RuntimeFailure>)
        ensures
            call_settled(*old(self), event, r, *final(self)),
    {
        match event {
            InvokeEvent::Answered(result) => result,
            InvokeEvent::WorkerStopped => Err(RuntimeFailure::PluginFailure { detail: "native dylib worker stopped".to_owned() }),
            InvokeEvent::Cancelled { request_id } => {
                self.failed = true;
                Err(RuntimeFailure::Cancelled { request_id })
            },
        }
    }

    /// Stops the generation.
    pub fn stop(&mut self) -> (r: WorkerStop)
        ensures
            generation_stopped(*old(self), r, *final(self)),
    {
        if self.stopped {
            return WorkerStop::Nothing;
        }
        self.stopped = true;
        self.failed = true;
        if self.busy {
            WorkerStop::Detach
        } else {
            WorkerStop::Join
        }
    }
}

/// Whether an endpoint takes an invocation.
pub open spec fn operation_checked(
    capability: Seq<char>,
    operations: Seq<Seq<char>>,
    operation: Seq<char>,
    cancelled: bool,
    request_id: u64,
    r: Result<(), RuntimeFailure>,
) -> bool {
    outcome(r) == if cancelled {
        Err::<(), FailureView>(FailureView::Cancelled { request_id })
    } else if !operations.contains(operation) {
        Err(FailureView::UnknownOperation { capability, operation })
    } else {
        Ok(())
    }
}

/// Decides whether an endpoint takes an invocation.
pub fn check_operation(capability: &str, operations: &Vec<String>, operation: &str, cancelled: bool, request_id: u64) -> (r: Result<
    (),
    RuntimeFailure,
>)
    ensures
        operation_checked(capability@, texts(operations@), operation@, cancelled, request_id, r),
{
    if cancelled {
        return Err(RuntimeFailure::Cancelled { request_id });
    }
    if !text::contains(operations, operation) {
        return Err(RuntimeFailure::UnknownOperation { capability: capability.to_owned(), operation: operation.to_owned() });
    }
    Ok(())
}

/// The extension of a file name: what stands behind its last dot, if the dot is not at its start.
pub open spec fn extension(name: Seq<char>) -> Option<Seq<char>> {
    if name == ".."@ {
        None
    } else {
        match last_dot(name) {
            Some(i) => if i == 0 {
                None
            } else {
                Some(name.skip(i + 1))
            },
            None => None,
        }
    }
}

/// The position of the last dot.
pub open spec fn last_dot(name: Seq<char>) -> Option<int>
    decreases name.len(),
{
    if name.len() == 0 {
        None
    } else if name.last() == '.' {
        Some(name.len() - 1)
    } else {
        last_dot(name.drop_last())
    }
}

/// The file name is one that a native library may have.
pub open spec fn native_library(name: Seq<char>) -> bool {
    match extension(name) {
        None => true,
        Some(found) => found == "dylib"@ || found == "so"@ || found == "dll"@,
    }
}

/// Decides whether a file name is one that a native library may have.
pub fn is_native_library(name: &str) -> (r: bool)
    ensures
        r == native_library(name@),
{
    if text::same(name, "..") {
        return true;
    }
    let chars = text::chars_of(name);
    let mut i: usize = chars.len();
    assert(chars@.take(chars@.len() as int) =~= chars@);
    while i > 0
        invariant
            i <= chars.len(),
            chars@ == name@,
            name@ != ".."@,
            last_dot(name@) == last_dot(name@.take(i as int)),
        decreases i,
    {
        i = i - 1;
        assert(name@.take(i + 1).drop_last() =~= name@.take(i as int));
        if chars[i] == '.' {
            if i == 0 {
                return true;
            }
            let n: usize = name.unicode_len();
            let found = name.substring_char(i + 1, n);
            assert(found@ =~= name@.skip(i + 1));
            return text::same(found, "dylib") || text::same(found, "so") || text::same(found, "dll");
        }
    }
    true
}

/// The texts before a library is loaded from a path.
pub open spec fn path_fault(artifact: ArtifactHandle, file_name: Option<Seq<char>>, shown_path: Seq<char>) -> Option<FailureView> {
    if file_name != Some(artifact.digest@.skip(7)) {
        Some(invalid_plan("native dylib `"@ + shown_path + "` is not loaded from its content-addressed path"@))
    } else if !native_library(file_name->Some_0) {
        Some(invalid_plan("native dylib Artifact does not use a supported platform file type"@))
    } else {
        None
    }
}

/// Checks that a library is loaded from the path of its digest. `file_name` is the last part of the
/// path, if it has one that is text, and `shown_path` the path as it is shown.
pub fn validate_content_addressed_path(artifact: &ArtifactHandle, file_name: Option<&str>, shown_path: &str) -> (r: Result<(), RuntimeFailure>)
    requires
        digest_syntax(artifact.digest@),
    ensures
        outcome(r) == match path_fault(*artifact, text::opt_str(file_name), shown_path@) {
            Some(fault) => Err::<(), FailureView>(fault),
            None => Ok(()),
        },
{
    proof {
        reveal_strlit("sha256:");
    }
    let expected = match text::strip_prefix(artifact.digest.as_str(), "sha256:") {
        Some(expected) => expected,
        None => {
            assert(artifact.digest@.take(7) =~= artifact.digest@.subrange(0, 7));
            assert(false);
            ""
        },
    };
    match file_name {
        Some(name) => {
            if !text::same(name, expected) {
                return Err(failure::invalid_about("native dylib `", shown_path, "` is not loaded from its content-addressed path"));
            }
            if !is_native_library(name) {
                return Err(failure::invalid("native dylib Artifact does not use a supported platform file type"));
            }
            Ok(())
        },
        None => Err(failure::invalid_about("native dylib `", shown_path, "` is not loaded from its content-addressed path")),
    }
}

/// Whether an Instance may be started from its Artifact, by the verdict of the verifier.
pub open spec fn instance_checked<V: DylibVerifier>(
    profile: Seq<char>,
    artifact: Result<&ArtifactHandle, RuntimeFailure>,
    verifier: &V,
    file_name: Option<Seq<char>>,
    shown_path: Seq<char>,
    r: Result<(), RuntimeFailure>,
) -> bool {
    &&& profile != RUNTIME_PROFILE@ ==> outcome(r) == Err::<(), FailureView>(
        invalid_plan("Dylib Adapter does not support runtime profile `"@ + profile + "`"@),
    )
    &&& profile == RUNTIME_PROFILE@ ==> match artifact {
        Err(failure) => r == Err::<(), RuntimeFailure>(failure),
        Ok(handle) => exists|verdict: Result<(), RuntimeFailure>|
            #[trigger] call_ensures(V::verify, (verifier, handle), verdict) && match verdict {
                Err(failure) => r == Err::<(), RuntimeFailure>(failure),
                Ok(()) => outcome(r) == match path_fault(*handle, file_name, shown_path) {
                    Some(fault) => Err::<(), FailureView>(fault),
                    None => Ok(()),
                },
            },
    }
}

/// Checks that an Instance may be started from its Artifact: the profile is this Adapter's, the
/// Artifact is there, the verifier admits it, and it is loaded from the path of its digest.
pub fn check_instance<V: DylibVerifier>(
    instance: &PlanInstance,
    artifact: Result<&ArtifactHandle, RuntimeFailure>,
    verifier: &V,
    file_name: Option<&str>,
    shown_path: &str,
) -> (r: Result<(), RuntimeFailure>)
    requires
        artifact is Ok ==> digest_syntax(artifact->Ok_0.digest@),
    ensures
        instance_checked(instance.runtime_profile@, artifact, verifier, text::opt_str(file_name), shown_path@, r),
{
    if !text::same(instance.runtime_profile.as_str(), RUNTIME_PROFILE) {
        return Err(failure::invalid_about("Dylib Adapter does not support runtime profile `", instance.runtime_profile.as_str(), "`"));
    }
    let handle = match artifact {
        Ok(handle) => handle,
        Err(failure) => return Err(failure),
    };
    let verdict = verifier.verify(handle);
    assert(call_ensures(V::verify, (verifier, handle), verdict));
    match verdict {
        Ok(()) => {},
        Err(failure) => return Err(failure),
    }
    validate_content_addressed_path(handle, file_name, shown_path)
}

/// The positions of the Instances that this Adapter runs, among the first `n`.
pub open spec fn dylib_positions(instances: Seq<PlanInstance>, n: nat) -> Seq<usize>
    decreases n,
{
    if n == 0 {
        Seq::empty()
    } else if instances[n - 1].execution_class@ == EXECUTION_CLASS@ {
        dylib_positions(instances, (n - 1) as nat).push((n - 1) as usize)
    } else {
        dylib_positions(instances, (n - 1) as nat)
    }
}

/// The Instances of a Plan that this Adapter runs, by their positions.
pub fn dylib_instances(plan: &AppPlan) -> (r: Vec<usize>)
    ensures
        r@ == dylib_positions(plan.instances@, plan.instances@.len()),
{
    let mut r: Vec<usize> = Vec::new();
    let mut i: usize = 0;
    while i < plan.instances.len()
        invariant
            i <= plan.instances.len(),
            r@ == dylib_positions(plan.instances@, i as nat),
        decreases plan.instances.len() - i,
    {
        if text::same(plan.instances[i].execution_class.as_str(), EXECUTION_CLASS) {
            r.push(i);
        }
        i = i + 1;
    }
    r
}

/// What noting an Instance comes to, and the Instances that are prepared after it.
pub open spec fn preparation_noted(before: Seq<Seq<char>>, key: Seq<char>, r: Result<(), RuntimeFailure>, after: Seq<Seq<char>>) -> bool {
    &&& outcome(r) == if before.contains(key) {
        Err::<(), FailureView>(invalid_plan("duplicate Instance `"@ + key + "`"@))
    } else {
        Ok(())
    }
    &&& after == if before.contains(key) {
        before
    } else {
        before.push(key)
    }
}

/// Notes that an Instance was prepared.
pub fn note_prepared(prepared: &mut Vec<String>, instance_key: &str) -> (r: Result<(), RuntimeFailure>)
    ensures
        preparation_noted(texts(old(prepared)@), instance_key@, r, texts(final(prepared)@)),
{
    if text::contains(prepared, instance_key) {
        return Err(failure::invalid_about("duplicate Instance `", instance_key, "`"));
    }
    prepared.push(instance_key.to_owned());
    assert(texts(prepared@) =~= texts(old(prepared)@).push(instance_key@));
    Ok(())
}

/// The Instance that is recreated by its key.
pub open spec fn library_recreated(instances: Seq<PlanInstance>, key: Seq<char>, r: Result<usize, RuntimeFailure>) -> bool {
    match crate::plan::instance_position(instances, key) {
        None => r is Err && r->Err_0@ == invalid_plan("unknown Instance `"@ + key + "`"@),
        Some(i) => if instances[i].execution_class@ != EXECUTION_CLASS@ {
            r is Err && r->Err_0@ == invalid_plan("Instance `"@ + key + "` is not a native dylib"@)
        } else {
            r is Ok && r->Ok_0 == i
        },
    }
}

/// Finds the Instance to recreate.
pub fn recreated(plan: &AppPlan, instance_key: &str) -> (r: Result<usize, RuntimeFailure>)
    ensures
        library_recreated(plan.instances@, instance_key@, r),
{
    match crate::plan::find_instance(&plan.instances, instance_key) {
        None => Err(failure::invalid_about("unknown Instance `", instance_key, "`")),
        Some(i) => if !text::same(plan.instances[i].execution_class.as_str(), EXECUTION_CLASS) {
            Err(failure::invalid_about("Instance `", instance_key, "` is not a native dylib"))
        } else {
            Ok(i)
        },
    }
}

} // verus!
