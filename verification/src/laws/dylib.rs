//! Laws of the dynamic-library Adapter: which library is loaded, who owns a buffer, and when a library is
//! called no more.
use vstd::prelude::*;
use vstd::utf8::encode_utf8;

use crate::digest::{digest_syntax, lower_hex};
use crate::dylib::{
    bounded_text, call_admitted, call_finished, call_settled, descriptor_fault, dylib_positions, extension, first_mismatch, freed,
    generation_stopped, identity_judged, instance_checked, is_line, last_dot, library_recreated, line_at, line_text, loaded, native_library,
    operation_checked, output_bytes, path_fault, preparation_noted, reallocation_begun, shutdown_begun, shutdown_judged, signature_judged, worker_finished,
    worker_takes_calls, Allocation, AllocatorState, CapabilityAbiDescriptor, DylibDescriptor, DylibGeneration, DylibLimits, DylibVerifier,
    InvokeEvent, JsonInvocationOutcome, LensoBufferV1, LoadedDylib, RootTable, WorkerStop,
};
use crate::failure::{FailureView, RuntimeFailure};
use crate::generation::ArtifactHandle;
use crate::json::read_json;
use crate::plan::{a_position_is_the_first_with_its_key, instance_position, PlanInstance};
use crate::text::texts;

verus! {

/// A failure text is cut from its end, no further than it has to be, and then fits.
pub proof fn a_failure_text_is_cut_to_fit(s: Seq<char>, max: nat)
    ensures
        bounded_text(s, max).is_prefix_of(s),
        encode_utf8(bounded_text(s, max)).len() <= max,
        encode_utf8(s).len() <= max ==> bounded_text(s, max) == s,
        bounded_text(s, max).len() < s.len() ==> encode_utf8(s.take(bounded_text(s, max).len() as int + 1)).len() > max,
    decreases s.len(),
{
    if s.len() > 0 && encode_utf8(s).len() > max {
        a_failure_text_is_cut_to_fit(s.drop_last(), max);
        let n: int = bounded_text(s, max).len() as int;
        if n < s.drop_last().len() {
            assert(s.take(n + 1) =~= s.drop_last().take(n + 1));
        } else {
            assert(s.take(n + 1) =~= s);
        }
        assert(bounded_text(s, max) =~= s.take(n)) by {
            assert(bounded_text(s, max) =~= s.drop_last().take(n));
        }
    } else if s.len() == 0 {
        assert(encode_utf8(s).len() == 0);
    }
}

proof fn lemma_mismatch(planned: Seq<CapabilityAbiDescriptor>, declared: Seq<CapabilityAbiDescriptor>, n: nat)
    ensures
        first_mismatch(planned, declared, n) is None <==> forall|i: int| 0 <= i < n ==> same_capability(#[trigger] planned[i], declared[i]),
        first_mismatch(planned, declared, n) matches Some(i) ==> 0 <= i < n && !same_capability(planned[i], declared[i]) && forall|k: int|
            0 <= k < i ==> same_capability(#[trigger] planned[k], declared[k]),
    decreases n,
{
    if n > 0 {
        lemma_mismatch(planned, declared, (n - 1) as nat);
        if first_mismatch(planned, declared, (n - 1) as nat) is Some {
            let i = first_mismatch(planned, declared, (n - 1) as nat)->Some_0;
            assert(!same_capability(planned[i], declared[i]));
        } else {
            assert(planned[n - 1] == planned[n - 1]);
        }
    }
}

/// Two descriptions of a Capability agree.
pub open spec fn same_capability(planned: CapabilityAbiDescriptor, declared: CapabilityAbiDescriptor) -> bool {
    &&& planned.capability_id@ == declared.capability_id@
    &&& planned.descriptor_version@ == declared.descriptor_version@
    &&& texts(planned.request_operations@) == texts(declared.request_operations@)
}

/// A library is accepted exactly where it declares the planned Capabilities, one for one. The failure
/// names the first that differs.
pub proof fn a_library_declares_what_is_planned(planned: Seq<CapabilityAbiDescriptor>, descriptor: Result<DylibDescriptor, String>)
    ensures
        descriptor_fault(planned, descriptor) is None <==> descriptor is Ok && descriptor->Ok_0.capabilities@.len() == planned.len() && forall|i: int|
            0 <= i < planned.len() ==> same_capability(#[trigger] planned[i], descriptor->Ok_0.capabilities@[i]),
        descriptor is Ok && descriptor->Ok_0.capabilities@.len() == planned.len() && descriptor_fault(planned, descriptor) is Some ==> exists|i: int|
            {
                &&& 0 <= i < planned.len()
                &&& !same_capability(#[trigger] planned[i], descriptor->Ok_0.capabilities@[i])
                &&& forall|k: int| 0 <= k < i ==> same_capability(#[trigger] planned[k], descriptor->Ok_0.capabilities@[k])
                &&& descriptor_fault(planned, descriptor) == Some(FailureView::ProtocolViolation { capability: planned[i].capability_id@ })
            },
{
    if descriptor is Ok && descriptor->Ok_0.capabilities@.len() == planned.len() {
        lemma_mismatch(planned, descriptor->Ok_0.capabilities@, planned.len());
    }
}

/// A library that was loaded returned from its entry point with success, with a whole table of this
/// version, and declares what is planned. It can be called.
pub proof fn a_loaded_library_is_sound(
    entry: (Option<u32>, RootTable, usize),
    capabilities: Seq<CapabilityAbiDescriptor>,
    descriptor: Result<DylibDescriptor, String>,
    allocator: AllocatorState,
    limits: DylibLimits,
    r: Result<LoadedDylib, RuntimeFailure>,
)
    requires
        loaded(entry, capabilities, descriptor, allocator, limits, r),
    ensures
        r is Ok <==> {
            &&& entry.0 == Some(0u32)
            &&& entry.1.abi_version == 1
            &&& entry.1.struct_size == entry.2
            &&& entry.1.has_invoke
            &&& entry.1.reserved_is_zero
            &&& entry.1.descriptor_json_len <= limits.max_descriptor_bytes
            &&& entry.1.descriptor_json_len > 0 ==> entry.1.has_descriptor
            &&& descriptor is Ok
            &&& descriptor->Ok_0.capabilities@.len() == capabilities.len()
            &&& forall|i: int| 0 <= i < capabilities.len() ==> same_capability(#[trigger] capabilities[i], descriptor->Ok_0.capabilities@[i])
        },
        r is Ok ==> r->Ok_0.allocator@ == allocator@ && r->Ok_0.limits == limits && !r->Ok_0.failed && !r->Ok_0.shutdown,
{
    a_library_declares_what_is_planned(capabilities, descriptor);
}

/// A buffer that was freed is held no more, and every other buffer is left alone. Success is reported
/// exactly where the buffer was held under the capacity that the library names.
pub proof fn a_freed_buffer_is_gone(before: Map<usize, Allocation>, has_context: bool, buffer: LensoBufferV1, r: u32, after: Map<usize, Allocation>)
    requires
        freed(before, has_context, buffer, r, after),
    ensures
        r == 0 || r == 2,
        r == 0 <==> has_context && before.contains_key(buffer.pointer) && before[buffer.pointer].capacity == buffer.capacity,
        has_context ==> !after.contains_key(buffer.pointer),
        !has_context ==> after == before,
        forall|other: usize| other != buffer.pointer && #[trigger] before.contains_key(other) ==> after.contains_key(other) && after[other] == before[other],
        forall|other: usize| #[trigger] after.contains_key(other) ==> before.contains_key(other),
{
}

/// A buffer that grows keeps its bytes, with zeroes behind them. One that was not held, or under another
/// capacity, or that would lose bytes in use, is left where it is.
pub proof fn a_grown_buffer_keeps_its_bytes(
    before: Map<usize, Allocation>,
    has_context: bool,
    buffer: LensoBufferV1,
    new_capacity: usize,
    r: Option<Vec<u8>>,
    after: Map<usize, Allocation>,
)
    requires
        reallocation_begun(before, has_context, buffer, new_capacity, r, after),
    ensures
        r is Some <==> has_context && buffer.length <= new_capacity && before.contains_key(buffer.pointer) && before[buffer.pointer].capacity
            == buffer.capacity,
        r is None ==> after == before,
        r is Some ==> !after.contains_key(buffer.pointer),
        r is Some ==> before[buffer.pointer].bytes@.is_prefix_of(r->Some_0@),
        r is Some ==> r->Some_0@.len() >= new_capacity,
        r is Some ==> forall|i: int| before[buffer.pointer].bytes@.len() <= i < r->Some_0@.len() ==> #[trigger] r->Some_0@[i] == 0u8,
        forall|other: usize| other != buffer.pointer && #[trigger] before.contains_key(other) ==> after.contains_key(other) && after[other] == before[other],
{
    if r is Some {
        let bytes = before[buffer.pointer].bytes@;
        assert(bytes =~= r->Some_0@.take(bytes.len() as int));
    }
}

/// What a call hands out was read from the bytes of the one buffer that the library returned, which was
/// held for it, within its capacity and the limit of the Host. The buffer is then held no more. The
/// status tells success from a Domain Error, and the library can be called again.
pub proof fn a_call_hands_out_what_was_written(
    before: LoadedDylib,
    status: Option<u32>,
    output: LensoBufferV1,
    r: Result<JsonInvocationOutcome, RuntimeFailure>,
    after: LoadedDylib,
)
    requires
        call_finished(before, status, output, r, after),
        r is Ok,
    ensures
        status == Some(0u32) || status == Some(1u32),
        r->Ok_0 is Success <==> status == Some(0u32),
        before.allocator@.contains_key(output.pointer),
        before.allocator@[output.pointer].capacity == output.capacity,
        output.length <= output.capacity,
        output.length <= before.limits.max_result_bytes,
        output.length <= before.allocator@[output.pointer].bytes@.len() ==> match r->Ok_0 {
            JsonInvocationOutcome::Success(value) => read_json(before.allocator@[output.pointer].bytes@.take(output.length as int)) == Ok::<
                crate::json::JsonView,
                Seq<char>,
            >(value.model()),
            JsonInvocationOutcome::DomainError(value) => read_json(before.allocator@[output.pointer].bytes@.take(output.length as int)) == Ok::<
                crate::json::JsonView,
                Seq<char>,
            >(value.model()),
        },
        after.allocator@ == before.allocator@.remove(output.pointer),
        after.failed == before.failed,
        after.shutdown == before.shutdown,
{
    let bytes = before.allocator@[output.pointer].bytes@;
    if output.length <= bytes.len() {
        assert(bytes.take(output.length as int) =~= bytes.subrange(0, output.length as int));
    }
}

/// A library that broke the rules of buffers, or that returned a status that is neither success nor a
/// Domain Error, is called no more. A call never makes a library usable again.
pub proof fn a_library_that_broke_the_rules_is_called_no_more(
    before: LoadedDylib,
    status: Option<u32>,
    output: LensoBufferV1,
    r: Result<JsonInvocationOutcome, RuntimeFailure>,
    after: LoadedDylib,
    request_len: usize,
    admitted: Result<(), RuntimeFailure>,
)
    requires
        call_finished(before, status, output, r, after),
        call_admitted(after, request_len, admitted),
    ensures
        before.failed || before.shutdown ==> admitted is Err,
        status is Some && output.length > before.limits.max_result_bytes ==> r is Err && admitted is Err,
        status is Some && output.length > output.capacity ==> r is Err && admitted is Err,
        status is Some && before.allocator@.contains_key(output.pointer) && before.allocator@[output.pointer].capacity != output.capacity ==> r is Err
            && admitted is Err,
        !before.allocator@.contains_key(output.pointer) ==> r is Err,
        status is None ==> r is Err && after.failed == before.failed && after.allocator@ == before.allocator@,
        status is Some && status->Some_0 <= 1 && output.length <= before.limits.max_result_bytes && output.length <= output.capacity
            && before.allocator@.contains_key(output.pointer) && before.allocator@[output.pointer].capacity == output.capacity && read_json(
            output_bytes(before.allocator@, output),
        ) is Ok ==> r is Ok,
        status is Some && status->Some_0 > 1 ==> r is Err,
        r is Ok && !before.failed && !before.shutdown && request_len <= before.limits.max_request_bytes ==> admitted is Ok,
        r is Err && status is Some && status->Some_0 <= 1 && output.length <= before.limits.max_result_bytes && output.length <= output.capacity
            && before.allocator@.contains_key(output.pointer) && before.allocator@[output.pointer].capacity == output.capacity ==> after.failed
            == before.failed,
{
}

/// A library takes a request exactly while it has neither failed nor been shut down, up to the limit.
pub proof fn a_call_is_admitted_within_limits(dylib: LoadedDylib, request_len: usize, r: Result<(), RuntimeFailure>)
    requires
        call_admitted(dylib, request_len, r),
    ensures
        r is Ok <==> !dylib.failed && !dylib.shutdown && request_len <= dylib.limits.max_request_bytes,
{
}

/// The shutdown callback runs once, and a library that is shut down is called no more.
pub proof fn a_library_is_shut_down_once(
    before: LoadedDylib,
    first: bool,
    between: LoadedDylib,
    second: bool,
    after: LoadedDylib,
    has_callback: bool,
    request_len: usize,
    r: Result<(), RuntimeFailure>,
)
    requires
        shutdown_begun(before, has_callback, first, between),
        shutdown_begun(between, has_callback, second, after),
        call_admitted(between, request_len, r),
    ensures
        first <==> has_callback && !before.shutdown,
        !second,
        r is Err,
        between.allocator@ == before.allocator@,
        between.failed == before.failed,
{
}

/// A shutdown succeeds exactly where the callback returned success and no buffer was left behind.
pub proof fn a_clean_shutdown_leaves_no_buffer(dylib: LoadedDylib, status: Option<u32>, r: Result<(), RuntimeFailure>)
    requires
        shutdown_judged(dylib, status, r),
    ensures
        r is Ok <==> status == Some(0u32) && dylib.allocator@ == Map::<usize, Allocation>::empty(),
{
    assert(dylib.allocator@.is_empty() <==> dylib.allocator@ =~= Map::<usize, Allocation>::empty()) by {
        if dylib.allocator@.is_empty() {
            assert(dylib.allocator@.dom() =~= Set::<usize>::empty());
            assert(dylib.allocator@ =~= Map::<usize, Allocation>::empty());
        }
    }
}

/// A cancelled call retires its generation, for a library cannot be preempted. An answer is handed on as
/// it came and retires nothing.
pub proof fn a_cancelled_call_retires_the_generation(
    before: DylibGeneration,
    event: InvokeEvent,
    r: Result<JsonInvocationOutcome, RuntimeFailure>,
    after: DylibGeneration,
    next: Result<(), RuntimeFailure>,
)
    requires
        call_settled(before, event, r, after),
        worker_takes_calls(after, next),
    ensures
        event is Cancelled ==> r is Err && next is Err,
        event is WorkerStopped ==> r is Err,
        event matches InvokeEvent::Answered(result) ==> r == result,
        !(event is Cancelled) ==> (next is Ok <==> !before.failed),
        after.busy == before.busy,
        after.stopped == before.stopped,
{
}

/// A worker takes another call until one fails.
pub proof fn a_failed_call_ends_the_worker(before: DylibGeneration, call_failed: bool, r: bool, after: DylibGeneration, next: Result<(), RuntimeFailure>)
    requires
        worker_finished(before, call_failed, r, after),
        worker_takes_calls(after, next),
    ensures
        r <==> !before.failed && !call_failed,
        r <==> next is Ok,
        !after.busy,
        after.stopped == before.stopped,
{
}

/// A generation stops once. Its worker is waited for exactly where it is inside no call, and no caller
/// may hand it another.
pub proof fn a_generation_stops_once(
    before: DylibGeneration,
    first: WorkerStop,
    between: DylibGeneration,
    second: WorkerStop,
    after: DylibGeneration,
    next: Result<(), RuntimeFailure>,
)
    requires
        generation_stopped(before, first, between),
        generation_stopped(between, second, after),
        worker_takes_calls(between, next),
    ensures
        first is Nothing <==> before.stopped,
        first is Join <==> !before.stopped && !before.busy,
        first is Detach <==> !before.stopped && before.busy,
        second is Nothing,
        between.stopped,
        after == between,
        !before.stopped ==> next is Err,
{
}

proof fn lemma_last_dot(stem: Seq<char>, ext: Seq<char>)
    requires
        forall|i: int| 0 <= i < ext.len() ==> #[trigger] ext[i] != '.',
    ensures
        last_dot(stem.push('.') + ext) == Some(stem.len() as int),
    decreases ext.len(),
{
    let name = stem.push('.') + ext;
    if ext.len() > 0 {
        assert(name.drop_last() =~= stem.push('.') + ext.drop_last());
        assert(name.last() == ext.last());
        assert(ext[ext.len() - 1] != '.');
        lemma_last_dot(stem, ext.drop_last());
    } else {
        assert(name =~= stem.push('.'));
    }
}

proof fn lemma_no_dot(name: Seq<char>)
    requires
        forall|i: int| 0 <= i < name.len() ==> #[trigger] name[i] != '.',
    ensures
        last_dot(name) is None,
    decreases name.len(),
{
    if name.len() > 0 {
        assert(name[name.len() - 1] != '.');
        lemma_no_dot(name.drop_last());
    }
}

/// The extension of a name with something before its last dot is what stands behind that dot, and a
/// library may have one of three.
pub proof fn a_library_has_a_known_extension(stem: Seq<char>, ext: Seq<char>)
    requires
        stem.len() > 0,
        ext.len() > 0,
        forall|i: int| 0 <= i < ext.len() ==> #[trigger] ext[i] != '.',
    ensures
        extension(stem.push('.') + ext) == Some(ext),
        native_library(stem.push('.') + ext) <==> ext == "dylib"@ || ext == "so"@ || ext == "dll"@,
{
    let name = stem.push('.') + ext;
    reveal_strlit("..");
    assert(name.len() > 2);
    lemma_last_dot(stem, ext);
    assert(name.skip(stem.len() as int + 1) =~= ext);
}

/// A library is loaded from the path of its digest, and from no other.
pub proof fn a_library_is_loaded_by_its_digest(artifact: ArtifactHandle, file_name: Option<Seq<char>>, shown_path: Seq<char>)
    requires
        digest_syntax(artifact.digest@),
    ensures
        path_fault(artifact, file_name, shown_path) is None <==> file_name is Some && "sha256:"@ + file_name->Some_0 == artifact.digest@,
{
    reveal_strlit("sha256:");
    reveal_strlit("..");
    let name = artifact.digest@.skip(7);
    assert(artifact.digest@ =~= artifact.digest@.take(7) + name);
    assert forall|i: int| 0 <= i < name.len() implies #[trigger] name[i] != '.' by {
        assert(lower_hex(artifact.digest@.skip(7)[i]));
    }
    lemma_no_dot(name);
    if file_name is Some && "sha256:"@ + file_name->Some_0 == artifact.digest@ {
        assert(file_name->Some_0 =~= ("sha256:"@ + file_name->Some_0).skip(7));
    }
}

/// An Instance is started from a library only under the profile of this Adapter, where the verifier
/// admitted the Artifact, and from the path of its digest.
pub proof fn only_an_admitted_library_is_started<V: DylibVerifier>(
    profile: Seq<char>,
    artifact: Result<&ArtifactHandle, RuntimeFailure>,
    verifier: &V,
    file_name: Option<Seq<char>>,
    shown_path: Seq<char>,
    r: Result<(), RuntimeFailure>,
)
    requires
        instance_checked(profile, artifact, verifier, file_name, shown_path, r),
        artifact is Ok ==> digest_syntax(artifact->Ok_0.digest@),
        r is Ok,
    ensures
        profile == "lenso.native-dylib@1"@,
        artifact is Ok,
        exists|verdict: Result<(), RuntimeFailure>| #[trigger] call_ensures(V::verify, (verifier, artifact->Ok_0), verdict) && verdict is Ok,
        file_name is Some,
        "sha256:"@ + file_name->Some_0 == artifact->Ok_0.digest@,
{
    a_library_is_loaded_by_its_digest(*artifact->Ok_0, file_name, shown_path);
}

/// The Adapter runs the Instances of its execution class, in the order of the Plan, and no others.
pub proof fn the_adapter_runs_its_own_instances(instances: Seq<PlanInstance>, n: nat)
    requires
        n <= instances.len(),
        instances.len() <= usize::MAX,
    ensures
        forall|k: int| 0 <= k < dylib_positions(instances, n).len() ==> {
            let i = #[trigger] dylib_positions(instances, n)[k];
            i < n && instances[i as int].execution_class@ == "lenso.native-dylib@1"@
        },
        forall|i: int|
            0 <= i < n && (#[trigger] instances[i]).execution_class@ == "lenso.native-dylib@1"@ ==> dylib_positions(instances, n).contains(i as usize),
        forall|k: int, m: int|
            0 <= k < m < dylib_positions(instances, n).len() ==> #[trigger] dylib_positions(instances, n)[k] < #[trigger] dylib_positions(instances, n)[m],
    decreases n,
{
    if n > 0 {
        let earlier = dylib_positions(instances, (n - 1) as nat);
        let all = dylib_positions(instances, n);
        the_adapter_runs_its_own_instances(instances, (n - 1) as nat);
        assert forall|i: int| 0 <= i < n && (#[trigger] instances[i]).execution_class@ == "lenso.native-dylib@1"@ implies all.contains(i as usize) by {
            if i < n - 1 {
                let k = choose|k: int| 0 <= k < earlier.len() && earlier[k] == i as usize;
                assert(all[k] == i as usize);
            } else {
                assert(all[all.len() - 1] == i as usize);
            }
        }
    }
}

/// An Instance is prepared once.
pub proof fn an_instance_is_prepared_once(before: Seq<Seq<char>>, key: Seq<char>, r: Result<(), RuntimeFailure>, after: Seq<Seq<char>>)
    requires
        preparation_noted(before, key, r, after),
    ensures
        r is Ok <==> !before.contains(key),
        after.contains(key),
        forall|other: Seq<char>| other != key ==> (#[trigger] after.contains(other) <==> before.contains(other)),
        before.no_duplicates() ==> after.no_duplicates(),
{
    if !before.contains(key) {
        assert(after[after.len() - 1] == key);
        assert forall|other: Seq<char>| other != key implies (#[trigger] after.contains(other) <==> before.contains(other)) by {
            if before.contains(other) {
                let k = choose|k: int| 0 <= k < before.len() && before[k] == other;
                assert(after[k] == other);
            }
            if after.contains(other) {
                let k = choose|k: int| 0 <= k < after.len() && after[k] == other;
                assert(before[k] == other);
            }
        }
    }
}

/// What is recreated is the Instance with the key, and only one of this Adapter's execution class.
pub proof fn only_a_library_is_recreated(instances: Seq<PlanInstance>, key: Seq<char>, r: Result<usize, RuntimeFailure>)
    requires
        library_recreated(instances, key, r),
    ensures
        r is Ok ==> r->Ok_0 < instances.len() && instances[r->Ok_0 as int].instance_key@ == key && instances[r->Ok_0 as int].execution_class@
            == "lenso.native-dylib@1"@,
        r is Err ==> forall|i: int|
            0 <= i < instances.len() && (#[trigger] instances[i]).instance_key@ == key && (forall|k: int|
                0 <= k < i ==> (#[trigger] instances[k]).instance_key@ != key) ==> instances[i].execution_class@ != "lenso.native-dylib@1"@,
{
    a_position_is_the_first_with_its_key(instances, key);
    let position = instance_position(instances, key);
    if r is Err && position is Some {
        assert forall|i: int|
            0 <= i < instances.len() && (#[trigger] instances[i]).instance_key@ == key && (forall|k: int|
                0 <= k < i ==> (#[trigger] instances[k]).instance_key@ != key) implies instances[i].execution_class@ != "lenso.native-dylib@1"@ by {
            assert(instances[position->Some_0].instance_key@ == key);
            assert(i == position->Some_0);
        }
    }
}

/// A line stands between line feeds wherever it stands in a report, and holds none itself.
pub proof fn a_line_is_found_where_it_stands(head: Seq<char>, line: Seq<char>, rest: Seq<char>)
    requires
        line.len() > 0,
        forall|i: int| 0 <= i < line.len() ==> #[trigger] line[i] != '\n',
        line.last() != '\r',
    ensures
        is_line(line, line),
        is_line(head.push('\n') + line, line),
        is_line(line.push('\n') + rest, line),
        is_line(head.push('\n') + line.push('\n') + rest, line),
{
    let n = line.len() as int;
    let h: int = head.len() as int + 1;
    let a = head.push('\n') + line;
    let b = line.push('\n') + rest;
    let c = head.push('\n') + line.push('\n') + rest;
    assert(line_at(line, 0, n));
    assert(line_text(line, 0, n) =~= line);
    assert forall|i: int| h <= i < h + n implies #[trigger] a[i] != '\n' by {
        assert(line[i - h] != '\n');
    }
    assert(line_at(a, h, h + n));
    assert(line_text(a, h, h + n) =~= line);
    assert forall|i: int| 0 <= i < n implies #[trigger] b[i] != '\n' by {
        assert(line[i] != '\n');
    }
    assert(line_at(b, 0, n));
    assert(b[n - 1] == line.last());
    assert(line_text(b, 0, n) =~= line);
    assert forall|i: int| h <= i < h + n implies #[trigger] c[i] != '\n' by {
        assert(line[i - h] != '\n');
    }
    assert(c[h - 1] == '\n');
    assert(c[h + n] == '\n');
    assert(line_at(c, h, h + n));
    assert(c[h + n - 1] == line.last());
    assert(line_text(c, h, h + n) =~= line);
}

/// A line is one whole line: what stands before it and behind it ends and begins with a line break.
pub proof fn a_line_is_whole(s: Seq<char>, line: Seq<char>)
    requires
        is_line(s, line),
    ensures
        forall|i: int| 0 <= i < line.len() ==> #[trigger] line[i] != '\n',
        exists|start: int|
            {
                &&& 0 <= start
                &&& start + line.len() <= s.len()
                &&& #[trigger] s.subrange(start, start + line.len()) == line
                &&& start == 0 || s[start - 1] == '\n'
                &&& start + line.len() == s.len() || s[start + line.len()] == '\n' || s[start + line.len()] == '\r'
            },
{
    let (start, end) = choose|start: int, end: int| #[trigger] line_at(s, start, end) && line == line_text(s, start, end);
    assert(s.subrange(start, start + line.len()) =~= line);
    assert forall|i: int| 0 <= i < line.len() implies #[trigger] line[i] != '\n' by {
        assert(s[start + i] != '\n');
    }
}


/// A signed library is admitted exactly where its signature checks out and the report names the wanted
/// Team on a line of its own.
pub proof fn a_signed_library_names_its_team(
    team: Seq<char>,
    verification: Result<bool, String>,
    signed: Result<(), RuntimeFailure>,
    details: Result<(bool, String), String>,
    named: Result<(), RuntimeFailure>,
)
    requires
        signature_judged(verification, signed),
        identity_judged(team, details, named),
    ensures
        signed is Ok <==> verification is Ok && verification->Ok_0,
        named is Ok <==> details is Ok && details->Ok_0.0 && is_line(details->Ok_0.1@, "TeamIdentifier="@ + team),
{
}

/// An endpoint takes exactly its own Operations, while the caller still waits.
pub proof fn an_endpoint_takes_its_own_operations(
    capability: Seq<char>,
    operations: Seq<Seq<char>>,
    operation: Seq<char>,
    cancelled: bool,
    request_id: u64,
    r: Result<(), RuntimeFailure>,
)
    requires
        operation_checked(capability, operations, operation, cancelled, request_id, r),
    ensures
        r is Ok <==> !cancelled && exists|i: int| 0 <= i < operations.len() && #[trigger] operations[i] == operation,
        cancelled ==> r is Err && r->Err_0@ == (FailureView::Cancelled { request_id }),
{
    if operations.contains(operation) {
        let i = choose|i: int| 0 <= i < operations.len() && operations[i] == operation;
        assert(operations[i] == operation);
    }
}
} // verus!
