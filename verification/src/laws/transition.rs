//! Laws of transitions: which edges are accepted, and what each step of one changes.
use vstd::prelude::*;

use crate::canonical::CanonicalDocument;
use crate::durable::{ActivationDirection, ControlHealth, ControlLifecycle, ControlStateStore, RecordView, RetirementReason, StateView};
use crate::durable_supervisor::{
    candidate_record, predecessor, reports, staging_settled, timing, transition_decided, LiveSlot, PendingTransition, StagedOutcome,
    TransitionStep,
};
use crate::edge::{
    compatibility_result, edge_fault, exact_closure, first_receipt, instance_fault, is_first_receipt, no_instance_fault,
    one_changed_instance_needs_its_one_receipt, unchanged, Receipts,
};
use crate::error::{ControlPlaneError, ErrorView};
use crate::generation::ResolvedGeneration;
use crate::lifecycle::{activated, enrolled, maintenance_stopped, overlapped_record, replaced_record, OverlapTerms};
use crate::model::{AppGenerationTransitionSpec, ReplacementMode, StateCompatibilityReceipt, StatefulRuntimeIdentity};
use crate::text::{opt_text, parsed, printed_number_reads_back, texts};
use crate::text_map::TextMap;

verus! {

/// Two Generations overlap only where they agree on the state that they share. Each stateful Instance
/// is on both sides, and it has the same identity on both or a supplied and declared receipt that names
/// it, its App and both its identities, and grants concurrent reads and concurrent writes; where the
/// edge keeps a way back, also that the old code reads what the new code writes.
pub proof fn overlapping_generations_agree_on_their_state(
    app_id: Seq<char>,
    previous: TextMap<StatefulRuntimeIdentity>,
    candidate: ResolvedGeneration,
    edge: AppGenerationTransitionSpec,
    receipts: Receipts,
    key: Seq<char>,
)
    requires
        edge.replacement_mode == ReplacementMode::Overlap,
        compatibility_result(app_id, Some(previous), candidate, edge, receipts, Ok(())),
        previous.has(key) || candidate.stateful_instances.has(key),
    ensures
        previous.has(key),
        candidate.stateful_instances.has(key),
        ({
            let old = previous.at(key);
            let new = candidate.stateful_instances.at(key);
            ||| old.runtime_identity@ == new.runtime_identity@ && old.state_schema_id@ == new.state_schema_id@ && old.state_schema_digest@
                == new.state_schema_digest@
            ||| exists|i: int| {
                let receipt = (#[trigger] receipts.entries()[i]).1.typed();
                &&& 0 <= i < receipts.entries().len()
                &&& receipt.module_instance_key@ == key
                &&& receipt.schema_version == 1
                &&& receipt.app_id@ == app_id
                &&& receipt.old_runtime_identity@ == old.runtime_identity@
                &&& receipt.new_runtime_identity@ == new.runtime_identity@
                &&& receipt.state_schema_id@ == old.state_schema_id@
                &&& receipt.state_schema_id@ == new.state_schema_id@
                &&& receipt.old_state_schema_digest@ == old.state_schema_digest@
                &&& receipt.new_state_schema_digest@ == new.state_schema_digest@
                &&& receipt.compatibility.concurrent_read
                &&& receipt.compatibility.concurrent_write
                &&& edge.rollout_policy.rollback_window_nanos@ != "0"@ || edge.rollout_policy.automatic_rollback_on_generation_failure
                    ==> receipt.compatibility.old_code_reads_new_writes
                &&& texts(edge.state_compatibility_receipt_digests@).contains(receipts.entries()[i].1.identity())
            }
        }),
{
    let after = candidate.stateful_instances;
    assert(instance_fault(app_id, previous, after, edge, receipts, key) is None);
    if !unchanged(previous, after, key) {
        let i = choose|i: int| is_first_receipt(receipts, key, i);
        assert(first_receipt(receipts, key) == receipts.entries()[i].1);
        assert(crate::edge::required_digests(previous, after, receipts).contains(receipts.entries()[i].1.identity()));
    }
}

/// A transition begins an overlap only between Generations that agree on the state that they share.
pub proof fn a_begun_overlap_is_covered_by_receipts<H, S: ControlStateStore>(
    store: S,
    store_after: S,
    app: Seq<char>,
    before: StateView,
    slots: Map<Seq<char>, LiveSlot<H>>,
    transition: CanonicalDocument<AppGenerationTransitionSpec>,
    candidate: ResolvedGeneration,
    receipts: Receipts,
    now: u128,
    after: StateView,
    slots_after: Map<Seq<char>, LiveSlot<H>>,
    r: Result<(PendingTransition, TransitionStep<H>), ControlPlaneError>,
    active: Seq<char>,
    key: Seq<char>,
)
    requires
        transition_decided(store, store_after, app, before, slots, transition, candidate, receipts, now, after, slots_after, r),
        transition.typed().replacement_mode == ReplacementMode::Overlap,
        before.active_generation_spec_digest == Some(active),
        slots.dom().contains(active),
        r is Ok,
        slots[active].stateful_instances.has(key) || candidate.stateful_instances.has(key),
    ensures
        slots[active].stateful_instances.has(key),
        candidate.stateful_instances.has(key),
        ({
            let old = slots[active].stateful_instances.at(key);
            let new = candidate.stateful_instances.at(key);
            ||| old.runtime_identity@ == new.runtime_identity@ && old.state_schema_digest@ == new.state_schema_digest@
            ||| exists|i: int| {
                let receipt = (#[trigger] receipts.entries()[i]).1.typed();
                &&& 0 <= i < receipts.entries().len()
                &&& receipt.module_instance_key@ == key
                &&& receipt.app_id@ == app
                &&& receipt.old_runtime_identity@ == old.runtime_identity@
                &&& receipt.new_runtime_identity@ == new.runtime_identity@
                &&& receipt.compatibility.concurrent_read
                &&& receipt.compatibility.concurrent_write
                &&& transition.typed().rollout_policy.rollback_window_nanos@ != "0"@
                    || transition.typed().rollout_policy.automatic_rollback_on_generation_failure ==> receipt.compatibility.old_code_reads_new_writes
            }
        }),
{
    overlapping_generations_agree_on_their_state(app, slots[active].stateful_instances, candidate, transition.typed(), receipts, key);
}

/// A receipt that names the one changed Instance, its App and both its identities, and grants what the
/// edge needs, is enough; where nothing changed, no receipt is.
pub proof fn a_fitting_receipt_is_enough(
    app_id: Seq<char>,
    previous: TextMap<StatefulRuntimeIdentity>,
    candidate: ResolvedGeneration,
    edge: AppGenerationTransitionSpec,
    receipt: CanonicalDocument<StateCompatibilityReceipt>,
    key: Seq<char>,
    receipts: Receipts,
)
    requires
        edge.replacement_mode == ReplacementMode::Overlap,
        receipts.wf(),
        forall|other: Seq<char>|
            other != key ==> #[trigger] previous.has(other) == candidate.stateful_instances.has(other) && (previous.has(other) ==> {
                let old = previous.at(other);
                let new = candidate.stateful_instances.at(other);
                &&& old.runtime_identity@ == new.runtime_identity@
                &&& old.state_schema_id@ == new.state_schema_id@
                &&& old.state_schema_digest@ == new.state_schema_digest@
            }),
        previous.has(key),
        candidate.stateful_instances.has(key),
        ({
            let old = previous.at(key);
            let new = candidate.stateful_instances.at(key);
            let found = receipt.typed();
            if old.runtime_identity@ == new.runtime_identity@ && old.state_schema_id@ == new.state_schema_id@ && old.state_schema_digest@
                == new.state_schema_digest@ {
                edge.state_compatibility_receipt_digests@.len() == 0 && receipts.entries().len() == 0
            } else {
                &&& texts(edge.state_compatibility_receipt_digests@) == seq![receipt.identity()]
                &&& receipts.entries() == seq![(receipt.identity(), receipt)]
                &&& found.module_instance_key@ == key
                &&& found.schema_version == 1
                &&& found.app_id@ == app_id
                &&& found.old_runtime_identity@ == old.runtime_identity@
                &&& found.new_runtime_identity@ == new.runtime_identity@
                &&& found.state_schema_id@ == old.state_schema_id@
                &&& found.state_schema_id@ == new.state_schema_id@
                &&& found.old_state_schema_digest@ == old.state_schema_digest@
                &&& found.new_state_schema_digest@ == new.state_schema_digest@
                &&& found.compatibility.concurrent_read
                &&& found.compatibility.concurrent_write
                &&& found.compatibility.old_code_reads_new_writes || (edge.rollout_policy.rollback_window_nanos@ == "0"@
                    && !edge.rollout_policy.automatic_rollback_on_generation_failure)
            }
        }),
    ensures
        compatibility_result(app_id, Some(previous), candidate, edge, receipts, Ok(())),
{
    let after = candidate.stateful_instances;
    assert forall|other: Seq<char>| other != key implies #[trigger] unchanged(previous, after, other) by {
        assert(previous.has(other) == after.has(other));
    }
    if unchanged(previous, after, key) {
        assert forall|other: Seq<char>| previous.has(other) || after.has(other) implies #[trigger] instance_fault(
            app_id,
            previous,
            after,
            edge,
            receipts,
            other,
        ) is None by {
            assert(unchanged(previous, after, other));
        }
        assert(no_instance_fault(app_id, previous, after, edge, receipts));
        let required = crate::edge::required_digests(previous, after, receipts);
        let declared = texts(edge.state_compatibility_receipt_digests@);
        assert forall|digest: Seq<char>| !required.contains(digest) && !declared.contains(digest) && !receipts.has(digest) by {
            if required.contains(digest) {
                let other = choose|other: Seq<char>| (previous.has(other) || after.has(other)) && !#[trigger] unchanged(previous, after, other)
                    && digest == first_receipt(receipts, other).identity();
                assert(unchanged(previous, after, other));
            }
        }
        assert(exact_closure(previous, after, edge, receipts));
    } else {
        one_changed_instance_needs_its_one_receipt(app_id, previous, candidate, edge, receipt, key, receipts);
    }
}

/// An edge is closed exactly where it names the App, the candidate and the Generation that holds the
/// route; a first Generation replaces none and brings no authority of its own, and every other replaces
/// the one that is there.
pub proof fn an_edge_closes_over_both_its_ends(
    app_id: Seq<char>,
    active: Option<Seq<char>>,
    edge: AppGenerationTransitionSpec,
    candidate: ResolvedGeneration,
)
    ensures
        edge_fault(app_id, active, edge, candidate) is None ==> {
            &&& edge.schema_version == 1
            &&& edge.app_id@ == app_id
            &&& candidate.spec.typed().app_id@ == app_id
            &&& edge.to_generation_spec_digest@ == candidate.digest()
            &&& opt_text(edge.from_generation_spec_digest) == active
            &&& (edge.replacement_mode == ReplacementMode::Initial) == (active is None)
        },
        edge_fault(app_id, active, edge, candidate) is None && active is None ==> edge.state_compatibility_receipt_digests@.len() == 0
            && !edge.rollout_policy.automatic_rollback_on_generation_failure,
        edge.schema_version == 1 && edge.app_id@ == app_id && candidate.spec.typed().app_id@ == app_id && edge.to_generation_spec_digest@
            == candidate.digest() && opt_text(edge.from_generation_spec_digest) == active && (active is Some && edge.replacement_mode
            != ReplacementMode::Initial || active is None && edge.replacement_mode == ReplacementMode::Initial
            && edge.state_compatibility_receipt_digests@.len() == 0 && !edge.rollout_policy.automatic_rollback_on_generation_failure)
            ==> edge_fault(app_id, active, edge, candidate) is None,
{
}

/// The deadlines of a transition lie as far ahead of its beginning as its policy says: the drain
/// deadline by the drain timeout, the rollback deadline by the rollback window, and there is none
/// without a window.
pub proof fn deadlines_follow_the_policy(edge: AppGenerationTransitionSpec, now: u128, ready: nat, drain: nat, window: nat)
    requires
        parsed(edge.rollout_policy.ready_timeout_nanos@, u64::MAX as nat) == Some(ready),
        parsed(edge.rollout_policy.drain_timeout_nanos@, u64::MAX as nat) == Some(drain),
        parsed(edge.rollout_policy.rollback_window_nanos@, u64::MAX as nat) == Some(window),
    ensures
        timing(edge, now) is Ok <==> now + drain <= u128::MAX && now + window <= u128::MAX,
        timing(edge, now) matches Ok(times) ==> {
            &&& times.ready == ready
            &&& times.drain == drain
            &&& parsed(times.drain_deadline, u128::MAX as nat) == Some((now + drain) as nat)
            &&& times.rollback_deadline is Some <==> window > 0
            &&& times.rollback_deadline is Some ==> parsed(times.rollback_deadline->Some_0, u128::MAX as nat) == Some((now + window) as nat)
        },
{
    if now + drain <= u128::MAX {
        printed_number_reads_back((now + drain) as nat, u128::MAX as nat);
    }
    if now + window <= u128::MAX {
        printed_number_reads_back((now + window) as nat, u128::MAX as nat);
    }
}

/// A transition that is refused leaves the route, the epochs and every live Generation alone. One that
/// begins enrols its candidate, healthy and not yet in service, under its policy, and touches no other
/// record; a maintenance replacement takes the unleased predecessor out of service first.
pub proof fn a_begun_transition_enrols_its_candidate<H, S: ControlStateStore>(
    store: S,
    store_after: S,
    app: Seq<char>,
    before: StateView,
    slots: Map<Seq<char>, LiveSlot<H>>,
    transition: CanonicalDocument<AppGenerationTransitionSpec>,
    candidate: ResolvedGeneration,
    receipts: Receipts,
    now: u128,
    after: StateView,
    slots_after: Map<Seq<char>, LiveSlot<H>>,
    r: Result<(PendingTransition, TransitionStep<H>), ControlPlaneError>,
    other: Seq<char>,
)
    requires
        transition_decided(store, store_after, app, before, slots, transition, candidate, receipts, now, after, slots_after, r),
        before.valid(app),
    ensures
        after.active_generation_spec_digest == before.active_generation_spec_digest,
        after.routing_epoch == before.routing_epoch,
        after.supervisor_epoch == before.supervisor_epoch,
        r is Err ==> slots_after == slots,
        before.has(other) && other != candidate.digest() ==> after.has(other) && after.record(other) == before.record(other),
        r matches Ok(begun) ==> {
            let edge = transition.typed();
            let record = after.record(candidate.digest());
            &&& before.has(candidate.digest()) ==> before.record(candidate.digest()).lifecycle == ControlLifecycle::Retired
            &&& edge.app_id@ == app && edge.to_generation_spec_digest@ == candidate.digest()
            &&& opt_text(edge.from_generation_spec_digest) == before.active_generation_spec_digest
            &&& after.has(candidate.digest())
            &&& record.lifecycle == ControlLifecycle::Staged
            &&& record.health == ControlHealth::Healthy
            &&& record.activation_direction == ActivationDirection::Forward
            &&& record.transition_spec_digest == transition.identity()
            &&& record.drain_timeout_nanos == edge.rollout_policy.drain_timeout_nanos@
            &&& record.ready_timeout_nanos == edge.rollout_policy.ready_timeout_nanos@
            &&& record.automatic_rollback_on_generation_failure == edge.rollout_policy.automatic_rollback_on_generation_failure
            &&& record.state_compatibility_receipt_digests == texts(edge.state_compatibility_receipt_digests@)
            &&& record.retirement_reason is None
            &&& record.drain_deadline_unix_nanos is None
            &&& begun.0.stages() == candidate.digest()
            &&& Some(begun.0.ready_timeout() as nat) == parsed(edge.rollout_policy.ready_timeout_nanos@, u64::MAX as nat)
            &&& Some(begun.0.drain_timeout() as nat) == parsed(edge.rollout_policy.drain_timeout_nanos@, u64::MAX as nat)
            &&& if edge.replacement_mode == ReplacementMode::Maintenance {
                let active = before.active_generation_spec_digest->Some_0;
                &&& slots[active].leases == 0
                &&& slots_after == slots.remove(active)
                &&& begun.0.stops() == Some(active)
                &&& begun.1 matches TransitionStep::StopActive { handle, drain_timeout_nanos } && handle == slots[active].handle
                    && drain_timeout_nanos == begun.0.drain_timeout()
            } else {
                &&& slots_after == slots
                &&& begun.0.stops() is None
                &&& begun.1 matches TransitionStep::Stage { ready_timeout_nanos } && ready_timeout_nanos == begun.0.ready_timeout()
            }
        },
{
    let edge = transition.typed();
    if edge_fault(app, before.active_generation_spec_digest, edge, candidate) is None && compatibility_result(
        app,
        predecessor(before, slots),
        candidate,
        edge,
        receipts,
        Ok(()),
    ) && timing(edge, now) is Ok {
        let times = timing(edge, now)->Ok_0;
        let digest = candidate.digest();
        let record = candidate_record(digest, transition, times);
        lemma_enrolled_keeps(before, record, other);
        lemma_enrolled_keeps(before, record, digest);
        let next = enrolled(before, record);
        let staged = next.committed(before.revision);
        assert(staged.generations == next.generations);
        assert(staged.has(digest) && staged.record(digest) == next.record(digest));
        if before.has(other) {
            assert(staged.has(other) && staged.record(other) == next.record(other));
        }
        let lost = crate::lifecycle::staging_failed(staged.record(digest));
        staged.lookup(lost, other);
        let dropped = staged.with_record(lost);
        let left = dropped.committed(staged.revision);
        assert(left.generations == dropped.generations);
        if staged.has(other) {
            assert(left.has(other) && left.record(other) == dropped.record(other));
        }
    }
}

proof fn lemma_enrolled_keeps(state: StateView, record: RecordView, other: Seq<char>)
    requires
        state.unique(),
    ensures
        enrolled(state, record).unique(),
        enrolled(state, record).has(record.generation_spec_digest),
        enrolled(state, record).record(record.generation_spec_digest) == record,
        state.has(other) && other != record.generation_spec_digest ==> enrolled(state, record).has(other) && enrolled(state, record).record(other)
            == state.record(other),
{
    let next = enrolled(state, record);
    let digest = record.generation_spec_digest;
    if state.has(digest) {
        state.lookup(record, digest);
        state.lookup(record, other);
    } else {
        let n = state.generations.len() as int;
        assert forall|i: int, j: int| 0 <= i < j < next.generations.len() implies (#[trigger] next.generations[i]).generation_spec_digest
            != (#[trigger] next.generations[j]).generation_spec_digest by {
            if j < n {
                assert(state.generations[i].generation_spec_digest != state.generations[j].generation_spec_digest);
            } else if state.generations[i].generation_spec_digest == digest {
                state.found(i);
            }
        }
        assert(next.generations[n] == record);
        next.found(n);
        if state.has(other) {
            let p = state.position(other);
            assert(next.generations[p] == state.generations[p]);
            next.found(p);
        }
    }
}

/// A switch of the route makes the candidate active and, in an overlap, leaves the predecessor draining
/// on the terms of the transition; it touches no other record and takes the next Routing Epoch.
pub proof fn a_switch_changes_the_two_ends(
    state: StateView,
    candidate: Seq<char>,
    overlap: Option<(Seq<char>, OverlapTerms)>,
    other: Seq<char>,
)
    requires
        state.unique(),
        overlap matches Some((previous, _)) ==> previous != candidate,
    ensures
        activated(state, candidate, overlap) is Ok <==> state.routing_epoch < u64::MAX && state.has(candidate) && (overlap matches Some((previous, _))
            ==> state.has(previous)),
        activated(state, candidate, overlap) matches Ok(next) ==> {
            &&& next.unique()
            &&& next.active_generation_spec_digest == Some(candidate)
            &&& next.routing_epoch == state.routing_epoch + 1
            &&& next.supervisor_epoch == state.supervisor_epoch
            &&& next.has(candidate)
            &&& next.record(candidate) == (RecordView { lifecycle: ControlLifecycle::Active, ..state.record(candidate) })
            &&& overlap matches Some((previous, terms)) ==> {
                let old = state.record(previous);
                let new = next.record(previous);
                &&& next.has(previous)
                &&& new.lifecycle == ControlLifecycle::Draining
                &&& new.drain_deadline_unix_nanos == Some(terms.drain_deadline)
                &&& new.rollback_deadline_unix_nanos == terms.rollback_deadline
                &&& new.transition_spec_digest == terms.transition
                &&& new.automatic_rollback_on_generation_failure == terms.automatic
                &&& new.state_compatibility_receipt_digests == terms.receipts
                &&& new.generation_spec_digest == old.generation_spec_digest
                &&& new.health == old.health
                &&& new.drain_timeout_nanos == old.drain_timeout_nanos
                &&& new.ready_timeout_nanos == old.ready_timeout_nanos
                &&& new.retirement_reason == old.retirement_reason
            }
            &&& state.has(other) && other != candidate && (overlap matches Some((previous, _)) ==> other != previous) ==> next.has(other)
                && next.record(other) == state.record(other)
        },
{
    if state.routing_epoch < u64::MAX && state.has(candidate) {
        let routed = StateView {
            routing_epoch: (state.routing_epoch + 1) as u64,
            active_generation_spec_digest: Some(candidate),
            ..state
        };
        assert(routed.unique() && routed.has(candidate) && routed.record(candidate) == state.record(candidate));
        if state.has(other) {
            assert(routed.has(other) && routed.record(other) == state.record(other));
        }
        let one = RecordView { lifecycle: ControlLifecycle::Active, ..state.record(candidate) };
        routed.lookup(one, candidate);
        routed.lookup(one, other);
        let mid = routed.with_record(one);
        match overlap {
            Some((previous, terms)) => {
                routed.lookup(one, previous);
                if state.has(previous) {
                    assert(routed.has(previous) && routed.record(previous) == state.record(previous));
                    let two = overlapped_record(mid.record(previous), terms);
                    mid.lookup(two, candidate);
                    mid.lookup(two, previous);
                    mid.lookup(two, other);
                } else if routed.has(previous) {
                    let p = routed.position(previous);
                    assert(state.generations[p].generation_spec_digest == previous);
                }
            },
            None => {},
        }
    }
}

/// A staged candidate that is activated holds its resources from then on, without leases, and the
/// outcome says where the route leads. A candidate that gets no route gives its resources back to be
/// stopped within the drain timeout. One that could not be staged is recorded as such.
pub proof fn a_staged_candidate_is_kept_or_given_back<H, S: ControlStateStore>(
    store: S,
    store_after: S,
    app: Seq<char>,
    before: StateView,
    slots: Map<Seq<char>, LiveSlot<H>>,
    pending: PendingTransition,
    staged: Result<H, ControlPlaneError>,
    after: StateView,
    slots_after: Map<Seq<char>, LiveSlot<H>>,
    outcome: StagedOutcome<H>,
)
    requires
        staging_settled(store, store_after, app, before, slots, pending, staged, after, slots_after, outcome),
        before.unique(),
        before.has(pending.stages()),
        pending.overlaps() matches Some((previous, _)) ==> previous != pending.stages(),
    ensures
        outcome is Failed <==> staged is Err,
        outcome matches StagedOutcome::Activated(switch) ==> {
            &&& slots_after.dom().contains(pending.stages())
            &&& slots_after[pending.stages()].handle == staged->Ok_0
            &&& slots_after[pending.stages()].leases == 0
            &&& slots_after[pending.stages()].staged_at == after.routing_epoch
            &&& slots_after.remove(pending.stages()) =~= slots.remove(pending.stages())
            &&& switch.active_generation_spec_digest@ == pending.stages()
            &&& switch.routing_epoch == before.routing_epoch + 1
            &&& switch.supervisor_epoch == before.supervisor_epoch
            &&& switch.activation_direction == ActivationDirection::Forward
            &&& opt_text(switch.draining_generation_spec_digest) == (match pending.overlaps() {
                Some((previous, _)) => Some(previous),
                None => None,
            })
            &&& after.record(pending.stages()) == (RecordView { lifecycle: ControlLifecycle::Active, ..before.record(pending.stages()) })
            &&& pending.overlaps() matches Some((previous, _)) ==> after.record(previous).lifecycle == ControlLifecycle::Draining
        },
        outcome matches StagedOutcome::Discarded { handle, drain_timeout_nanos, .. } ==> {
            &&& Ok::<H, ControlPlaneError>(handle) == staged
            &&& drain_timeout_nanos == pending.drain_timeout()
            &&& slots_after == slots
            &&& after.active_generation_spec_digest == before.active_generation_spec_digest
        },
        outcome is Failed ==> slots_after == slots && after.active_generation_spec_digest == before.active_generation_spec_digest,
        outcome is Failed && after != before ==> {
            let record = after.record(pending.stages());
            &&& record.lifecycle == ControlLifecycle::Retired
            &&& record.health == ControlHealth::Failed
            &&& record.retirement_reason == Some(RetirementReason::StagingFailed)
            &&& outcome->Failed_0@ == staged->Err_0@
        },
{
    let candidate = pending.stages();
    let mark = RecordView { lifecycle: ControlLifecycle::Ready, ..before.record(candidate) };
    before.lookup(mark, candidate);
    let marked = before.with_record(mark);
    let ready = marked.committed(before.revision);
    assert(ready.generations == marked.generations);
    assert(ready.unique() && ready.has(candidate) && ready.record(candidate) == mark);
    let previous = match pending.overlaps() {
        Some((previous, _)) => previous,
        None => candidate,
    };
    a_switch_changes_the_two_ends(ready, candidate, pending.overlaps(), previous);
    if activated(ready, candidate, pending.overlaps()) is Ok {
        let next = activated(ready, candidate, pending.overlaps())->Ok_0;
        let shown = next.committed(ready.revision);
        assert(shown.generations == next.generations);
        assert(shown.record(candidate) == next.record(candidate) && shown.record(previous) == next.record(previous));
    }
    let lost = crate::lifecycle::staging_failed(before.record(candidate));
    before.lookup(lost, candidate);
    let dropped = before.with_record(lost);
    let left = dropped.committed(before.revision);
    assert(left.generations == dropped.generations);
    assert(left.has(candidate) && left.record(candidate) == dropped.record(candidate));
}

/// A predecessor that a maintenance replacement stopped has no route any more and retires as replaced.
/// Where stopping failed it counts as failed, the failure is reported, and the candidate is not staged.
pub proof fn a_maintenance_replacement_retires_its_predecessor<S: ControlStateStore>(
    store: S,
    store_after: S,
    app: Seq<char>,
    before: StateView,
    stopped: Seq<char>,
    candidate: Seq<char>,
    shutdown: Option<ErrorView>,
    after: StateView,
    result: Option<ErrorView>,
)
    requires
        reports(store, store_after, app, before, maintenance_stopped(before, stopped, candidate, shutdown is Some), after, result, shutdown),
        before.unique(),
        stopped != candidate,
        before.has(stopped),
        before.has(candidate),
    ensures
        result is None ==> shutdown is None,
        result is None || after != before ==> {
            &&& after.active_generation_spec_digest is None
            &&& after.routing_epoch == before.routing_epoch
            &&& after.record(stopped).lifecycle == ControlLifecycle::Retired
            &&& after.record(stopped).retirement_reason == Some(RetirementReason::Replaced)
            &&& after.record(stopped).health == (if shutdown is Some { ControlHealth::Failed } else { before.record(stopped).health })
            &&& shutdown is None ==> after.record(candidate) == before.record(candidate)
            &&& shutdown is Some ==> after.record(candidate).lifecycle == ControlLifecycle::Retired && after.record(candidate).health
                == ControlHealth::Failed && after.record(candidate).retirement_reason == Some(RetirementReason::StagingFailed)
        },
{
    let cleared = StateView { active_generation_spec_digest: None, ..before };
    assert(cleared.unique() && cleared.has(stopped) && cleared.has(candidate) && cleared.record(stopped) == before.record(stopped)
        && cleared.record(candidate) == before.record(candidate));
    let one = replaced_record(before.record(stopped), shutdown is Some);
    cleared.lookup(one, stopped);
    cleared.lookup(one, candidate);
    let mid = cleared.with_record(one);
    let two = RecordView {
        lifecycle: ControlLifecycle::Retired,
        health: ControlHealth::Failed,
        retirement_reason: Some(RetirementReason::StagingFailed),
        ..mid.record(candidate)
    };
    mid.lookup(two, stopped);
    mid.lookup(two, candidate);
    let last = if shutdown is Some { mid.with_record(two) } else { mid };
    let shown = last.committed(before.revision);
    assert(shown.generations == last.generations);
    assert(shown.record(stopped) == last.record(stopped) && shown.record(candidate) == last.record(candidate));
}

} // verus!
