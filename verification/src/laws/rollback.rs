//! The law of the rollback window, over the transition that opens it and the rollback that uses it.
use vstd::prelude::*;

use super::authority::{a_transition_stays_in_step, an_uncontested_commit_succeeds, in_step};
use super::rollback_keeps_the_state_valid;
use crate::canonical::CanonicalDocument;
use crate::durable::{ActivationDirection, ControlLifecycle, MemoryControlStateStore, RecordView, StateView};
use crate::durable_supervisor::{
    attempted, candidate_record, staging_settled, timing, transition_begun, LiveSlot, PendingTransition, StagedOutcome, Timing,
    TransitionStep,
};
use crate::error::{rejection, ControlPlaneError, ErrorView};
use crate::generation::ResolvedGeneration;
use crate::lifecycle::{enrolled, nanos, overlapped_record, reactivated_record, rolled_back, standby_record};
use crate::model::{AppGenerationTransitionSpec, ReplacementMode};
use crate::text::{decimal, opt_text, printed_number_reads_back};

verus! {

proof fn lemma_enrolled_record(state: StateView, record: RecordView, other: Seq<char>)
    requires
        state.unique(),
    ensures
        enrolled(state, record).unique(),
        enrolled(state, record).has(record.generation_spec_digest),
        enrolled(state, record).record(record.generation_spec_digest) == record,
        state.has(other) && other != record.generation_spec_digest ==> enrolled(state, record).has(other) && enrolled(state, record).record(other)
            == state.record(other),
{
    let next = enrolled(state, record);
    let digest = record.generation_spec_digest;
    if state.has(digest) {
        state.lookup(record, digest);
        state.lookup(record, other);
    } else {
        let n = state.generations.len() as int;
        assert forall|i: int, j: int| 0 <= i < j < next.generations.len() implies (#[trigger] next.generations[i]).generation_spec_digest
            != (#[trigger] next.generations[j]).generation_spec_digest by {
            if j < n {
                assert(state.generations[i].generation_spec_digest != state.generations[j].generation_spec_digest);
            } else {
                assert(state.generations[i].generation_spec_digest != digest) by {
                    if state.generations[i].generation_spec_digest == digest {
                        state.found(i);
                    }
                }
            }
        }
        assert(next.generations[n] == record);
        next.found(n);
        if state.has(other) {
            let p = state.position(other);
            assert(next.generations[p] == state.generations[p]);
            next.found(p);
        }
    }
}

/// The records after an overlap whose candidate was enrolled in a state and got the route.
proof fn lemma_overlap_records<H>(
    stores: (MemoryControlStateStore, MemoryControlStateStore, MemoryControlStateStore),
    app: Seq<char>,
    before: StateView,
    slots: (Map<Seq<char>, LiveSlot<H>>, Map<Seq<char>, LiveSlot<H>>, Map<Seq<char>, LiveSlot<H>>),
    transition: CanonicalDocument<AppGenerationTransitionSpec>,
    candidate: ResolvedGeneration,
    times: Timing,
    enrolment: StateView,
    begun: Result<(PendingTransition, TransitionStep<H>), ControlPlaneError>,
    staged: Result<H, ControlPlaneError>,
    after: StateView,
    outcome: StagedOutcome<H>,
    previous: Seq<char>,
)
    requires
        before.valid(app),
        before.active_generation_spec_digest == Some(previous),
        candidate.digest() != previous,
        transition.typed().replacement_mode == ReplacementMode::Overlap,
        opt_text(transition.typed().from_generation_spec_digest) == Some(previous),
        transition_begun(stores.0, stores.1, app, before, slots.0, transition, candidate, times, enrolment, slots.1, begun),
        begun is Ok,
        staging_settled(stores.1, stores.2, app, enrolment, slots.1, begun->Ok_0.0, staged, after, slots.2, outcome),
        outcome is Activated,
    ensures
        after.active_generation_spec_digest == Some(candidate.digest()),
        after.has(previous),
        after.has(candidate.digest()),
        after.record(previous).lifecycle == ControlLifecycle::Draining,
        after.record(previous).rollback_deadline_unix_nanos == times.rollback_deadline,
        after.record(previous).transition_spec_digest == transition.identity(),
        after.record(candidate.digest()).transition_spec_digest == transition.identity(),
        after.record(candidate.digest()).drain_timeout_nanos == transition.typed().rollout_policy.drain_timeout_nanos@,
        outcome->Activated_0.routing_epoch == after.routing_epoch,
{
    let digest = candidate.digest();
    let record = candidate_record(digest, transition, times);
    let next = enrolled(before, record);
    lemma_enrolled_record(before, record, previous);
    assert(enrolment == next.committed(before.revision));
    assert(enrolment.generations == next.generations);
    assert(enrolment.has(digest) && enrolment.has(previous) && enrolment.unique());
    assert(enrolment.record(digest) == record && enrolment.record(previous) == before.record(previous));
    let mark = RecordView { lifecycle: ControlLifecycle::Ready, ..record };
    let marked = enrolment.with_record(mark);
    enrolment.lookup(mark, digest);
    enrolment.lookup(mark, previous);
    let ready = marked.committed(enrolment.revision);
    assert(ready.generations == marked.generations);
    assert(ready.has(digest) && ready.has(previous) && ready.unique());
    assert(ready.record(digest) == mark && ready.record(previous) == before.record(previous));
    let routed = StateView {
        routing_epoch: (ready.routing_epoch + 1) as u64,
        active_generation_spec_digest: Some(digest),
        ..ready
    };
    assert(routed.has(digest) && routed.has(previous) && routed.unique());
    assert(routed.record(digest) == mark && routed.record(previous) == before.record(previous));
    let one = RecordView { lifecycle: ControlLifecycle::Active, ..mark };
    routed.lookup(one, digest);
    routed.lookup(one, previous);
    let mid = routed.with_record(one);
    let terms = begun->Ok_0.0.overlaps()->Some_0.1;
    let two = overlapped_record(mid.record(previous), terms);
    mid.lookup(two, digest);
    mid.lookup(two, previous);
    let last = mid.with_record(two);
    assert(after == last.committed(ready.revision));
    assert(after.generations == last.generations);
    assert(after.has(digest) && after.has(previous));
    assert(after.record(digest) == last.record(digest) && after.record(previous) == last.record(previous));
}

/// A transition with a rollback window keeps its promise: a rollback to the predecessor succeeds
/// before the window ends, be the predecessor draining or standing by, and is refused from then on.
///
/// The overlap begins at `then` and its rollback is asked for at `now`; the moment at which the
/// draining of the candidate would have to end fits the clock, and no epoch or revision is exhausted.
pub proof fn a_rollback_window_holds<H>(
    stores: (MemoryControlStateStore, MemoryControlStateStore, MemoryControlStateStore),
    app: Seq<char>,
    before: StateView,
    slots: (Map<Seq<char>, LiveSlot<H>>, Map<Seq<char>, LiveSlot<H>>, Map<Seq<char>, LiveSlot<H>>),
    transition: CanonicalDocument<AppGenerationTransitionSpec>,
    candidate: ResolvedGeneration,
    then: u128,
    enrolment: StateView,
    begun: Result<(PendingTransition, TransitionStep<H>), ControlPlaneError>,
    staged: Result<H, ControlPlaneError>,
    after: StateView,
    outcome: StagedOutcome<H>,
    previous: Seq<char>,
    window: nat,
    drain: nat,
    held: StateView,
    store: MemoryControlStateStore,
    store_after: MemoryControlStateStore,
    now: u128,
    last: StateView,
    failure: Option<ErrorView>,
)
    requires
        in_step(stores.0, app, before),
        before.active_generation_spec_digest == Some(previous),
        candidate.digest() != previous,
        transition.typed().replacement_mode == ReplacementMode::Overlap,
        opt_text(transition.typed().from_generation_spec_digest) == Some(previous),
        nanos(transition.typed().rollout_policy.rollback_window_nanos@, "rollback window"@) == Ok::<nat, Seq<char>>(window),
        nanos(transition.typed().rollout_policy.drain_timeout_nanos@, "drain timeout"@) == Ok::<nat, Seq<char>>(drain),
        window > 0,
        timing(transition.typed(), then) is Ok,
        transition_begun(
            stores.0,
            stores.1,
            app,
            before,
            slots.0,
            transition,
            candidate,
            timing(transition.typed(), then)->Ok_0,
            enrolment,
            slots.1,
            begun,
        ),
        begun is Ok,
        staging_settled(stores.1, stores.2, app, enrolment, slots.1, begun->Ok_0.0, staged, after, slots.2, outcome),
        outcome is Activated,
        held == after || held == after.with_record(standby_record(after.record(previous))).committed(after.revision),
        in_step(store, app, held),
        held.routing_epoch < u64::MAX,
        held.revision < u64::MAX,
        now + drain <= u128::MAX,
        attempted(store, store_after, app, held, rolled_back(held, previous, now, false), last, failure),
    ensures
        now < then + window ==> {
            &&& failure is None
            &&& in_step(store_after, app, last)
            &&& last.active_generation_spec_digest == Some(previous)
            &&& last.routing_epoch == outcome->Activated_0.routing_epoch + 1
            &&& last.record(previous) == reactivated_record(held.record(previous))
            &&& last.record(previous).lifecycle == ControlLifecycle::Active
            &&& last.record(previous).activation_direction == ActivationDirection::Rollback
            &&& last.record(previous).drain_deadline_unix_nanos is None
            &&& last.record(candidate.digest()).lifecycle == ControlLifecycle::Draining
            &&& last.record(candidate.digest()).drain_deadline_unix_nanos == Some(decimal((now + drain) as nat))
        },
        now >= then + window ==> failure == Some(rejection("rollback target is not a retained predecessor"@)) && last == held
            && store_after == store,
{
    let times = timing(transition.typed(), then)->Ok_0;
    let digest = candidate.digest();
    lemma_overlap_records(
        stores,
        app,
        before,
        slots,
        transition,
        candidate,
        times,
        enrolment,
        begun,
        staged,
        after,
        outcome,
        previous,
    );
    a_transition_stays_in_step(
        stores.0,
        stores.1,
        app,
        before,
        slots.0,
        transition,
        candidate,
        times,
        begun,
        begun->Ok_0.0,
        staged,
        outcome,
        enrolment,
        slots.1,
    );
    a_transition_stays_in_step(
        stores.1,
        stores.2,
        app,
        enrolment,
        slots.1,
        transition,
        candidate,
        times,
        begun,
        begun->Ok_0.0,
        staged,
        outcome,
        after,
        slots.2,
    );
    if held != after {
        let stands = standby_record(after.record(previous));
        after.lookup(stands, previous);
        after.lookup(stands, digest);
        let marked = after.with_record(stands);
        assert(held.generations == marked.generations);
        assert(held.has(previous) && held.has(digest));
        assert(held.record(previous) == marked.record(previous) && held.record(digest) == marked.record(digest));
    }
    printed_number_reads_back((then + window) as nat, u128::MAX as nat);
    assert(held.record(previous).rollback_deadline_unix_nanos == Some(decimal((then + window) as nat)));
    if now < then + window {
        let next = rolled_back(held, previous, now, false)->Ok_0;
        rollback_keeps_the_state_valid(held, app, previous, now, false);
        assert(next.committed(held.revision).valid(app)) by {
            let shown = next.committed(held.revision);
            assert(shown.generations == next.generations);
            if shown.active_generation_spec_digest is Some {
                assert(shown.record(previous) == next.record(previous));
            }
        }
        an_uncontested_commit_succeeds(store, store_after, app, held, next, last, failure);
        let routed = StateView {
            routing_epoch: (held.routing_epoch + 1) as u64,
            active_generation_spec_digest: Some(previous),
            ..held
        };
        assert(routed.has(previous) && routed.has(digest) && routed.unique());
        assert(routed.record(previous) == held.record(previous) && routed.record(digest) == held.record(digest));
        let one = reactivated_record(held.record(previous));
        routed.lookup(one, previous);
        routed.lookup(one, digest);
        let mid = routed.with_record(one);
        let until = decimal((now + drain) as nat);
        let two = crate::lifecycle::draining_record(held.record(digest), until);
        mid.lookup(two, previous);
        mid.lookup(two, digest);
        assert(next == mid.with_record(two));
        assert(last.generations == next.generations);
        assert(last.record(previous) == next.record(previous) && last.record(digest) == next.record(digest));
    }
}

} // verus!
