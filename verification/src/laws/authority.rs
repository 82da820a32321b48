//! Laws of the authority that a Supervisor holds through its store.
use vstd::prelude::*;

use crate::durable::{swapped, ControlStateStore, DurableControlState, MemoryControlStateStore, RecordView, StateView};
use crate::durable_supervisor::recovery::settled;
use crate::durable_supervisor::retirement::{inactive_failed, maintained, reconciled, MaintenanceStep, StopOrder};
use crate::durable_supervisor::{
    admitted, attempted, claimed, reports, staging_settled, transition_begun, DurableGenerationLease,
    GenerationFailureOutcome, LiveSlot, PendingTransition, StagedOutcome, Timing, TransitionStep,
};
use crate::canonical::CanonicalDocument;
use crate::error::{rejection, ControlPlaneError, ErrorView};
use crate::generation::ResolvedGeneration;
use crate::lifecycle::{
    activated, enrolled, fenced_active, host_replaced, maintenance_stopped, marked, opened, recovery_begun, rolled_back,
    shutdown_begun, suspended, OverlapTerms,
};
use crate::model::AppGenerationTransitionSpec;

verus! {

/// An in-memory store holds exactly the state that a Supervisor counts as current.
pub open spec fn in_step(store: MemoryControlStateStore, app: Seq<char>, current: StateView) -> bool {
    store.recorded() == Some(current) && current.valid(app)
}

/// A commit that succeeds is what an in-memory store holds, and one that fails leaves it alone.
pub proof fn a_commit_is_what_the_store_holds(
    store: MemoryControlStateStore,
    store_after: MemoryControlStateStore,
    app: Seq<char>,
    before: StateView,
    plan: Result<StateView, Seq<char>>,
    after: StateView,
    failure: Option<ErrorView>,
)
    requires
        attempted(store, store_after, app, before, plan, after, failure),
    ensures
        failure is None ==> in_step(store_after, app, after),
        failure is Some ==> store_after.recorded() == store.recorded() && after == before,
{
}

/// A commit of a valid state succeeds where no other Supervisor has written in between.
pub proof fn an_uncontested_commit_succeeds(
    store: MemoryControlStateStore,
    store_after: MemoryControlStateStore,
    app: Seq<char>,
    before: StateView,
    next: StateView,
    after: StateView,
    failure: Option<ErrorView>,
)
    requires
        attempted(store, store_after, app, before, Ok(next), after, failure),
        in_step(store, app, before),
        before.revision < u64::MAX,
        next.committed(before.revision).valid(app),
    ensures
        failure is None,
        after == next.committed(before.revision),
        in_step(store_after, app, after),
{
}

/// Opening, replacing and recovering a Host leave it in step with its store.
pub proof fn a_claim_brings_in_step(
    store: MemoryControlStateStore,
    store_after: MemoryControlStateStore,
    app: Seq<char>,
    plan: spec_fn(StateView) -> Result<StateView, Seq<char>>,
    after: StateView,
)
    requires
        claimed(store, app, plan, Ok((after, store_after))),
    ensures
        in_step(store_after, app, after),
{
    let answer = choose|answer: Result<DurableControlState, ControlPlaneError>|
        #[trigger] crate::durable::load_answers(store, app, answer) && (answer matches Ok(loaded) && loaded@.valid(app) && attempted(
            store,
            store_after,
            app,
            loaded@,
            plan(loaded@),
            after,
            None,
        ));
    a_commit_is_what_the_store_holds(store, store_after, app, answer->Ok_0@, plan(answer->Ok_0@), after, None);
}

/// A commit whose outcome is reported together with what follows it stays in step.
pub proof fn a_reported_commit_stays_in_step(
    store: MemoryControlStateStore,
    store_after: MemoryControlStateStore,
    app: Seq<char>,
    before: StateView,
    plan: Result<StateView, Seq<char>>,
    after: StateView,
    result: Option<ErrorView>,
    follows: Option<ErrorView>,
)
    requires
        in_step(store, app, before),
        reports(store, store_after, app, before, plan, after, result, follows),
    ensures
        in_step(store_after, app, after),
{
}

/// A transition stays in step with its store from its beginning to the outcome of its staging.
pub proof fn a_transition_stays_in_step<H>(
    store: MemoryControlStateStore,
    store_after: MemoryControlStateStore,
    app: Seq<char>,
    before: StateView,
    slots: Map<Seq<char>, LiveSlot<H>>,
    transition: CanonicalDocument<AppGenerationTransitionSpec>,
    candidate: ResolvedGeneration,
    timing: Timing,
    begun: Result<(PendingTransition, TransitionStep<H>), ControlPlaneError>,
    pending: PendingTransition,
    staged: Result<H, ControlPlaneError>,
    outcome: StagedOutcome<H>,
    after: StateView,
    slots_after: Map<Seq<char>, LiveSlot<H>>,
)
    requires
        in_step(store, app, before),
        transition_begun(store, store_after, app, before, slots, transition, candidate, timing, after, slots_after, begun) || staging_settled(
            store,
            store_after,
            app,
            before,
            slots,
            pending,
            staged,
            after,
            slots_after,
            outcome,
        ),
    ensures
        in_step(store_after, app, after),
{
}

/// Maintenance and the reaction to a failed Generation stay in step with the store.
pub proof fn maintenance_stays_in_step<H>(
    store: MemoryControlStateStore,
    store_after: MemoryControlStateStore,
    app: Seq<char>,
    before: StateView,
    slots: Map<Seq<char>, LiveSlot<H>>,
    digest: Seq<char>,
    now: u128,
    observed: Option<ControlPlaneError>,
    after: StateView,
    slots_after: Map<Seq<char>, LiveSlot<H>>,
    step: Result<MaintenanceStep<H>, ControlPlaneError>,
    found: Result<Option<GenerationFailureOutcome>, ControlPlaneError>,
    order: Result<StopOrder<H>, ControlPlaneError>,
)
    requires
        in_step(store, app, before),
        ({
            ||| maintained(store, store_after, app, before, slots, digest, now, after, slots_after, step)
            ||| reconciled(store, store_after, app, before, observed, now, after, found)
            ||| inactive_failed(store, store_after, app, before, slots, digest, after, slots_after, order)
        }),
    ensures
        in_step(store_after, app, after),
{
}

/// A Supervisor that is in step with its store grants a lease on the Generation that holds the
/// route, under the current Routing Epoch.
pub proof fn a_route_is_admitted_in_step<H>(
    store: MemoryControlStateStore,
    app: Seq<char>,
    current: StateView,
    slots: Map<Seq<char>, LiveSlot<H>>,
    slots_after: Map<Seq<char>, LiveSlot<H>>,
    r: Result<DurableGenerationLease, ControlPlaneError>,
)
    requires
        in_step(store, app, current),
        current.active_generation_spec_digest matches Some(active) && slots.dom().contains(active) && slots[active].leases < usize::MAX,
        admitted(store, app, current, slots, current.routing_epoch, slots_after, r),
    ensures
        r matches Ok(lease) && Some(lease.pinned()) == current.active_generation_spec_digest && lease.epoch() == current.routing_epoch
            && lease.supervisor() == current.supervisor_epoch,
{
}

/// After any commit that succeeds, be it of a transition, a rollback or a recovery, a lease is
/// granted on the Generation that the committed state routes to.
pub proof fn a_route_is_admitted_after_a_commit<H>(
    store: MemoryControlStateStore,
    store_after: MemoryControlStateStore,
    app: Seq<char>,
    before: StateView,
    plan: Result<StateView, Seq<char>>,
    after: StateView,
    slots: Map<Seq<char>, LiveSlot<H>>,
    slots_after: Map<Seq<char>, LiveSlot<H>>,
    r: Result<DurableGenerationLease, ControlPlaneError>,
)
    requires
        attempted(store, store_after, app, before, plan, after, None),
        after.active_generation_spec_digest matches Some(active) && slots.dom().contains(active) && slots[active].leases < usize::MAX,
        admitted(store_after, app, after, slots, after.routing_epoch, slots_after, r),
    ensures
        r matches Ok(lease) && Some(lease.pinned()) == after.active_generation_spec_digest && lease.epoch() == after.routing_epoch,
{
    a_commit_is_what_the_store_holds(store, store_after, app, before, plan, after, None);
    a_route_is_admitted_in_step(store_after, app, after, slots, slots_after, r);
}

/// After a transition a lease is granted on its candidate, under the epoch that the transition
/// reports.
pub proof fn an_activated_candidate_is_routed_to<H>(
    store: MemoryControlStateStore,
    store_after: MemoryControlStateStore,
    app: Seq<char>,
    before: StateView,
    slots: Map<Seq<char>, LiveSlot<H>>,
    pending: PendingTransition,
    staged: Result<H, ControlPlaneError>,
    after: StateView,
    slots_after: Map<Seq<char>, LiveSlot<H>>,
    outcome: StagedOutcome<H>,
    slots_leased: Map<Seq<char>, LiveSlot<H>>,
    r: Result<DurableGenerationLease, ControlPlaneError>,
)
    requires
        staging_settled(store, store_after, app, before, slots, pending, staged, after, slots_after, outcome),
        outcome is Activated,
        admitted(store_after, app, after, slots_after, after.routing_epoch, slots_leased, r),
    ensures
        r matches Ok(lease) && lease.pinned() == pending.stages() && lease.epoch() == outcome->Activated_0.routing_epoch,
{
}

/// A state that takes the authority over an App from whoever held it.
pub open spec fn takes_over(state: StateView, next: StateView) -> bool {
    ||| opened(state) == Ok::<StateView, Seq<char>>(next)
    ||| host_replaced(state) == Ok::<StateView, Seq<char>>(next)
    ||| recovery_begun(state) == Ok::<StateView, Seq<char>>(next)
}

/// No other operation changes who holds the authority.
pub proof fn only_a_takeover_changes_the_authority<H>(
    state: StateView,
    next: StateView,
    digest: Seq<char>,
    other: Seq<char>,
    record: RecordView,
    overlap: Option<(Seq<char>, OverlapTerms)>,
    now: u128,
    flag: bool,
    failed_active: Option<(Seq<char>, bool)>,
    slots: Map<Seq<char>, LiveSlot<H>>,
)
    requires
        ({
            ||| suspended(state) == next
            ||| enrolled(state, record) == next
            ||| state.with_record(record) == next
            ||| marked(state, digest, record) == Ok::<StateView, Seq<char>>(next)
            ||| activated(state, digest, overlap) == Ok::<StateView, Seq<char>>(next)
            ||| maintenance_stopped(state, digest, other, flag) == Ok::<StateView, Seq<char>>(next)
            ||| rolled_back(state, digest, now, flag) == Ok::<StateView, Seq<char>>(next)
            ||| fenced_active(state, digest, now) == Ok::<StateView, Seq<char>>(next)
            ||| shutdown_begun(state, now) == Ok::<StateView, Seq<char>>(next)
            ||| settled(state, failed_active, slots, now, Ok(next))
        }),
    ensures
        next.supervisor_epoch == state.supervisor_epoch,
        next.app_id == state.app_id,
{
}

/// What one store holds over time: each state was committed over the one before it, by a takeover
/// or by an operation that keeps the authority.
pub open spec fn history(states: Seq<StateView>) -> bool {
    forall|i: int| 0 <= i < states.len() - 1 ==> follows_on(#[trigger] states[i], states[i + 1])
}

/// A state was committed over the other.
pub open spec fn follows_on(state: StateView, after: StateView) -> bool {
    &&& state.revision < u64::MAX
    &&& exists|next: StateView| {
        &&& after == #[trigger] next.committed(state.revision)
        &&& takes_over(state, next) || next.supervisor_epoch == state.supervisor_epoch
    }
}

proof fn lemma_history_grows(states: Seq<StateView>, i: int, j: int)
    requires
        history(states),
        0 <= i <= j < states.len(),
    ensures
        states[i].supervisor_epoch <= states[j].supervisor_epoch,
        states[j].revision == states[i].revision + (j - i),
    decreases j - i,
{
    if i < j {
        lemma_history_grows(states, i, j - 1);
        assert(follows_on(states[j - 1], states[j - 1 + 1]));
    }
}

/// Supervisors over one store fence each other: from the moment that another one took over, a
/// Supervisor is refused every route, under any epoch, whatever is committed later, and keeps its
/// lease counts; and every state that it offers is refused and leaves the store as it is.
pub proof fn a_taken_over_supervisor_is_fenced_for_good<H>(
    states: Seq<StateView>,
    held: int,
    taken: int,
    later: int,
    app: Seq<char>,
    slots: Map<Seq<char>, LiveSlot<H>>,
    routing_epoch: u64,
    slots_after: Map<Seq<char>, LiveSlot<H>>,
    r: Result<DurableGenerationLease, ControlPlaneError>,
    offered: StateView,
    store: MemoryControlStateStore,
    store_after: MemoryControlStateStore,
    answer: Result<DurableControlState, ControlPlaneError>,
)
    requires
        history(states),
        0 <= held <= taken < later < states.len(),
        exists|next: StateView| states[taken + 1] == #[trigger] next.committed(states[taken].revision) && takes_over(states[taken], next),
        in_step(store, app, states[later]),
        admitted(store, app, states[held], slots, routing_epoch, slots_after, r),
        store.swaps(app, states[held].revision, offered, answer, store_after),
    ensures
        states[later].supervisor_epoch > states[held].supervisor_epoch,
        r matches Err(error) && error@ == rejection("Generation Supervisor was fenced by newer durable authority"@),
        slots_after == slots,
        answer is Err,
        store_after.recorded() == store.recorded(),
{
    lemma_history_grows(states, held, taken);
    lemma_history_grows(states, taken + 1, later);
    lemma_history_grows(states, held, later);
    assert(states[taken + 1].supervisor_epoch == states[taken].supervisor_epoch + 1);
}

/// A Supervisor that was not taken over is not fenced by what a fenced one tries: the store holds
/// the same state before and after, so the next lease is answered alike.
pub proof fn a_fenced_supervisor_disturbs_nobody<H>(
    store: MemoryControlStateStore,
    store_after: MemoryControlStateStore,
    app: Seq<char>,
    expected: u64,
    offered: StateView,
    answer: Result<DurableControlState, ControlPlaneError>,
    current: StateView,
    slots: Map<Seq<char>, LiveSlot<H>>,
    slots_after: Map<Seq<char>, LiveSlot<H>>,
    r: Result<DurableGenerationLease, ControlPlaneError>,
)
    requires
        in_step(store, app, current),
        expected != current.revision,
        store.swaps(app, expected, offered, answer, store_after),
        current.active_generation_spec_digest matches Some(active) && slots.dom().contains(active) && slots[active].leases < usize::MAX,
        admitted(store_after, app, current, slots, current.routing_epoch, slots_after, r),
    ensures
        answer is Err,
        in_step(store_after, app, current),
        r is Ok,
{
    assert(swapped(current, app, expected, offered) is Err);
    a_route_is_admitted_in_step(store_after, app, current, slots, slots_after, r);
}

} // verus!
