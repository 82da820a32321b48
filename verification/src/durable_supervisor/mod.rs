//! Fenced App Generation state machine over durable control state.
//!
//! The state machine owns every decision: which state to commit, which Generation to stage or
//! stop, and what to report. Staging and stopping run outside of it and take time, so an
//! operation that needs them is cut into steps: a step hands out what is to be done, and the
//! following step takes what came of it.
pub mod maintenance;
pub mod recovery;
pub mod retirement;
pub mod suspension;

use vstd::prelude::*;
use vstd::string::*;

use crate::durable::{
    load_answers, load_from, ActivationDirection, ControlHealth, ControlLifecycle, ControlStateStore,
    DurableControlState, GenerationControlRecord, RecordView, RetirementReason, StateView,
};
use crate::edge::{compatibility_result, edge_fault, owned, validate_edge, validate_state_compatibility, Receipts};
use crate::error::{rejected, rejection, ControlPlaneError, ErrorView};
use crate::generation::{copy_identities, identities, ResolvedGeneration};
use crate::lifecycle::{
    activated, deadline, drain_deadline, enrolled, failed_record, fenced_active, host_replaced, live,
    maintenance_stopped, marked, moment, moment_after, nanos, opened, overlap_view, parse_nanos,
    required_rollback_deadline, rollback_deadline, rolled_back, shutdown_begun, shutdown_settles_each, staging_failed,
    unknown, unknown_generation, Overlap, OverlapTerms,
};
use crate::model::{AppGenerationTransitionSpec, ReplacementMode, StatefulRuntimeIdentity};
use crate::canonical::CanonicalDocument;
use crate::text;
use crate::text::{opt_text, texts};
use crate::text_map::TextMap;

verus! {

/// One Generation that holds Host resources.
#[derive(Debug)]
pub struct LiveSlot<H> {
    /// The resources, as the runtime knows them.
    pub handle: H,
    /// Routes that are pinned to the Generation.
    pub leases: usize,
    /// The Routing Epoch in which the resources were installed.
    pub staged_at: u64,
    /// The stateful Instances of the Generation.
    pub stateful_instances: TextMap<StatefulRuntimeIdentity>,
}

/// Fenced, route-pinned authority for one complete product operation.
#[derive(Debug)]
pub struct DurableGenerationLease {
    generation_spec_digest: String,
    supervisor_epoch: u64,
    routing_epoch: u64,
    staged_at: u64,
}

impl DurableGenerationLease {
    /// The pinned Generation.
    pub closed spec fn pinned(self) -> Seq<char> {
        self.generation_spec_digest@
    }

    /// The Supervisor epoch of the admission.
    pub closed spec fn supervisor(self) -> u64 {
        self.supervisor_epoch
    }

    /// The Routing Epoch of the admission.
    pub closed spec fn epoch(self) -> u64 {
        self.routing_epoch
    }

    /// The installation that the lease counts against.
    pub closed spec fn installation(self) -> u64 {
        self.staged_at
    }

    /// Returns the exact immutable Generation selected at route admission.
    pub fn generation_spec_digest(&self) -> (r: &str)
        ensures
            r@ == self.pinned(),
    {
        self.generation_spec_digest.as_str()
    }

    /// Returns the Supervisor epoch that admitted the route.
    pub fn supervisor_epoch(&self) -> (r: u64)
        ensures
            r == self.supervisor(),
    {
        self.supervisor_epoch
    }

    /// Returns the fencing epoch committed with this route.
    pub fn routing_epoch(&self) -> (r: u64)
        ensures
            r == self.epoch(),
    {
        self.routing_epoch
    }
}

/// Route target pinned to one immutable Generation for a complete work unit.
#[derive(Debug)]
pub struct DurableGenerationRoute<T> {
    target: T,
    lease: DurableGenerationLease,
}

impl<T> DurableGenerationRoute<T> {
    /// What the route leads to.
    pub closed spec fn leads_to(self) -> T {
        self.target
    }

    /// The lease that pins the target.
    pub closed spec fn held(self) -> DurableGenerationLease {
        self.lease
    }

    /// Returns the invocation target.
    pub fn target(&self) -> (r: &T)
        ensures
            *r == self.leads_to(),
    {
        &self.target
    }

    /// Returns the pinned Generation.
    pub fn generation_spec_digest(&self) -> (r: &str)
        ensures
            r@ == self.held().pinned(),
    {
        self.lease.generation_spec_digest()
    }

    /// Returns the Supervisor epoch that admitted the route.
    pub fn supervisor_epoch(&self) -> (r: u64)
        ensures
            r == self.held().supervisor(),
    {
        self.lease.supervisor_epoch()
    }

    /// Returns the fencing epoch committed with this route.
    pub fn routing_epoch(&self) -> (r: u64)
        ensures
            r == self.held().epoch(),
    {
        self.lease.routing_epoch()
    }

    /// Parts the target from the lease.
    pub fn into_parts(self) -> (r: (T, DurableGenerationLease))
        ensures
            r.0 == self.leads_to(),
            r.1 == self.held(),
    {
        (self.target, self.lease)
    }
}

/// Durable result of a forward route switch or rollback.
#[derive(Clone, Debug, PartialEq, Eq)]
pub struct DurableTransitionOutcome {
    pub active_generation_spec_digest: String,
    pub supervisor_epoch: u64,
    pub routing_epoch: u64,
    pub draining_generation_spec_digest: Option<String>,
    pub activation_direction: ActivationDirection,
}

/// One newly observed terminal Generation failure and its policy result.
#[derive(Clone, Debug, PartialEq, Eq)]
pub struct GenerationFailureOutcome {
    pub generation_spec_digest: String,
    pub failure: ControlPlaneError,
    pub automatic_rollback: Option<DurableTransitionOutcome>,
}

/// Observable result of one automatic lifecycle-maintenance pass.
#[derive(Clone, Debug, PartialEq, Eq)]
pub enum GenerationMaintenanceOutcome {
    Failed(GenerationFailureOutcome),
    Standby { generation_spec_digest: String },
    Retired { generation_spec_digest: String, reason: RetirementReason },
}

/// Fenced App Generation state machine with durable CAS authority and recovery.
#[derive(Debug)]
pub struct DurableGenerationSupervisor<H, S: ControlStateStore> {
    app_id: String,
    store: S,
    state: DurableControlState,
    slots: TextMap<LiveSlot<H>>,
}

/// A planned state was offered to the store, once, over the state before it: the store committed
/// it, or it refused it with the failure and the state stayed. A plan that could not be made
/// changed nothing, did not reach the store, and says why.
pub open spec fn attempted<S: ControlStateStore>(
    store: S,
    store_after: S,
    app: Seq<char>,
    before: StateView,
    plan: Result<StateView, Seq<char>>,
    after: StateView,
    failure: Option<ErrorView>,
) -> bool {
    match plan {
        Err(detail) => store_after == store && after == before && failure == Some(rejection(detail)),
        Ok(next) => exists|answer: Result<DurableControlState, ControlPlaneError>| {
            &&& #[trigger] store.swaps(app, before.revision, next, answer, store_after)
            &&& match answer {
                Ok(_) => failure is None && before.revision < u64::MAX && after == next.committed(before.revision),
                Err(error) => failure == Some(error@) && after == before,
            }
        },
    }
}

/// The attempt failed.
pub open spec fn refused<S: ControlStateStore>(
    store: S,
    app: Seq<char>,
    before: StateView,
    plan: Result<StateView, Seq<char>>,
    failure: ErrorView,
) -> bool {
    exists|left: S| #[trigger] attempted(store, left, app, before, plan, before, Some(failure))
}

/// The authority over an App was claimed from the state that its store loaded: the plan over
/// that state was committed, or the failure is the one of the load, the plan or the commit.
pub open spec fn claimed<S: ControlStateStore>(
    store: S,
    app: Seq<char>,
    plan: spec_fn(StateView) -> Result<StateView, Seq<char>>,
    result: Result<(StateView, S), ErrorView>,
) -> bool {
    exists|answer: Result<DurableControlState, ControlPlaneError>| {
        &&& #[trigger] load_answers(store, app, answer)
        &&& match answer {
            Err(error) => result == Err::<(StateView, S), ErrorView>(error@),
            Ok(loaded) => loaded@.valid(app) && match result {
                Ok((after, store_after)) => attempted(store, store_after, app, loaded@, plan(loaded@), after, None),
                Err(error) => refused(store, app, loaded@, plan(loaded@), error),
            },
        }
    }
}

/// The failure of a result.
pub open spec fn failure<T>(r: Result<T, ControlPlaneError>) -> Option<ErrorView> {
    match r {
        Ok(_) => None,
        Err(error) => Some(error@),
    }
}

/// Why durable authority does not admit a route.
pub open spec fn lease_fault<H>(current: StateView, slots: Map<Seq<char>, LiveSlot<H>>, durable: StateView, routing_epoch: u64) -> Option<Seq<char>> {
    if durable.supervisor_epoch != current.supervisor_epoch || durable.routing_epoch != current.routing_epoch
        || durable.revision != current.revision || durable.active_generation_spec_digest
        != current.active_generation_spec_digest {
        Some("Generation Supervisor was fenced by newer durable authority"@)
    } else if routing_epoch != current.routing_epoch {
        Some("router presented an obsolete Routing Epoch"@)
    } else {
        match current.active_generation_spec_digest {
            None => Some("no active App Generation"@),
            Some(digest) => if !slots.dom().contains(digest) {
                Some("active Generation has no recovered runtime handle"@)
            } else if slots[digest].leases == usize::MAX {
                Some("Generation lease count exhausted"@)
            } else {
                None
            },
        }
    }
}

/// A route was admitted against a durable state, or refused with the reason.
pub open spec fn leased<H>(
    current: StateView,
    slots: Map<Seq<char>, LiveSlot<H>>,
    durable: StateView,
    routing_epoch: u64,
    slots_after: Map<Seq<char>, LiveSlot<H>>,
    r: Result<DurableGenerationLease, ControlPlaneError>,
) -> bool {
    match lease_fault(current, slots, durable, routing_epoch) {
        Some(detail) => failure(r) == Some(rejection(detail)) && slots_after == slots,
        None => {
            let digest = current.active_generation_spec_digest->Some_0;
            let slot = slots[digest];
            &&& r matches Ok(lease) && lease.pinned() == digest && lease.supervisor() == current.supervisor_epoch && lease.epoch()
                == routing_epoch && lease.installation() == slot.staged_at
            &&& slots_after == slots.insert(digest, LiveSlot { leases: (slot.leases + 1) as usize, ..slot })
        },
    }
}

/// A route was admitted against the state that the store loaded, or refused with the reason or
/// with the failure of the load.
pub open spec fn admitted<H, S: ControlStateStore>(
    store: S,
    app: Seq<char>,
    current: StateView,
    slots: Map<Seq<char>, LiveSlot<H>>,
    routing_epoch: u64,
    slots_after: Map<Seq<char>, LiveSlot<H>>,
    r: Result<DurableGenerationLease, ControlPlaneError>,
) -> bool {
    exists|answer: Result<DurableControlState, ControlPlaneError>| {
        &&& #[trigger] load_answers(store, app, answer)
        &&& match answer {
            Err(error) => r == Err::<DurableGenerationLease, ControlPlaneError>(error) && slots_after == slots,
            Ok(durable) => durable@.valid(app) && leased(current, slots, durable@, routing_epoch, slots_after, r),
        }
    }
}

/// A lease was given back: it counts against the resources that it was taken on, and against no other.
pub open spec fn released<H>(
    slots: Map<Seq<char>, LiveSlot<H>>,
    lease: DurableGenerationLease,
    slots_after: Map<Seq<char>, LiveSlot<H>>,
) -> bool {
    if slots.dom().contains(lease.pinned()) && slots[lease.pinned()].staged_at == lease.installation() {
        let slot = slots[lease.pinned()];
        slots_after == slots.insert(
            lease.pinned(),
            LiveSlot { leases: (if slot.leases > 0 { slot.leases - 1 } else { 0 }) as usize, ..slot },
        )
    } else {
        slots_after == slots
    }
}

/// A route leads where the resources of the Generation that its lease pins project to, or it was
/// refused as the lease was.
pub open spec fn routed<H, T, F: Fn(&H) -> T>(
    slots: Map<Seq<char>, LiveSlot<H>>,
    lease: Result<DurableGenerationLease, ControlPlaneError>,
    project: F,
    r: Result<DurableGenerationRoute<T>, ControlPlaneError>,
) -> bool {
    match lease {
        Err(error) => r == Err::<DurableGenerationRoute<T>, ControlPlaneError>(error),
        Ok(lease) => r matches Ok(route) && route.held() == lease && call_ensures(
            project,
            (&slots[lease.pinned()].handle,),
            route.leads_to(),
        ),
    }
}

/// A route switch as it is reported.
pub open spec fn reported(outcome: DurableTransitionOutcome, state: StateView, draining: Option<Seq<char>>, direction: ActivationDirection) -> bool {
    &&& state.active_generation_spec_digest == Some(outcome.active_generation_spec_digest@)
    &&& outcome.supervisor_epoch == state.supervisor_epoch
    &&& outcome.routing_epoch == state.routing_epoch
    &&& opt_text(outcome.draining_generation_spec_digest) == draining
    &&& outcome.activation_direction == direction
}

/// The record is one that an automatic rollback of the transition may return to.
pub open spec fn rollback_target(record: RecordView, transition: Seq<char>, now: u128) -> bool {
    &&& record.lifecycle == ControlLifecycle::Draining || record.lifecycle == ControlLifecycle::Standby
    &&& record.transition_spec_digest == transition
    &&& record.health == ControlHealth::Healthy
    &&& required_rollback_deadline(record) matches Ok(moment) && moment > now
}

/// The record at `i` is the first one that an automatic rollback may return to.
pub open spec fn first_target(state: StateView, transition: Seq<char>, now: u128, i: int) -> bool {
    &&& 0 <= i < state.generations.len()
    &&& rollback_target(state.generations[i], transition, now)
    &&& forall|k: int| 0 <= k < i ==> !rollback_target(#[trigger] state.generations[k], transition, now)
}

/// No record is one that an automatic rollback may return to.
pub open spec fn no_target(state: StateView, transition: Seq<char>, now: u128) -> bool {
    forall|k: int| 0 <= k < state.generations.len() ==> !rollback_target(#[trigger] state.generations[k], transition, now)
}

/// What follows the record of a terminal failure: nothing for a Generation without the route,
/// else an automatic rollback where one is authorized, else a fence.
pub open spec fn failure_handled<S: ControlStateStore>(
    store: S,
    store_after: S,
    app: Seq<char>,
    failed: StateView,
    digest: Seq<char>,
    before: RecordView,
    now: u128,
    after: StateView,
    r: Result<Option<DurableTransitionOutcome>, ControlPlaneError>,
) -> bool {
    if failed.active_generation_spec_digest != Some(digest) {
        store_after == store && after == failed && r matches Ok(None)
    } else if before.automatic_rollback_on_generation_failure && !no_target(failed, before.transition_spec_digest, now) {
        exists|i: int| {
            &&& #[trigger] first_target(failed, before.transition_spec_digest, now, i)
            &&& attempted(
                store,
                store_after,
                app,
                failed,
                rolled_back(failed, failed.generations[i].generation_spec_digest, now, true),
                after,
                failure(r),
            )
            &&& r matches Ok(outcome) ==> (outcome matches Some(switch) && reported(switch, after, Some(digest), ActivationDirection::Rollback))
        }
    } else {
        attempted(store, store_after, app, failed, fenced_active(failed, digest, now), after, failure(r)) && (r matches Ok(outcome) ==> outcome is None)
    }
}

/// Timeouts and deadlines of one transition.
pub struct Timing {
    pub ready: nat,
    pub drain: nat,
    pub drain_deadline: Seq<char>,
    pub rollback_deadline: Option<Seq<char>>,
}

/// The timeouts and deadlines that a rollout policy sets now, or why it sets none.
pub open spec fn timing(edge: AppGenerationTransitionSpec, now: u128) -> Result<Timing, Seq<char>> {
    match nanos(edge.rollout_policy.ready_timeout_nanos@, "ready timeout"@) {
        Err(detail) => Err(detail),
        Ok(ready) => match nanos(edge.rollout_policy.drain_timeout_nanos@, "drain timeout"@) {
            Err(detail) => Err(detail),
            Ok(drain) => match moment(now, drain, "drain deadline exhausted"@) {
                Err(detail) => Err(detail),
                Ok(drain_deadline) => match nanos(edge.rollout_policy.rollback_window_nanos@, "rollback window"@) {
                    Err(detail) => Err(detail),
                    Ok(window) => if window == 0 {
                        Ok(Timing { ready, drain, drain_deadline, rollback_deadline: None })
                    } else {
                        match moment(now, window, "rollback deadline exhausted"@) {
                            Err(detail) => Err(detail),
                            Ok(until) => Ok(Timing { ready, drain, drain_deadline, rollback_deadline: Some(until) }),
                        }
                    },
                },
            },
        },
    }
}

/// The record of a candidate that is about to be staged.
pub open spec fn candidate_record(digest: Seq<char>, transition: CanonicalDocument<AppGenerationTransitionSpec>, timing: Timing) -> RecordView {
    let edge = transition.typed();
    RecordView {
        generation_spec_digest: digest,
        transition_spec_digest: transition.identity(),
        lifecycle: ControlLifecycle::Staged,
        health: ControlHealth::Healthy,
        activation_direction: ActivationDirection::Forward,
        ready_timeout_nanos: edge.rollout_policy.ready_timeout_nanos@,
        drain_timeout_nanos: edge.rollout_policy.drain_timeout_nanos@,
        drain_deadline_unix_nanos: None,
        rollback_deadline_unix_nanos: timing.rollback_deadline,
        automatic_rollback_on_generation_failure: edge.rollout_policy.automatic_rollback_on_generation_failure,
        state_compatibility_receipt_digests: texts(edge.state_compatibility_receipt_digests@),
        retirement_reason: None,
    }
}

/// What an overlap transition hands to its predecessor.
pub open spec fn overlap_terms(transition: CanonicalDocument<AppGenerationTransitionSpec>, timing: Timing) -> Option<(Seq<char>, OverlapTerms)> {
    let edge = transition.typed();
    if edge.replacement_mode == ReplacementMode::Overlap {
        Some(
            (
                edge.from_generation_spec_digest->Some_0@,
                OverlapTerms {
                    drain_deadline: timing.drain_deadline,
                    transition: transition.identity(),
                    rollback_deadline: timing.rollback_deadline,
                    automatic: edge.rollout_policy.automatic_rollback_on_generation_failure,
                    receipts: texts(edge.state_compatibility_receipt_digests@),
                },
            ),
        )
    } else {
        None
    }
}

/// The stateful Instances of the Generation that holds the route.
pub open spec fn predecessor<H>(state: StateView, slots: Map<Seq<char>, LiveSlot<H>>) -> Option<TextMap<StatefulRuntimeIdentity>> {
    match state.active_generation_spec_digest {
        Some(active) => if slots.dom().contains(active) {
            Some(slots[active].stateful_instances)
        } else {
            None
        },
        None => None,
    }
}

/// A transition whose candidate has a record and waits to be staged.
#[derive(Debug)]
pub struct PendingTransition {
    candidate: String,
    ready_timeout_nanos: u64,
    drain_timeout_nanos: u64,
    overlap: Option<Overlap>,
    stopped: Option<String>,
    stateful_instances: TextMap<StatefulRuntimeIdentity>,
}

impl PendingTransition {
    /// The Generation that is to be staged.
    pub closed spec fn stages(self) -> Seq<char> {
        self.candidate@
    }

    /// The time that staging may take.
    pub closed spec fn ready_timeout(self) -> u64 {
        self.ready_timeout_nanos
    }

    /// The time that stopping may take.
    pub closed spec fn drain_timeout(self) -> u64 {
        self.drain_timeout_nanos
    }

    /// The predecessor that an overlap drains, and its terms.
    pub closed spec fn overlaps(self) -> Option<(Seq<char>, OverlapTerms)> {
        overlap_view(self.overlap)
    }

    /// The predecessor that a maintenance replacement stops first.
    pub closed spec fn stops(self) -> Option<Seq<char>> {
        opt_text(self.stopped)
    }

    /// The stateful Instances of the candidate.
    pub closed spec fn stateful(self) -> TextMap<StatefulRuntimeIdentity> {
        self.stateful_instances
    }

    /// The transition as it was begun.
    pub open spec fn is_for(self, transition: CanonicalDocument<AppGenerationTransitionSpec>, candidate: ResolvedGeneration, timing: Timing) -> bool {
        &&& self.stages() == candidate.digest()
        &&& self.ready_timeout() == timing.ready
        &&& self.drain_timeout() == timing.drain
        &&& self.overlaps() == overlap_terms(transition, timing)
        &&& self.stops() == (if transition.typed().replacement_mode == ReplacementMode::Maintenance {
            opt_text(transition.typed().from_generation_spec_digest)
        } else {
            None
        })
        &&& self.stateful().wf()
        &&& identities(self.stateful()) == identities(candidate.stateful_instances)
    }
}

/// What a begun transition needs first.
#[derive(Debug)]
pub enum TransitionStep<H> {
    /// Stage the candidate, then hand the outcome to `candidate_staged`.
    Stage { ready_timeout_nanos: u64 },
    /// Stop the predecessor, then hand the outcome to `active_stopped`.
    StopActive { handle: H, drain_timeout_nanos: u64 },
}

/// What came of a staged candidate.
#[derive(Debug)]
pub enum StagedOutcome<H> {
    /// The route leads to the candidate.
    Activated(DurableTransitionOutcome),
    /// The candidate did not get the route: stop it, then report the failure.
    Discarded { handle: H, drain_timeout_nanos: u64, error: ControlPlaneError },
    /// The candidate was not staged.
    Failed(ControlPlaneError),
}

/// The candidate has no record yet, or a retired one.
pub open spec fn enrollable(state: StateView, digest: Seq<char>) -> bool {
    state.has(digest) ==> !live(state.record(digest).lifecycle)
}

/// A commit of the plan was tried, and the result reports its failure or else `then`.
pub open spec fn reports<S: ControlStateStore>(
    store: S,
    store_after: S,
    app: Seq<char>,
    before: StateView,
    plan: Result<StateView, Seq<char>>,
    after: StateView,
    result: Option<ErrorView>,
    then: Option<ErrorView>,
) -> bool {
    ||| attempted(store, store_after, app, before, plan, after, None) && result == then
    ||| result is Some && attempted(store, store_after, app, before, plan, after, result)
}

/// What `begin_transition` commits and hands out once the edge is authorized.
pub open spec fn transition_begun<H, S: ControlStateStore>(
    store: S,
    store_after: S,
    app: Seq<char>,
    before: StateView,
    slots: Map<Seq<char>, LiveSlot<H>>,
    transition: CanonicalDocument<AppGenerationTransitionSpec>,
    candidate: ResolvedGeneration,
    timing: Timing,
    after: StateView,
    slots_after: Map<Seq<char>, LiveSlot<H>>,
    r: Result<(PendingTransition, TransitionStep<H>), ControlPlaneError>,
) -> bool {
    let next = enrolled(before, candidate_record(candidate.digest(), transition, timing));
    let staged = next.committed(before.revision);
    ||| slots_after == slots && (r matches Err(error) && attempted(store, store_after, app, before, Ok(next), after, Some(error@)))
    ||| exists|kept: S| {
        &&& #[trigger] attempted(store, kept, app, before, Ok(next), staged, None)
        &&& if transition.typed().replacement_mode == ReplacementMode::Maintenance {
            let active = before.active_generation_spec_digest->Some_0;
            if slots[active].leases != 0 {
                &&& slots_after == slots
                &&& r is Err
                &&& reports(
                    kept,
                    store_after,
                    app,
                    staged,
                    marked(staged, candidate.digest(), staging_failed(staged.record(candidate.digest()))),
                    after,
                    failure(r),
                    Some(rejection("maintenance replacement cannot stop a leased Generation"@)),
                )
            } else {
                &&& store_after == kept
                &&& after == staged
                &&& slots_after == slots.remove(active)
                &&& r matches Ok(begun) && begun.0.is_for(transition, candidate, timing) && begun.1
                    == (TransitionStep::StopActive { handle: slots[active].handle, drain_timeout_nanos: timing.drain as u64 })
            }
        } else {
            &&& store_after == kept
            &&& after == staged
            &&& slots_after == slots
            &&& r matches Ok(begun) && begun.0.is_for(transition, candidate, timing) && begun.1
                == (TransitionStep::<H>::Stage { ready_timeout_nanos: timing.ready as u64 })
        }
    }
}

/// What `begin_transition` decides: the edge is refused, by its first fault, or it is begun.
pub open spec fn transition_decided<H, S: ControlStateStore>(
    store: S,
    store_after: S,
    app: Seq<char>,
    before: StateView,
    slots: Map<Seq<char>, LiveSlot<H>>,
    transition: CanonicalDocument<AppGenerationTransitionSpec>,
    candidate: ResolvedGeneration,
    receipts: Receipts,
    now: u128,
    after: StateView,
    slots_after: Map<Seq<char>, LiveSlot<H>>,
    r: Result<(PendingTransition, TransitionStep<H>), ControlPlaneError>,
) -> bool {
    let edge = transition.typed();
    let unchanged = store_after == store && after == before && slots_after == slots;
    match edge_fault(app, before.active_generation_spec_digest, edge, candidate) {
        Some(detail) => unchanged && failure(r) == Some(rejection(detail)),
        None => if !compatibility_result(app, predecessor(before, slots), candidate, edge, receipts, Ok(())) {
            unchanged && r is Err && compatibility_result(app, predecessor(before, slots), candidate, edge, receipts, Err(r->Err_0))
        } else {
            match timing(edge, now) {
                Err(detail) => unchanged && failure(r) == Some(rejection(detail)),
                Ok(timing) => if !enrollable(before, candidate.digest()) {
                    unchanged && failure(r) == Some(rejection("candidate Generation already has a control record"@))
                } else {
                    transition_begun(store, store_after, app, before, slots, transition, candidate, timing, after, slots_after, r)
                },
            }
        },
    }
}

/// What comes of the outcome of staging.
pub open spec fn staging_settled<H, S: ControlStateStore>(
    store: S,
    store_after: S,
    app: Seq<char>,
    before: StateView,
    slots: Map<Seq<char>, LiveSlot<H>>,
    pending: PendingTransition,
    staged: Result<H, ControlPlaneError>,
    after: StateView,
    slots_after: Map<Seq<char>, LiveSlot<H>>,
    outcome: StagedOutcome<H>,
) -> bool {
    let candidate = pending.stages();
    match staged {
        Err(error) => {
            &&& slots_after == slots
            &&& outcome matches StagedOutcome::Failed(reason) && reports(
                store,
                store_after,
                app,
                before,
                marked(before, candidate, staging_failed(before.record(candidate))),
                after,
                Some(reason@),
                Some(error@),
            )
        },
        Ok(handle) => {
            let ready = marked(before, candidate, RecordView { lifecycle: ControlLifecycle::Ready, ..before.record(candidate) });
            match outcome {
                StagedOutcome::Failed(_) => false,
                StagedOutcome::Discarded { handle: discarded, drain_timeout_nanos, error } => {
                    &&& slots_after == slots
                    &&& discarded == handle
                    &&& drain_timeout_nanos == pending.drain_timeout()
                    &&& attempted(store, store_after, app, before, ready, after, Some(error@)) || exists|kept: S| {
                        &&& ready is Ok
                        &&& #[trigger] attempted(store, kept, app, before, ready, ready->Ok_0.committed(before.revision), None)
                        &&& attempted(
                            kept,
                            store_after,
                            app,
                            ready->Ok_0.committed(before.revision),
                            activated(ready->Ok_0.committed(before.revision), candidate, pending.overlaps()),
                            after,
                            Some(error@),
                        )
                    }
                },
                StagedOutcome::Activated(switch) => {
                    &&& ready is Ok
                    &&& exists|kept: S| {
                        &&& #[trigger] attempted(store, kept, app, before, ready, ready->Ok_0.committed(before.revision), None)
                        &&& attempted(
                            kept,
                            store_after,
                            app,
                            ready->Ok_0.committed(before.revision),
                            activated(ready->Ok_0.committed(before.revision), candidate, pending.overlaps()),
                            after,
                            None,
                        )
                    }
                    &&& reported(
                        switch,
                        after,
                        match pending.overlaps() {
                            Some((previous, _)) => Some(previous),
                            None => None,
                        },
                        ActivationDirection::Forward,
                    )
                    &&& slots_after == slots.insert(
                        candidate,
                        LiveSlot { handle, leases: 0, staged_at: after.routing_epoch, stateful_instances: pending.stateful() },
                    )
                },
            }
        },
    }
}

proof fn lemma_enrolled(state: StateView, record: RecordView, digest: Seq<char>)
    requires
        state.unique(),
        state.has(digest),
    ensures
        enrolled(state, record).has(digest),
        enrolled(state, record).record(digest) == (if digest == record.generation_spec_digest { record } else { state.record(digest) }),
{
    if state.has(record.generation_spec_digest) {
        state.lookup(record, digest);
    } else {
        let next = enrolled(state, record);
        let p = state.position(digest);
        assert(next.generations[p].generation_spec_digest == digest);
        assert forall|i: int, j: int| 0 <= i < j < next.generations.len() implies (#[trigger] next.generations[i]).generation_spec_digest
            != (#[trigger] next.generations[j]).generation_spec_digest by {
            if j < state.generations.len() {
                assert(state.generations[i].generation_spec_digest != state.generations[j].generation_spec_digest);
            } else {
                assert(state.generations[i].generation_spec_digest != record.generation_spec_digest);
            }
        }
        next.found(p);
    }
}

proof fn lemma_activated_keeps(state: StateView, candidate: Seq<char>, overlap: Option<(Seq<char>, OverlapTerms)>, digest: Seq<char>)
    requires
        state.unique(),
        activated(state, candidate, overlap) is Ok,
        state.has(digest),
        live(state.record(digest).lifecycle) || digest == candidate,
    ensures
        activated(state, candidate, overlap)->Ok_0.has(digest),
        live(activated(state, candidate, overlap)->Ok_0.record(digest).lifecycle),
{
    let routed = StateView {
        routing_epoch: (state.routing_epoch + 1) as u64,
        active_generation_spec_digest: Some(candidate),
        ..state
    };
    assert(routed.has(digest) && routed.has(candidate) && routed.record(digest) == state.record(digest) && routed.record(candidate) == state.record(candidate));
    let one = RecordView { lifecycle: ControlLifecycle::Active, ..state.record(candidate) };
    routed.lookup(one, digest);
    let next = routed.with_record(one);
    match overlap {
        Some((previous, terms)) => {
            next.lookup(crate::lifecycle::overlapped_record(next.record(previous), terms), digest);
        },
        None => {},
    }
}

proof fn lemma_rolled_back_keeps(state: StateView, app: Seq<char>, standby: Seq<char>, now: u128, automatic: bool, digest: Seq<char>)
    requires
        state.valid(app),
        rolled_back(state, standby, now, automatic) is Ok,
        state.has(digest),
        live(state.record(digest).lifecycle),
    ensures
        rolled_back(state, standby, now, automatic)->Ok_0.has(digest),
        live(rolled_back(state, standby, now, automatic)->Ok_0.record(digest).lifecycle),
{
    let failed = state.active_generation_spec_digest->Some_0;
    let routed = StateView {
        routing_epoch: (state.routing_epoch + 1) as u64,
        active_generation_spec_digest: Some(standby),
        ..state
    };
    assert(routed.has(digest) && routed.has(standby) && routed.has(failed));
    assert(routed.record(digest) == state.record(digest));
    let target = crate::lifecycle::reactivated_record(state.record(standby));
    let one = routed.with_record(target);
    routed.lookup(target, digest);
    routed.lookup(target, failed);
    let until = crate::lifecycle::drain_deadline_from(state.record(failed), now)->Ok_0;
    one.lookup(crate::lifecycle::draining_record(state.record(failed), until), digest);
}

proof fn lemma_shutdown_begun_keeps(state: StateView, app: Seq<char>, now: u128, digest: Seq<char>)
    requires
        state.valid(app),
        shutdown_begun(state, now) is Ok,
        state.has(digest),
        live(state.record(digest).lifecycle),
    ensures
        shutdown_begun(state, now)->Ok_0.has(digest),
        live(shutdown_begun(state, now)->Ok_0.record(digest).lifecycle),
{
    let next = shutdown_begun(state, now)->Ok_0;
    let p = state.position(digest);
    shutdown_settles_each(state.generations, now, p);
    assert(next.generations[p].generation_spec_digest == digest);
    assert forall|i: int, j: int| 0 <= i < j < next.generations.len() implies (#[trigger] next.generations[i]).generation_spec_digest
        != (#[trigger] next.generations[j]).generation_spec_digest by {
        shutdown_settles_each(state.generations, now, i);
        shutdown_settles_each(state.generations, now, j);
        assert(state.generations[i].generation_spec_digest != state.generations[j].generation_spec_digest);
    }
    next.found(p);
}

impl<H, S: ControlStateStore> DurableGenerationSupervisor<H, S> {
    /// The App that is supervised.
    pub closed spec fn app(self) -> Seq<char> {
        self.app_id@
    }

    /// The store that the control state is kept in.
    pub closed spec fn backend(self) -> S {
        self.store
    }

    /// The control state that this Supervisor committed last.
    pub closed spec fn current(self) -> StateView {
        self.state@
    }

    /// The Generations that hold Host resources.
    pub closed spec fn slots(self) -> Map<Seq<char>, LiveSlot<H>> {
        self.slots.map()
    }

    /// The Generations that hold Host resources, in the order of their digests.
    pub closed spec fn slot_order(self) -> Seq<(Seq<char>, LiveSlot<H>)> {
        self.slots.entries()
    }

    /// The control state is valid, and every Generation with resources has a live record.
    pub closed spec fn inv(self) -> bool {
        &&& self.state@.valid(self.app_id@)
        &&& self.slots.wf()
        &&& forall|digest: Seq<char>| #[trigger] self.slots.map().dom().contains(digest) ==> self.state@.has(digest) && live(
            self.state@.record(digest).lifecycle,
        ) && self.slots.map()[digest].stateful_instances.wf()
    }

    /// The control state that the Supervisor committed last is valid for its App.
    pub proof fn current_is_valid(self)
        requires
            self.inv(),
        ensures
            self.current().valid(self.app()),
    {
    }

    /// Every Generation with Host resources has a record that is not retired.
    pub proof fn live_slots_are_recorded(self, digest: Seq<char>)
        requires
            self.inv(),
            self.slots().dom().contains(digest),
        ensures
            self.current().valid(self.app()),
            self.current().has(digest),
            live(self.current().record(digest).lifecycle),
    {
    }

    /// Commits a state that keeps every record about a Generation with resources live.
    fn commit(&mut self, next: DurableControlState) -> (r: Result<(), ControlPlaneError>)
        requires
            old(self).inv(),
            forall|digest: Seq<char>| #[trigger] old(self).slots().dom().contains(digest) ==> next@.has(digest) && live(next@.record(digest).lifecycle),
        ensures
            final(self).inv(),
            final(self).app() == old(self).app(),
            final(self).slots() == old(self).slots(),
            final(self).slot_order() == old(self).slot_order(),
            attempted(
                old(self).backend(),
                final(self).backend(),
                old(self).app(),
                old(self).current(),
                Ok(next@),
                final(self).current(),
                failure(r),
            ),
    {
        let revision = self.state.revision;
        match self.store.compare_and_swap(self.app_id.as_str(), revision, next) {
            Ok(state) => {
                self.state = state;
                proof {
                    assert(self.state@.generations == next@.generations);
                    assert forall|digest: Seq<char>| #[trigger] self.slots.map().dom().contains(digest) implies self.state@.has(digest) && live(
                        self.state@.record(digest).lifecycle,
                    ) by {
                        assert(old(self).slots().dom().contains(digest));
                        assert(next@.has(digest));
                        assert(self.state@.position(digest) == next@.position(digest));
                    }
                }
                Ok(())
            },
            Err(error) => Err(error),
        }
    }

    /// Opens a new or fully retired control state. Live state must use recovery.
    pub fn open(app_id: String, store: S) -> (r: Result<Self, ControlPlaneError>)
        ensures
            match r {
                Ok(supervisor) => {
                    &&& supervisor.inv()
                    &&& supervisor.app() == app_id@
                    &&& supervisor.slots() == Map::<Seq<char>, LiveSlot<H>>::empty()
                    &&& claimed(store, app_id@, |state: StateView| opened(state), Ok((supervisor.current(), supervisor.backend())))
                },
                Err(error) => claimed(store, app_id@, |state: StateView| opened(state), Err(error@)),
            },
    {
        let ghost given = store;
        let mut store = store;
        let loaded = match load_from(&store, app_id.as_str()) {
            Ok(loaded) => loaded,
            Err(error) => return Err(error),
        };
        let next = match loaded.open_host() {
            Ok(next) => next,
            Err(error) => {
                assert(attempted(given, store, app_id@, loaded@, opened(loaded@), loaded@, Some(error@)));
                assert(refused(given, app_id@, loaded@, opened(loaded@), error@));
                return Err(error);
            },
        };
        let state = match store.compare_and_swap(app_id.as_str(), loaded.revision, next) {
            Ok(state) => state,
            Err(error) => {
                assert(attempted(given, store, app_id@, loaded@, opened(loaded@), loaded@, Some(error@)));
                assert(refused(given, app_id@, loaded@, opened(loaded@), error@));
                return Err(error);
            },
        };
        Ok(DurableGenerationSupervisor { app_id, store, state, slots: TextMap::new() })
    }

    /// Opens a fresh Host incarnation after a proven clean suspension when the previous
    /// Generation cannot be restaged by the replacement Host build.
    pub fn replace_suspended_host(app_id: String, store: S) -> (r: Result<Self, ControlPlaneError>)
        ensures
            match r {
                Ok(supervisor) => {
                    &&& supervisor.inv()
                    &&& supervisor.app() == app_id@
                    &&& supervisor.slots() == Map::<Seq<char>, LiveSlot<H>>::empty()
                    &&& claimed(store, app_id@, |state: StateView| host_replaced(state), Ok((supervisor.current(), supervisor.backend())))
                },
                Err(error) => claimed(store, app_id@, |state: StateView| host_replaced(state), Err(error@)),
            },
    {
        let ghost given = store;
        let mut store = store;
        let loaded = match load_from(&store, app_id.as_str()) {
            Ok(loaded) => loaded,
            Err(error) => return Err(error),
        };
        let next = match loaded.replace_host() {
            Ok(next) => next,
            Err(error) => {
                assert(attempted(given, store, app_id@, loaded@, host_replaced(loaded@), loaded@, Some(error@)));
                assert(refused(given, app_id@, loaded@, host_replaced(loaded@), error@));
                return Err(error);
            },
        };
        let state = match store.compare_and_swap(app_id.as_str(), loaded.revision, next) {
            Ok(state) => state,
            Err(error) => {
                assert(attempted(given, store, app_id@, loaded@, host_replaced(loaded@), loaded@, Some(error@)));
                assert(refused(given, app_id@, loaded@, host_replaced(loaded@), error@));
                return Err(error);
            },
        };
        Ok(DurableGenerationSupervisor { app_id, store, state, slots: TextMap::new() })
    }

    /// Returns the control state that this Supervisor committed last.
    pub fn state(&self) -> (r: &DurableControlState)
        ensures
            r@ == self.current(),
    {
        &self.state
    }

    /// Whether no Generation holds Host resources.
    pub fn is_retired(&self) -> (r: bool)
        requires
            self.inv(),
        ensures
            r == (self.slots() == Map::<Seq<char>, LiveSlot<H>>::empty()),
    {
        let r = self.slots.is_empty();
        proof {
            if r {
                assert(self.slots.map() =~= Map::empty());
            } else {
                self.slots.unique_position(0);
                assert(self.slots.map().dom().contains(self.slots.entries()[0].0));
            }
        }
        r
    }

    /// Admits a route against the durable state that the store holds.
    pub fn lease_under(&mut self, durable: &DurableControlState, routing_epoch: u64) -> (r: Result<DurableGenerationLease, ControlPlaneError>)
        requires
            old(self).inv(),
        ensures
            final(self).inv(),
            final(self).app() == old(self).app(),
            final(self).backend() == old(self).backend(),
            final(self).current() == old(self).current(),
            leased(old(self).current(), old(self).slots(), durable@, routing_epoch, final(self).slots(), r),
    {
        if durable.supervisor_epoch != self.state.supervisor_epoch || durable.routing_epoch != self.state.routing_epoch
            || durable.revision != self.state.revision || !text::same_opt(
            &durable.active_generation_spec_digest,
            &self.state.active_generation_spec_digest,
        ) {
            return Err(rejected("Generation Supervisor was fenced by newer durable authority"));
        }
        if routing_epoch != self.state.routing_epoch {
            return Err(rejected("router presented an obsolete Routing Epoch"));
        }
        let digest = match &self.state.active_generation_spec_digest {
            Some(digest) => digest.clone(),
            None => return Err(rejected("no active App Generation")),
        };
        match self.slots.get(digest.as_str()) {
            Some(slot) => {
                if slot.leases == usize::MAX {
                    return Err(rejected("Generation lease count exhausted"));
                }
            },
            None => return Err(rejected("active Generation has no recovered runtime handle")),
        }
        let ghost before = self.slots.map();
        let ghost target = self.slots.at(digest@);
        let slot = match self.slots.remove(digest.as_str()) {
            Some(slot) => slot,
            None => return Err(rejected("active Generation has no recovered runtime handle")),
        };
        let staged_at = slot.staged_at;
        self.slots.insert(
            digest.clone(),
            LiveSlot {
                handle: slot.handle,
                leases: slot.leases + 1,
                staged_at: slot.staged_at,
                stateful_instances: slot.stateful_instances,
            },
        );
        proof {
            assert(self.slots.map() =~= before.insert(digest@, LiveSlot { leases: (target.leases + 1) as usize, ..target }));
        }
        Ok(DurableGenerationLease { generation_spec_digest: digest, supervisor_epoch: self.state.supervisor_epoch, routing_epoch, staged_at })
    }

    /// Acquires a route only if the caller observed the current durable Routing Epoch.
    pub fn lease_at_epoch(&mut self, routing_epoch: u64) -> (r: Result<DurableGenerationLease, ControlPlaneError>)
        requires
            old(self).inv(),
        ensures
            final(self).inv(),
            final(self).app() == old(self).app(),
            final(self).backend() == old(self).backend(),
            final(self).current() == old(self).current(),
            admitted(
                old(self).backend(),
                old(self).app(),
                old(self).current(),
                old(self).slots(),
                routing_epoch,
                final(self).slots(),
                r,
            ),
    {
        let durable = match load_from(&self.store, self.app_id.as_str()) {
            Ok(durable) => durable,
            Err(error) => return Err(error),
        };
        self.lease_under(&durable, routing_epoch)
    }

    /// Pins the current active Generation.
    pub fn lease(&mut self) -> (r: Result<DurableGenerationLease, ControlPlaneError>)
        requires
            old(self).inv(),
        ensures
            final(self).inv(),
            final(self).app() == old(self).app(),
            final(self).backend() == old(self).backend(),
            final(self).current() == old(self).current(),
            admitted(
                old(self).backend(),
                old(self).app(),
                old(self).current(),
                old(self).slots(),
                old(self).current().routing_epoch,
                final(self).slots(),
                r,
            ),
    {
        let epoch = self.state.routing_epoch;
        self.lease_at_epoch(epoch)
    }

    /// Acquires one invocation target under the caller's observed Routing Epoch.
    ///
    /// `project` turns the resources of the pinned Generation into the target.
    pub fn route_at_epoch<T, F: Fn(&H) -> T>(&mut self, routing_epoch: u64, project: F) -> (r: Result<DurableGenerationRoute<T>, ControlPlaneError>)
        requires
            old(self).inv(),
            forall|handle: &H| #[trigger] call_requires(project, (handle,)),
        ensures
            final(self).inv(),
            final(self).app() == old(self).app(),
            final(self).backend() == old(self).backend(),
            final(self).current() == old(self).current(),
            exists|lease: Result<DurableGenerationLease, ControlPlaneError>| {
                &&& #[trigger] admitted(
                    old(self).backend(),
                    old(self).app(),
                    old(self).current(),
                    old(self).slots(),
                    routing_epoch,
                    final(self).slots(),
                    lease,
                )
                &&& routed(old(self).slots(), lease, project, r)
            },
    {
        let lease = match self.lease_at_epoch(routing_epoch) {
            Ok(lease) => lease,
            Err(error) => return Err(error),
        };
        proof {
            assert(self.slots().dom().contains(lease.pinned()));
            self.slots.map_of_entries(lease.pinned());
        }
        let slot = self.slots.get(lease.generation_spec_digest()).unwrap();
        Ok(DurableGenerationRoute { target: project(&slot.handle), lease })
    }

    /// Acquires the current invocation target and pins it until the lease is released.
    pub fn route<T, F: Fn(&H) -> T>(&mut self, project: F) -> (r: Result<DurableGenerationRoute<T>, ControlPlaneError>)
        requires
            old(self).inv(),
            forall|handle: &H| #[trigger] call_requires(project, (handle,)),
        ensures
            final(self).inv(),
            final(self).app() == old(self).app(),
            final(self).backend() == old(self).backend(),
            final(self).current() == old(self).current(),
            exists|lease: Result<DurableGenerationLease, ControlPlaneError>| {
                &&& #[trigger] admitted(
                    old(self).backend(),
                    old(self).app(),
                    old(self).current(),
                    old(self).slots(),
                    old(self).current().routing_epoch,
                    final(self).slots(),
                    lease,
                )
                &&& routed(old(self).slots(), lease, project, r)
            },
    {
        let epoch = self.state.routing_epoch;
        self.route_at_epoch(epoch, project)
    }

    /// Gives a lease back. A lease on resources that are gone counts against nothing.
    pub fn release(&mut self, lease: DurableGenerationLease)
        requires
            old(self).inv(),
        ensures
            final(self).inv(),
            final(self).app() == old(self).app(),
            final(self).backend() == old(self).backend(),
            final(self).current() == old(self).current(),
            released(old(self).slots(), lease, final(self).slots()),
    {
        let pinned = match self.slots.get(lease.generation_spec_digest.as_str()) {
            Some(slot) => slot.staged_at == lease.staged_at,
            None => false,
        };
        if !pinned {
            return ;
        }
        let ghost before = self.slots.map();
        let ghost target = self.slots.at(lease.generation_spec_digest@);
        match self.slots.remove(lease.generation_spec_digest.as_str()) {
            Some(slot) => {
                let leases: usize = if slot.leases > 0 {
                    slot.leases - 1
                } else {
                    0
                };
                self.slots.insert(
                    lease.generation_spec_digest,
                    LiveSlot { handle: slot.handle, leases, staged_at: slot.staged_at, stateful_instances: slot.stateful_instances },
                );
                proof {
                    assert(self.slots.map() =~= before.insert(lease.pinned(), LiveSlot { leases, ..target }));
                }
            },
            None => {},
        }
    }

    /// Switches the route back to a retained predecessor.
    fn rollback_inner(&mut self, standby_digest: &str, now_unix_nanos: u128, automatic: bool) -> (r: Result<DurableTransitionOutcome, ControlPlaneError>)
        requires
            old(self).inv(),
        ensures
            final(self).inv(),
            final(self).app() == old(self).app(),
            final(self).slots() == old(self).slots(),
            attempted(
                old(self).backend(),
                final(self).backend(),
                old(self).app(),
                old(self).current(),
                rolled_back(old(self).current(), standby_digest@, now_unix_nanos, automatic),
                final(self).current(),
                failure(r),
            ),
            r matches Ok(outcome) ==> reported(
                outcome,
                final(self).current(),
                old(self).current().active_generation_spec_digest,
                ActivationDirection::Rollback,
            ),
    {
        let next = match self.state.roll_back(standby_digest, now_unix_nanos, automatic) {
            Ok(next) => next,
            Err(error) => return Err(error),
        };
        let failed = text::copy_opt(&self.state.active_generation_spec_digest);
        proof {
            assert forall|digest: Seq<char>| #[trigger] self.slots().dom().contains(digest) implies next@.has(digest) && live(next@.record(digest).lifecycle) by {
                lemma_rolled_back_keeps(self.state@, self.app_id@, standby_digest@, now_unix_nanos, automatic, digest);
            }
        }
        match self.commit(next) {
            Ok(_) => Ok(
                DurableTransitionOutcome {
                    active_generation_spec_digest: standby_digest.to_owned(),
                    supervisor_epoch: self.state.supervisor_epoch,
                    routing_epoch: self.state.routing_epoch,
                    draining_generation_spec_digest: failed,
                    activation_direction: ActivationDirection::Rollback,
                },
            ),
            Err(error) => Err(error),
        }
    }

    /// Performs the restricted reverse edge while the exact standby window is live.
    pub fn rollback(&mut self, standby_digest: &str, now_unix_nanos: u128) -> (r: Result<DurableTransitionOutcome, ControlPlaneError>)
        requires
            old(self).inv(),
        ensures
            final(self).inv(),
            final(self).app() == old(self).app(),
            final(self).slots() == old(self).slots(),
            attempted(
                old(self).backend(),
                final(self).backend(),
                old(self).app(),
                old(self).current(),
                rolled_back(old(self).current(), standby_digest@, now_unix_nanos, false),
                final(self).current(),
                failure(r),
            ),
            r matches Ok(outcome) ==> reported(
                outcome,
                final(self).current(),
                old(self).current().active_generation_spec_digest,
                ActivationDirection::Rollback,
            ),
    {
        self.rollback_inner(standby_digest, now_unix_nanos, false)
    }

    /// Fences new routes and begins bounded retirement of every live Generation.
    pub fn begin_shutdown(&mut self, now_unix_nanos: u128) -> (r: Result<(), ControlPlaneError>)
        requires
            old(self).inv(),
        ensures
            final(self).inv(),
            final(self).app() == old(self).app(),
            final(self).slots() == old(self).slots(),
            attempted(
                old(self).backend(),
                final(self).backend(),
                old(self).app(),
                old(self).current(),
                shutdown_begun(old(self).current(), now_unix_nanos),
                final(self).current(),
                failure(r),
            ),
    {
        let next = match self.state.begin_shutdown(now_unix_nanos) {
            Ok(next) => next,
            Err(error) => return Err(error),
        };
        proof {
            assert forall|digest: Seq<char>| #[trigger] self.slots().dom().contains(digest) implies next@.has(digest) && live(next@.record(digest).lifecycle) by {
                lemma_shutdown_begun_keeps(self.state@, self.app_id@, now_unix_nanos, digest);
            }
        }
        self.commit(next)
    }

    /// Stops routing to an active Generation that failed for good.
    fn fence_failed_active(&mut self, digest: &str, now_unix_nanos: u128) -> (r: Result<(), ControlPlaneError>)
        requires
            old(self).inv(),
        ensures
            final(self).inv(),
            final(self).app() == old(self).app(),
            final(self).slots() == old(self).slots(),
            attempted(
                old(self).backend(),
                final(self).backend(),
                old(self).app(),
                old(self).current(),
                fenced_active(old(self).current(), digest@, now_unix_nanos),
                final(self).current(),
                failure(r),
            ),
    {
        let next = match self.state.fence_active(digest, now_unix_nanos) {
            Ok(next) => next,
            Err(error) => return Err(error),
        };
        proof {
            let state = self.state@;
            let until = crate::lifecycle::drain_deadline_from(state.record(digest@), now_unix_nanos)->Ok_0;
            let routed = StateView {
                routing_epoch: (state.routing_epoch + 1) as u64,
                active_generation_spec_digest: None,
                ..state
            };
            assert(routed.has(digest@));
            assert forall|other: Seq<char>| #[trigger] self.slots().dom().contains(other) implies next@.has(other) && live(next@.record(other).lifecycle) by {
                assert(routed.has(other) && routed.record(other) == state.record(other));
                routed.lookup(crate::lifecycle::draining_record(state.record(digest@), until), other);
            }
        }
        self.commit(next)
    }

    /// The first record that an automatic rollback of the transition may return to.
    fn find_target(&self, transition: &str, now_unix_nanos: u128) -> (r: Option<usize>)
        ensures
            match r {
                Some(i) => first_target(self.current(), transition@, now_unix_nanos, i as int),
                None => no_target(self.current(), transition@, now_unix_nanos),
            },
    {
        let mut i: usize = 0;
        while i < self.state.generations.len()
            invariant
                i <= self.state.generations.len(),
                self.state@.generations.len() == self.state.generations.len(),
                forall|k: int| 0 <= k < i ==> !rollback_target(#[trigger] self.state@.generations[k], transition@, now_unix_nanos),
            decreases self.state.generations.len() - i,
        {
            let record = &self.state.generations[i];
            assert(self.state@.generations[i as int] == record@);
            if (record.lifecycle == ControlLifecycle::Draining || record.lifecycle == ControlLifecycle::Standby) && text::same(
                record.transition_spec_digest.as_str(),
                transition,
            ) && record.health == ControlHealth::Healthy {
                match deadline(record) {
                    Ok(moment) => {
                        if moment > now_unix_nanos {
                            return Some(i);
                        }
                    },
                    Err(_) => {},
                }
            }
            i = i + 1;
        }
        None
    }

    /// Marks terminal Generation failure and performs policy-authorized automatic rollback.
    pub fn mark_generation_failed(&mut self, digest: &str, now_unix_nanos: u128) -> (r: Result<Option<DurableTransitionOutcome>, ControlPlaneError>)
        requires
            old(self).inv(),
        ensures
            final(self).inv(),
            final(self).app() == old(self).app(),
            final(self).slots() == old(self).slots(),
            if !old(self).current().has(digest@) {
                r matches Err(error) && error@ == rejection(unknown(digest@)) && final(self).current() == old(self).current()
                    && final(self).backend() == old(self).backend()
            } else {
                let before = old(self).current().record(digest@);
                let next = old(self).current().with_record(failed_record(before));
                let failed = next.committed(old(self).current().revision);
                ||| r matches Err(error) && attempted(
                    old(self).backend(),
                    final(self).backend(),
                    old(self).app(),
                    old(self).current(),
                    Ok(next),
                    final(self).current(),
                    Some(error@),
                )
                ||| exists|kept: S| {
                    &&& #[trigger] attempted(old(self).backend(), kept, old(self).app(), old(self).current(), Ok(next), failed, None)
                    &&& failure_handled(
                        kept,
                        final(self).backend(),
                        old(self).app(),
                        failed,
                        digest@,
                        before,
                        now_unix_nanos,
                        final(self).current(),
                        r,
                    )
                }
            },
    {
        let (automatic, transition) = match self.state.find(digest) {
            Some(i) => (
                self.state.generations[i].automatic_rollback_on_generation_failure,
                self.state.generations[i].transition_spec_digest.clone(),
            ),
            None => return Err(unknown_generation(digest)),
        };
        let ghost before = self.state@.record(digest@);
        let ghost start = self.state@;
        let next = match self.state.fail_generation(digest) {
            Ok(next) => next,
            Err(error) => return Err(error),
        };
        proof {
            assert forall|other: Seq<char>| #[trigger] self.slots().dom().contains(other) implies next@.has(other) && live(next@.record(other).lifecycle) by {
                self.state@.lookup(failed_record(self.state@.record(digest@)), other);
                assert(self.slots.map().dom().contains(other));
            }
        }
        match self.commit(next) {
            Ok(_) => {},
            Err(error) => return Err(error),
        }
        let ghost failed = self.state@;
        let ghost kept = self.backend();
        let ghost app = self.app();
        assert(failed == start.with_record(failed_record(before)).committed(start.revision));
        if !text::is_text(&self.state.active_generation_spec_digest, digest) {
            assert(failure_handled(kept, self.backend(), app, failed, digest@, before, now_unix_nanos, self.current(), Ok(None)));
            return Ok(None);
        }
        if automatic {
            match self.find_target(transition.as_str(), now_unix_nanos) {
                Some(i) => {
                    let standby = self.state.generations[i].generation_spec_digest.clone();
                    assert(failed.generations[i as int].generation_spec_digest == standby@);
                    assert(rollback_target(failed.generations[i as int], transition@, now_unix_nanos));
                    let r = match self.rollback_inner(standby.as_str(), now_unix_nanos, true) {
                        Ok(outcome) => Ok(Some(outcome)),
                        Err(error) => Err(error),
                    };
                    assert(first_target(failed, before.transition_spec_digest, now_unix_nanos, i as int));
                    assert(failure_handled(kept, self.backend(), app, failed, digest@, before, now_unix_nanos, self.current(), r));
                    return r;
                },
                None => {},
            }
        }
        let r = match self.fence_failed_active(digest, now_unix_nanos) {
            Ok(_) => Ok(None),
            Err(error) => Err(error),
        };
        assert(failure_handled(kept, self.backend(), app, failed, digest@, before, now_unix_nanos, self.current(), r));
        r
    }

    /// The Generation that holds the route has Host resources.
    pub open spec fn active_is_live(self) -> bool {
        self.current().active_generation_spec_digest matches Some(active) ==> self.slots().dom().contains(active)
    }

    /// Whether the Generation that holds the route has Host resources.
    pub fn has_live_active(&self) -> (r: bool)
        requires
            self.inv(),
        ensures
            r == self.active_is_live(),
    {
        match &self.state.active_generation_spec_digest {
            Some(active) => self.slots.contains_key(active.as_str()),
            None => true,
        }
    }

    /// The Generation that holds the route has Host resources, where an edge asks for them: one that is
    /// refused for itself does not.
    pub open spec fn prepared_for(self, edge: AppGenerationTransitionSpec, candidate: ResolvedGeneration) -> bool {
        edge_fault(self.app(), self.current().active_generation_spec_digest, edge, candidate) is None ==> self.active_is_live()
    }

    /// Whether an edge can be begun.
    pub fn is_prepared_for(&self, transition: &CanonicalDocument<AppGenerationTransitionSpec>, candidate: &ResolvedGeneration) -> (r: bool)
        requires
            self.inv(),
        ensures
            r == self.prepared_for(transition.typed(), *candidate),
    {
        let active: Option<&str> = match &self.state.active_generation_spec_digest {
            Some(active) => Some(active.as_str()),
            None => None,
        };
        validate_edge(self.app_id.as_str(), active, transition.value(), candidate).is_err() || self.has_live_active()
    }

    /// Begins one exact Generation edge: validates it, records its candidate as staged, and
    /// says what is to be done first.
    pub fn begin_transition(
        &mut self,
        transition: &CanonicalDocument<AppGenerationTransitionSpec>,
        candidate: &ResolvedGeneration,
        receipts: &Receipts,
        now_unix_nanos: u128,
    ) -> (r: Result<(PendingTransition, TransitionStep<H>), ControlPlaneError>)
        requires
            old(self).inv(),
            old(self).prepared_for(transition.typed(), *candidate),
            candidate.wf(),
            receipts.wf(),
        ensures
            final(self).inv(),
            final(self).app() == old(self).app(),
            !final(self).slots().dom().contains(candidate.digest()) || r is Err,
            transition_decided(
                old(self).backend(),
                final(self).backend(),
                old(self).app(),
                old(self).current(),
                old(self).slots(),
                *transition,
                *candidate,
                *receipts,
                now_unix_nanos,
                final(self).current(),
                final(self).slots(),
                r,
            ),
    {
        let ghost before = self.state@;
        let ghost slots = self.slots.map();
        let edge = transition.value();
        let active: Option<&str> = match &self.state.active_generation_spec_digest {
            Some(active) => Some(active.as_str()),
            None => None,
        };
        match validate_edge(self.app_id.as_str(), active, edge, candidate) {
            Ok(_) => {},
            Err(error) => return Err(error),
        }
        let previous: Option<&TextMap<StatefulRuntimeIdentity>> = match active {
            Some(active) => match self.slots.get(active) {
                Some(slot) => Some(&slot.stateful_instances),
                None => None,
            },
            None => None,
        };
        proof {
            assert(owned(previous) == predecessor(before, slots));
            if previous is Some {
                assert(slots.dom().contains(before.active_generation_spec_digest->Some_0));
            }
        }
        match validate_state_compatibility(self.app_id.as_str(), previous, candidate, edge, receipts) {
            Ok(_) => {},
            Err(error) => return Err(error),
        }
        let ready_timeout = match parse_nanos(edge.rollout_policy.ready_timeout_nanos.as_str(), "ready timeout") {
            Ok(timeout) => timeout,
            Err(error) => return Err(error),
        };
        let drain_timeout = match parse_nanos(edge.rollout_policy.drain_timeout_nanos.as_str(), "drain timeout") {
            Ok(timeout) => timeout,
            Err(error) => return Err(error),
        };
        let drain_deadline = match moment_after(now_unix_nanos, drain_timeout, "drain deadline exhausted") {
            Ok(deadline) => deadline,
            Err(error) => return Err(error),
        };
        let window = match parse_nanos(edge.rollout_policy.rollback_window_nanos.as_str(), "rollback window") {
            Ok(window) => window,
            Err(error) => return Err(error),
        };
        let rollback_deadline: Option<String> = if window == 0 {
            None
        } else {
            match moment_after(now_unix_nanos, window, "rollback deadline exhausted") {
                Ok(deadline) => Some(deadline),
                Err(error) => return Err(error),
            }
        };
        let ghost times = Timing {
            ready: ready_timeout as nat,
            drain: drain_timeout as nat,
            drain_deadline: drain_deadline@,
            rollback_deadline: opt_text(rollback_deadline),
        };
        assert(timing(transition.typed(), now_unix_nanos) == Ok::<Timing, Seq<char>>(times));
        let digest = candidate.spec.digest().to_owned();
        match self.state.find(digest.as_str()) {
            Some(i) => {
                if self.state.generations[i].lifecycle != ControlLifecycle::Retired {
                    return Err(rejected("candidate Generation already has a control record"));
                }
            },
            None => {},
        }
        proof {
            assert(!slots.dom().contains(digest@));
        }
        let record = GenerationControlRecord {
            generation_spec_digest: digest.clone(),
            transition_spec_digest: transition.digest().to_owned(),
            lifecycle: ControlLifecycle::Staged,
            health: ControlHealth::Healthy,
            activation_direction: ActivationDirection::Forward,
            ready_timeout_nanos: edge.rollout_policy.ready_timeout_nanos.clone(),
            drain_timeout_nanos: edge.rollout_policy.drain_timeout_nanos.clone(),
            drain_deadline_unix_nanos: None,
            rollback_deadline_unix_nanos: text::copy_opt(&rollback_deadline),
            automatic_rollback_on_generation_failure: edge.rollout_policy.automatic_rollback_on_generation_failure,
            state_compatibility_receipt_digests: text::copy_all(&edge.state_compatibility_receipt_digests),
            retirement_reason: None,
        };
        assert(record@ == candidate_record(digest@, *transition, times));
        let next = self.state.enroll(record);
        proof {
            assert forall|other: Seq<char>| #[trigger] self.slots().dom().contains(other) implies next@.has(other) && live(next@.record(other).lifecycle) by {
                assert(self.slots.map().dom().contains(other));
                lemma_enrolled(self.state@, record@, other);
            }
        }
        let overlap: Option<Overlap> = if edge.replacement_mode == ReplacementMode::Overlap {
            match &edge.from_generation_spec_digest {
                Some(previous) => Some(
                    Overlap {
                        previous: previous.clone(),
                        drain_deadline,
                        transition: transition.digest().to_owned(),
                        rollback_deadline: text::copy_opt(&rollback_deadline),
                        automatic: edge.rollout_policy.automatic_rollback_on_generation_failure,
                        receipts: text::copy_all(&edge.state_compatibility_receipt_digests),
                    },
                ),
                None => None,
            }
        } else {
            None
        };
        match self.commit(next) {
            Ok(_) => {},
            Err(error) => return Err(error),
        }
        let ghost staged = self.state@;
        let ghost kept = self.backend();
        assert(staged.active_generation_spec_digest == before.active_generation_spec_digest);
        let stateful_instances = copy_identities(&candidate.stateful_instances);
        if edge.replacement_mode == ReplacementMode::Maintenance {
            let stopped = match &self.state.active_generation_spec_digest {
                Some(active) => active.clone(),
                None => return Err(rejected("replacement transition requires one active predecessor")),
            };
            let leased = match self.slots.get(stopped.as_str()) {
                Some(slot) => slot.leases != 0,
                None => true,
            };
            assert(slots.dom().contains(stopped@));
            if leased {
                let error = match self.fail_candidate(digest.as_str()) {
                    Ok(_) => rejected("maintenance replacement cannot stop a leased Generation"),
                    Err(error) => error,
                };
                assert(reports(
                    kept,
                    self.backend(),
                    self.app(),
                    staged,
                    marked(staged, digest@, staging_failed(staged.record(digest@))),
                    self.current(),
                    Some(error@),
                    Some(rejection("maintenance replacement cannot stop a leased Generation"@)),
                ));
                return Err(error);
            }
            match self.slots.remove(stopped.as_str()) {
                Some(slot) => {
                    proof {
                        assert(self.slots.map() == slots.remove(stopped@));
                    }
                    let pending = PendingTransition {
                        candidate: digest,
                        ready_timeout_nanos: ready_timeout,
                        drain_timeout_nanos: drain_timeout,
                        overlap,
                        stopped: Some(stopped),
                        stateful_instances,
                    };
                    return Ok((pending, TransitionStep::StopActive { handle: slot.handle, drain_timeout_nanos: drain_timeout }));
                },
                None => return Err(rejected("replacement transition requires one active predecessor")),
            }
        }
        let pending = PendingTransition {
            candidate: digest,
            ready_timeout_nanos: ready_timeout,
            drain_timeout_nanos: drain_timeout,
            overlap,
            stopped: None,
            stateful_instances,
        };
        Ok((pending, TransitionStep::Stage { ready_timeout_nanos: ready_timeout }))
    }

    /// Records that a candidate was not staged.
    fn fail_candidate(&mut self, digest: &str) -> (r: Result<(), ControlPlaneError>)
        requires
            old(self).inv(),
            !old(self).slots().dom().contains(digest@),
        ensures
            final(self).inv(),
            final(self).app() == old(self).app(),
            final(self).slots() == old(self).slots(),
            attempted(
                old(self).backend(),
                final(self).backend(),
                old(self).app(),
                old(self).current(),
                marked(old(self).current(), digest@, staging_failed(old(self).current().record(digest@))),
                final(self).current(),
                failure(r),
            ),
    {
        let next = match self.state.fail_staging(digest) {
            Ok(next) => next,
            Err(error) => return Err(error),
        };
        proof {
            assert forall|other: Seq<char>| #[trigger] self.slots().dom().contains(other) implies next@.has(other) && live(next@.record(other).lifecycle) by {
                assert(self.slots.map().dom().contains(other));
                self.state@.lookup(staging_failed(self.state@.record(digest@)), other);
            }
        }
        self.commit(next)
    }

    /// Takes what came of stopping the predecessor and says how long staging may take.
    pub fn active_stopped(&mut self, pending: &PendingTransition, shutdown: Result<(), ControlPlaneError>) -> (r: Result<u64, ControlPlaneError>)
        requires
            old(self).inv(),
            pending.stops() is Some,
            !old(self).slots().dom().contains(pending.stops()->Some_0),
            !old(self).slots().dom().contains(pending.stages()),
        ensures
            final(self).inv(),
            final(self).app() == old(self).app(),
            final(self).slots() == old(self).slots(),
            reports(
                old(self).backend(),
                final(self).backend(),
                old(self).app(),
                old(self).current(),
                maintenance_stopped(old(self).current(), pending.stops()->Some_0, pending.stages(), shutdown is Err),
                final(self).current(),
                failure(r),
                failure(shutdown),
            ),
            r matches Ok(timeout) ==> timeout == pending.ready_timeout(),
    {
        let failed = shutdown.is_err();
        let stopped = match &pending.stopped {
            Some(stopped) => stopped,
            None => return Err(rejected("replacement transition requires one active predecessor")),
        };
        let next = match self.state.stop_for_maintenance(stopped.as_str(), pending.candidate.as_str(), failed) {
            Ok(next) => next,
            Err(error) => return Err(error),
        };
        proof {
            let state = self.state@;
            let cleared = StateView { active_generation_spec_digest: None, ..state };
            assert forall|other: Seq<char>| #[trigger] self.slots().dom().contains(other) implies next@.has(other) && live(next@.record(other).lifecycle) by {
                assert(self.slots.map().dom().contains(other));
                assert(cleared.has(other) && cleared.has(stopped@) && cleared.record(other) == state.record(other));
                let one = crate::lifecycle::replaced_record(state.record(stopped@), failed);
                cleared.lookup(one, other);
                let middle = cleared.with_record(one);
                if failed {
                    middle.lookup(
                        RecordView {
                            lifecycle: ControlLifecycle::Retired,
                            health: ControlHealth::Failed,
                            retirement_reason: Some(RetirementReason::StagingFailed),
                            ..middle.record(pending.candidate@)
                        },
                        other,
                    );
                }
            }
        }
        match self.commit(next) {
            Ok(_) => {},
            Err(error) => return Err(error),
        }
        match shutdown {
            Ok(_) => Ok(pending.ready_timeout_nanos),
            Err(error) => Err(error),
        }
    }

    /// Takes what came of staging the candidate: records it as ready and switches the route.
    pub fn candidate_staged(&mut self, pending: PendingTransition, staged: Result<H, ControlPlaneError>) -> (r: StagedOutcome<H>)
        requires
            old(self).inv(),
            !old(self).slots().dom().contains(pending.stages()),
            pending.stateful().wf(),
        ensures
            final(self).inv(),
            final(self).app() == old(self).app(),
            staging_settled(
                old(self).backend(),
                final(self).backend(),
                old(self).app(),
                old(self).current(),
                old(self).slots(),
                pending,
                staged,
                final(self).current(),
                final(self).slots(),
                r,
            ),
    {
        let ghost start = self.state@;
        let handle = match staged {
            Ok(handle) => handle,
            Err(error) => {
                return match self.fail_candidate(pending.candidate.as_str()) {
                    Ok(_) => StagedOutcome::Failed(error),
                    Err(failure) => StagedOutcome::Failed(failure),
                };
            },
        };
        let drain_timeout_nanos = pending.drain_timeout_nanos;
        let next = match self.state.make_ready(pending.candidate.as_str()) {
            Ok(next) => next,
            Err(error) => return StagedOutcome::Discarded { handle, drain_timeout_nanos, error },
        };
        proof {
            assert forall|other: Seq<char>| #[trigger] self.slots().dom().contains(other) implies next@.has(other) && live(next@.record(other).lifecycle) by {
                assert(self.slots.map().dom().contains(other));
                self.state@.lookup(
                    RecordView { lifecycle: ControlLifecycle::Ready, ..self.state@.record(pending.candidate@) },
                    other,
                );
            }
        }
        match self.commit(next) {
            Ok(_) => {},
            Err(error) => return StagedOutcome::Discarded { handle, drain_timeout_nanos, error },
        }
        let ghost ready = self.state@;
        let ghost kept = self.backend();
        let ghost plan = activated(ready, pending.candidate@, pending.overlaps());
        let next = match self.state.activate(pending.candidate.as_str(), &pending.overlap) {
            Ok(next) => next,
            Err(error) => {
                assert(attempted(kept, self.backend(), self.app(), ready, plan, self.current(), Some(error@)));
                return StagedOutcome::Discarded { handle, drain_timeout_nanos, error };
            },
        };
        proof {
            assert forall|other: Seq<char>| #[trigger] self.slots().dom().contains(other) implies next@.has(other) && live(next@.record(other).lifecycle) by {
                assert(self.slots.map().dom().contains(other));
                lemma_activated_keeps(self.state@, pending.candidate@, pending.overlaps(), other);
            }
            lemma_activated_keeps(self.state@, pending.candidate@, pending.overlaps(), pending.candidate@);
        }
        match self.commit(next) {
            Ok(_) => {},
            Err(error) => return StagedOutcome::Discarded { handle, drain_timeout_nanos, error },
        }
        let outcome = DurableTransitionOutcome {
            active_generation_spec_digest: pending.candidate.clone(),
            supervisor_epoch: self.state.supervisor_epoch,
            routing_epoch: self.state.routing_epoch,
            draining_generation_spec_digest: match &pending.overlap {
                Some(terms) => Some(terms.previous.clone()),
                None => None,
            },
            activation_direction: ActivationDirection::Forward,
        };
        let staged_at = self.state.routing_epoch;
        self.slots.insert(
            pending.candidate,
            LiveSlot { handle, leases: 0, staged_at, stateful_instances: pending.stateful_instances },
        );
        proof {
            let active = self.state@;
            assert(active.generations == next@.generations);
            assert(active.has(pending.candidate@));
            assert(active.record(pending.candidate@) == next@.record(pending.candidate@));
        }
        StagedOutcome::Activated(outcome)
    }
}

} // verus!
