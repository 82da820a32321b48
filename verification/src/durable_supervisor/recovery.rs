//! Recovery of a Supervisor from durable control state.
//!
//! A recovery fences the previous Supervisor, walks the records in order, and restages the
//! durably active and standby Generations from exact supplied authority.
use vstd::prelude::*;
use vstd::string::*;

use super::{attempted, claimed, refused, DurableGenerationSupervisor, LiveSlot};
use crate::durable::{
    load_from, ActivationDirection, ControlHealth, ControlLifecycle, ControlStateStore, DurableControlState, GenerationControlRecord,
    RecordView, RetirementReason, StateView,
};
use crate::error::{rejected, rejected_about, rejection, ControlPlaneError};
use crate::generation::{copy_identities, identities, ResolvedGeneration};
use crate::lifecycle::{
    deadline, live, nanos, parse_nanos, recovery_begun, required_rollback_deadline, staging_failed,
};
use crate::model::StatefulRuntimeIdentity;
use crate::text;
use crate::text::parsed;
use crate::text_map::TextMap;

verus! {

/// Supplied Generations by their digest.
pub type Authorities = TextMap<ResolvedGeneration>;

/// What recovery does with one record.
pub enum Fate {
    /// The record stays as it is.
    Keep,
    /// The standby window is over.
    Expire,
    /// The record belongs to an interrupted operation.
    CleanUp,
    /// The Generation is staged again within the timeout.
    Stage(nat),
    /// The record cannot be recovered.
    Reject(Seq<char>),
}

/// What recovery does with a record, given the supplied authority.
pub open spec fn fate(record: RecordView, app_id: Seq<char>, authorities: Authorities, now: u128) -> Fate {
    let digest = record.generation_spec_digest;
    match record.lifecycle {
        ControlLifecycle::Retired => Fate::Keep,
        ControlLifecycle::Staged | ControlLifecycle::Ready | ControlLifecycle::Draining => Fate::CleanUp,
        ControlLifecycle::Active | ControlLifecycle::Standby => if !authorities.has(digest) {
            Fate::Reject("recovery lacks exact Generation `"@ + digest + "` authority"@)
        } else if authorities.at(digest).digest() != digest || authorities.at(digest).spec.typed().app_id@ != app_id {
            Fate::Reject("recovery Generation authority digest or App mismatch"@)
        } else if record.lifecycle == ControlLifecycle::Standby {
            match required_rollback_deadline(record) {
                Err(detail) => Fate::Reject(detail),
                Ok(moment) => if moment <= now {
                    Fate::Expire
                } else {
                    staging_fate(record)
                },
            }
        } else {
            staging_fate(record)
        },
    }
}

/// Staging within the recorded timeout.
pub open spec fn staging_fate(record: RecordView) -> Fate {
    match nanos(record.ready_timeout_nanos, "ready timeout"@) {
        Ok(timeout) => Fate::Stage(timeout),
        Err(detail) => Fate::Reject(detail),
    }
}

/// The record after recovery passed it without staging.
pub open spec fn passed_record(record: RecordView, fate: Fate) -> RecordView {
    match fate {
        Fate::Expire => RecordView {
            lifecycle: ControlLifecycle::Retired,
            retirement_reason: Some(RetirementReason::RollbackWindowExpired),
            ..record
        },
        Fate::CleanUp => RecordView {
            lifecycle: ControlLifecycle::Retired,
            retirement_reason: Some(RetirementReason::RecoveryCleanup),
            ..record
        },
        _ => record,
    }
}

/// The fate needs no staging.
pub open spec fn passive(fate: Fate) -> bool {
    fate is Keep || fate is Expire || fate is CleanUp
}

/// A recovery that is under way.
#[derive(Debug)]
pub struct Recovery<H, S: ControlStateStore> {
    app_id: String,
    store: S,
    state: DurableControlState,
    next: DurableControlState,
    index: usize,
    slots: TextMap<LiveSlot<H>>,
    failed_active: Option<(String, bool)>,
    now_unix_nanos: u128,
}

/// What a recovery needs next.
#[derive(Debug)]
pub enum RecoveryStep {
    /// Stage the Generation, then hand the outcome to `staged`.
    Stage { generation_spec_digest: String, ready_timeout_nanos: u64 },
    /// Every record was settled: finish.
    Settled,
    /// The recovery failed: abandon it.
    Failed(ControlPlaneError),
}

/// Resources that an abandoned recovery leaves to be released.
#[derive(Debug)]
pub struct Leftover<H> {
    pub handle: H,
    pub drain_timeout_nanos: u64,
}

/// The time that releasing may take: the recorded one, or none where it is unreadable.
pub open spec fn leftover_timeout(state: StateView, digest: Seq<char>) -> nat {
    if state.has(digest) {
        match parsed(state.record(digest).drain_timeout_nanos, u64::MAX as nat) {
            Some(timeout) => timeout,
            None => 0,
        }
    } else {
        0
    }
}

/// The resources of a recovery in order, each with the time that releasing it may take.
pub open spec fn left_over<H>(state: StateView, slots: Seq<(Seq<char>, LiveSlot<H>)>, r: Seq<Leftover<H>>) -> bool {
    &&& r.len() == slots.len()
    &&& forall|i: int| 0 <= i < r.len() ==> (#[trigger] r[i]).handle == slots[i].1.handle && r[i].drain_timeout_nanos == leftover_timeout(
        state,
        slots[i].0,
    )
}

/// What staging the Generation that a step named comes to. A live recovery is the slots, the routing
/// epoch, and the transition of an active Generation that was lost, with its policy of rollback.
pub open spec fn restaged<H>(
    before: StateView,
    progress: int,
    live: (Map<Seq<char>, LiveSlot<H>>, u64, Option<(Seq<char>, bool)>),
    authorities: Authorities,
    outcome: Result<H, ControlPlaneError>,
    r: Result<(), ControlPlaneError>,
    after: StateView,
    still: (Map<Seq<char>, LiveSlot<H>>, Option<(Seq<char>, bool)>),
) -> bool {
    let record = before.generations[progress];
    let digest = record.generation_spec_digest;
    match outcome {
        Ok(handle) => {
            &&& r is Ok
            &&& after == before
            &&& still.1 == live.2
            &&& exists|stateful: TextMap<StatefulRuntimeIdentity>| #[trigger] identities(stateful) == identities(
                authorities.at(digest).stateful_instances,
            ) && still.0 == live.0.insert(digest, (LiveSlot { handle, leases: 0, staged_at: live.1, stateful_instances: stateful }))
        },
        Err(error) => {
            let lost = before.active_generation_spec_digest == Some(digest);
            &&& still.0 == live.0
            &&& after == (StateView {
                active_generation_spec_digest: if lost {
                    None
                } else {
                    before.active_generation_spec_digest
                },
                ..before.with_record(staging_failed(record))
            })
            &&& still.1 == (if lost {
                Some((record.transition_spec_digest, record.automatic_rollback_on_generation_failure))
            } else {
                live.2
            })
            &&& if error@ is TransitionRejected {
                r == Err::<(), ControlPlaneError>(error)
            } else {
                r is Ok
            }
        },
    }
}

/// A Generation that was staged again is held without leases at the epoch of the recovery, and its record
/// stays. One that was not is retired as failed, and gives up the route if it held it; what its transition
/// said of rollback is then remembered. Only a rejected transition fails the recovery.
pub proof fn a_generation_that_is_not_staged_again_retires<H>(
    before: StateView,
    progress: int,
    live: (Map<Seq<char>, LiveSlot<H>>, u64, Option<(Seq<char>, bool)>),
    authorities: Authorities,
    outcome: Result<H, ControlPlaneError>,
    r: Result<(), ControlPlaneError>,
    after: StateView,
    still: (Map<Seq<char>, LiveSlot<H>>, Option<(Seq<char>, bool)>),
    other: Seq<char>,
)
    requires
        before.unique(),
        0 <= progress < before.generations.len(),
        restaged(before, progress, live, authorities, outcome, r, after, still),
        before.has(other),
    ensures
        ({
            let record = before.generations[progress];
            let digest = record.generation_spec_digest;
            let held = before.active_generation_spec_digest == Some(digest);
            &&& outcome is Ok ==> r is Ok && after == before && still.1 == live.2
            &&& outcome is Ok ==> still.0.dom().contains(digest) && still.0[digest].leases == 0 && still.0[digest].staged_at == live.1
                && still.0[digest].handle == outcome->Ok_0
            &&& outcome is Err ==> still.0 == live.0
            &&& outcome is Err ==> after.has(digest) && after.record(digest).lifecycle == ControlLifecycle::Retired && after.record(digest).health
                == ControlHealth::Failed && after.record(digest).retirement_reason == Some(RetirementReason::StagingFailed)
            &&& outcome is Err && held ==> after.active_generation_spec_digest is None && still.1 == Some(
                (record.transition_spec_digest, record.automatic_rollback_on_generation_failure),
            )
            &&& outcome is Err && !held ==> after.active_generation_spec_digest == before.active_generation_spec_digest && still.1 == live.2
            &&& outcome is Err ==> (r is Err <==> outcome->Err_0@ is TransitionRejected)
            &&& other != digest ==> after.has(other) && after.record(other) == before.record(other)
            &&& other != digest ==> (still.0.dom().contains(other) <==> live.0.dom().contains(other))
            &&& after.routing_epoch == before.routing_epoch
            &&& after.supervisor_epoch == before.supervisor_epoch
            &&& after.revision == before.revision
        }),
{
    let record = before.generations[progress];
    let digest = record.generation_spec_digest;
    before.found(progress);
    if outcome is Err {
        let lost = staging_failed(record);
        let marked = before.with_record(lost);
        before.lookup(lost, other);
        before.lookup(lost, digest);
        assert(after.generations == marked.generations);
        assert(after.record(digest) == marked.record(digest));
        assert(after.record(other) == marked.record(other));
        assert(after.has(digest) == marked.has(digest));
        assert(after.has(other) == marked.has(other));
    }
}

/// What one step comes to: the records up to the one that it reaches are settled without staging.
pub open spec fn stepped(
    before: StateView,
    progress: int,
    app: Seq<char>,
    authorities: Authorities,
    now: u128,
    after: StateView,
    reached: int,
    r: RecoveryStep,
) -> bool {
    let records = Seq::new(
        before.generations.len(),
        |i: int|
            if progress <= i < reached {
                passed_record(before.generations[i], fate(before.generations[i], app, authorities, now))
            } else {
                before.generations[i]
            },
    );
    &&& after == (StateView { generations: records, ..before })
    &&& forall|i: int| progress <= i < reached ==> passive(fate(#[trigger] before.generations[i], app, authorities, now))
    &&& match r {
        RecoveryStep::Settled => reached == before.generations.len(),
        RecoveryStep::Stage { generation_spec_digest, ready_timeout_nanos } => {
            &&& reached < before.generations.len()
            &&& generation_spec_digest@ == before.generations[reached].generation_spec_digest
            &&& fate(before.generations[reached], app, authorities, now) == Fate::Stage(ready_timeout_nanos as nat)
        },
        RecoveryStep::Failed(error) => {
            &&& reached < before.generations.len()
            &&& fate(before.generations[reached], app, authorities, now) matches Fate::Reject(detail) && error@ == rejection(detail)
        },
    }
}

/// Recovery settles each record as its lifecycle calls for. What was interrupted (Staged, Ready or
/// Draining) is never staged again: it retires as cleaned up. A standby whose window is over retires as
/// expired. What is Active, or stands by inside its window, is never passed over: the step stops at it.
/// A record that already retired stays as it is.
pub proof fn a_recovery_settles_each_record(
    before: StateView,
    progress: int,
    app: Seq<char>,
    authorities: Authorities,
    now: u128,
    after: StateView,
    reached: int,
    r: RecoveryStep,
    i: int,
    window: nat,
)
    requires
        stepped(before, progress, app, authorities, now, after, reached, r),
        0 <= progress <= i < before.generations.len(),
        progress <= reached <= before.generations.len(),
        before.generations[i].lifecycle == ControlLifecycle::Standby ==> before.generations[i].rollback_deadline_unix_nanos is Some && parsed(
            before.generations[i].rollback_deadline_unix_nanos->Some_0,
            u128::MAX as nat,
        ) == Some(window),
    ensures
        ({
            let old = before.generations[i];
            let new = after.generations[i];
            let authorized = authorities.has(old.generation_spec_digest) && authorities.at(old.generation_spec_digest).digest()
                == old.generation_spec_digest && authorities.at(old.generation_spec_digest).spec.typed().app_id@ == app;
            &&& old.lifecycle == ControlLifecycle::Staged || old.lifecycle == ControlLifecycle::Ready || old.lifecycle
                == ControlLifecycle::Draining ==> i != reached && (i < reached ==> new == (RecordView {
                lifecycle: ControlLifecycle::Retired,
                retirement_reason: Some(RetirementReason::RecoveryCleanup),
                ..old
            }))
            &&& old.lifecycle == ControlLifecycle::Retired ==> i != reached && new == old
            &&& old.lifecycle == ControlLifecycle::Active ==> i >= reached && new == old
            &&& old.lifecycle == ControlLifecycle::Standby && window > now ==> i >= reached && new == old
            &&& old.lifecycle == ControlLifecycle::Standby && window <= now && authorized ==> i != reached && (i < reached ==> new == (RecordView {
                lifecycle: ControlLifecycle::Retired,
                retirement_reason: Some(RetirementReason::RollbackWindowExpired),
                ..old
            }))
            &&& r is Settled ==> i < reached
            &&& r is Stage && i == reached ==> authorized && r->generation_spec_digest@ == old.generation_spec_digest && parsed(
                old.ready_timeout_nanos,
                u64::MAX as nat,
            ) == Some(r->ready_timeout_nanos as nat)
            &&& i == reached && authorized && parsed(old.ready_timeout_nanos, u64::MAX as nat) is Some ==> r is Stage
        }),
{
}

/// A record came to a proper end of its recovery, given whether its Generation was staged.
spec fn came_to(old: RecordView, new: RecordView, held: bool, now: u128) -> bool {
    &&& new.lifecycle != ControlLifecycle::Retired ==> held && new == old
    &&& new.lifecycle == ControlLifecycle::Retired ==> match old.lifecycle {
        ControlLifecycle::Retired => new == old,
        ControlLifecycle::Staged | ControlLifecycle::Ready | ControlLifecycle::Draining => {
            ||| new == (RecordView { lifecycle: new.lifecycle, retirement_reason: Some(RetirementReason::RecoveryCleanup), ..old })
            ||| could_not_stage(old, new)
        },
        ControlLifecycle::Active => could_not_stage(old, new),
        ControlLifecycle::Standby => {
            ||| could_not_stage(old, new)
            ||| new == (RecordView { lifecycle: new.lifecycle, retirement_reason: Some(RetirementReason::RollbackWindowExpired), ..old })
                && (required_rollback_deadline(old) matches Ok(moment) && moment <= now)
        },
    }
}

/// The Generation of a record was to be staged and was not.
spec fn could_not_stage(old: RecordView, new: RecordView) -> bool {
    new == (RecordView {
        lifecycle: new.lifecycle,
        health: ControlHealth::Failed,
        retirement_reason: Some(RetirementReason::StagingFailed),
        ..old
    })
}

/// A standby that may take the route of a failed active Generation.
pub open spec fn substitute<H>(record: RecordView, transition: Seq<char>, slots: Map<Seq<char>, LiveSlot<H>>, now: u128) -> bool {
    &&& record.lifecycle == ControlLifecycle::Standby
    &&& record.transition_spec_digest == transition
    &&& required_rollback_deadline(record) matches Ok(moment) && moment > now
    &&& slots.dom().contains(record.generation_spec_digest)
}

/// The record at `i` is the first standby that may take the route.
pub open spec fn first_substitute<H>(state: StateView, transition: Seq<char>, slots: Map<Seq<char>, LiveSlot<H>>, now: u128, i: int) -> bool {
    &&& 0 <= i < state.generations.len()
    &&& substitute(state.generations[i], transition, slots, now)
    &&& forall|k: int| 0 <= k < i ==> !substitute(#[trigger] state.generations[k], transition, slots, now)
}

/// The state that a settled recovery commits: with a rollback of the route where the active
/// Generation could not be staged and its transition authorizes one.
pub open spec fn settled<H>(
    next: StateView,
    failed_active: Option<(Seq<char>, bool)>,
    slots: Map<Seq<char>, LiveSlot<H>>,
    now: u128,
    plan: Result<StateView, Seq<char>>,
) -> bool {
    if next.active_generation_spec_digest is None && failed_active is Some && failed_active->Some_0.1 && (exists|i: int|
        first_substitute(next, failed_active->Some_0.0, slots, now, i)) {
        exists|i: int|
            #[trigger] first_substitute(next, failed_active->Some_0.0, slots, now, i) && plan == (if next.routing_epoch == u64::MAX {
                Err("Routing Epoch exhausted"@)
            } else {
                Ok(
                    StateView {
                        active_generation_spec_digest: Some(next.generations[i].generation_spec_digest),
                        routing_epoch: (next.routing_epoch + 1) as u64,
                        ..next
                    }.with_record(
                        RecordView {
                            lifecycle: ControlLifecycle::Active,
                            activation_direction: ActivationDirection::Rollback,
                            ..next.generations[i]
                        },
                    ),
                )
            })
    } else {
        plan == Ok::<StateView, Seq<char>>(next)
    }
}

proof fn lemma_first_substitute<H>(state: StateView, transition: Seq<char>, slots: Map<Seq<char>, LiveSlot<H>>, now: u128, some: int) -> (i: int)
    requires
        0 <= some < state.generations.len(),
        substitute(state.generations[some], transition, slots, now),
    ensures
        first_substitute(state, transition, slots, now, i),
    decreases some,
{
    if exists|k: int| 0 <= k < some && substitute(#[trigger] state.generations[k], transition, slots, now) {
        let k = choose|k: int| 0 <= k < some && substitute(#[trigger] state.generations[k], transition, slots, now);
        lemma_first_substitute(state, transition, slots, now, k)
    } else {
        some
    }
}

/// A retained predecessor stands ready to take the route back: it is on standby and staged, under the
/// transition that was lost, and inside its window.
pub open spec fn stands_ready<H>(record: RecordView, transition: Seq<char>, slots: Map<Seq<char>, LiveSlot<H>>, now: u128) -> bool {
    &&& record.lifecycle == ControlLifecycle::Standby
    &&& record.transition_spec_digest == transition
    &&& record.rollback_deadline_unix_nanos is Some
    &&& parsed(record.rollback_deadline_unix_nanos->Some_0, u128::MAX as nat) matches Some(window) && window > now
    &&& slots.dom().contains(record.generation_spec_digest)
}

/// A recovery takes the route back exactly where its active Generation was lost under a transition that
/// authorizes it and a predecessor stands ready. The first such one is then Active, one epoch later, and
/// every other record stays. In every other recovery the state is committed as it was settled.
pub proof fn a_recovery_rolls_back_only_where_it_may<H>(
    next: StateView,
    failed_active: Option<(Seq<char>, bool)>,
    slots: Map<Seq<char>, LiveSlot<H>>,
    now: u128,
    plan: StateView,
    i: int,
    other: Seq<char>,
)
    requires
        next.unique(),
        settled(next, failed_active, slots, now, Ok(plan)),
        next.has(other),
    ensures
        next.active_generation_spec_digest is Some || failed_active is None || !failed_active->Some_0.1 ==> plan == next,
        next.active_generation_spec_digest is None && failed_active is Some && failed_active->Some_0.1 && 0 <= i < next.generations.len()
            && stands_ready(next.generations[i], failed_active->Some_0.0, slots, now) ==> plan.active_generation_spec_digest is Some,
        plan.active_generation_spec_digest != next.active_generation_spec_digest ==> ({
            let digest = plan.active_generation_spec_digest->Some_0;
            &&& plan.active_generation_spec_digest is Some
            &&& next.active_generation_spec_digest is None
            &&& failed_active is Some && failed_active->Some_0.1
            &&& next.has(digest)
            &&& stands_ready(next.record(digest), failed_active->Some_0.0, slots, now)
            &&& 0 <= i < next.generations.len() && stands_ready(next.generations[i], failed_active->Some_0.0, slots, now) ==> next.position(digest)
                <= i
            &&& plan.has(digest)
            &&& plan.record(digest).lifecycle == ControlLifecycle::Active
            &&& plan.record(digest).activation_direction == ActivationDirection::Rollback
            &&& plan.routing_epoch == next.routing_epoch + 1
            &&& other != digest ==> plan.has(other) && plan.record(other) == next.record(other)
        }),
        plan.active_generation_spec_digest == next.active_generation_spec_digest ==> plan == next,
        plan.revision == next.revision,
        plan.supervisor_epoch == next.supervisor_epoch,
{
    if next.active_generation_spec_digest is None && failed_active is Some && failed_active->Some_0.1 {
        let transition = failed_active->Some_0.0;
        if 0 <= i < next.generations.len() && stands_ready(next.generations[i], transition, slots, now) {
            assert(substitute(next.generations[i], transition, slots, now));
            let first = lemma_first_substitute(next, transition, slots, now, i);
            assert(first_substitute(next, transition, slots, now, first));
        }
        if exists|k: int| first_substitute(next, transition, slots, now, k) {
            let k = choose|k: int|
                #[trigger] first_substitute(next, transition, slots, now, k) && plan == (StateView {
                    active_generation_spec_digest: Some(next.generations[k].generation_spec_digest),
                    routing_epoch: (next.routing_epoch + 1) as u64,
                    ..next
                }.with_record(
                    RecordView {
                        lifecycle: ControlLifecycle::Active,
                        activation_direction: ActivationDirection::Rollback,
                        ..next.generations[k]
                    },
                ));
            let record = RecordView {
                lifecycle: ControlLifecycle::Active,
                activation_direction: ActivationDirection::Rollback,
                ..next.generations[k]
            };
            let digest = record.generation_spec_digest;
            next.found(k);
            next.lookup(record, digest);
            next.lookup(record, other);
            let marked = next.with_record(record);
            assert(plan.generations == marked.generations);
            assert(plan.record(digest) == marked.record(digest));
            assert(plan.record(other) == marked.record(other));
            assert(plan.has(digest) == marked.has(digest));
            assert(plan.has(other) == marked.has(other));
        }
    }
}

/// The view of a remembered active failure.
pub open spec fn failed_view(failed: Option<(String, bool)>) -> Option<(Seq<char>, bool)> {
    match failed {
        Some((transition, automatic)) => Some((transition@, automatic)),
        None => None,
    }
}

impl<H, S: ControlStateStore> Recovery<H, S> {
    /// The App that is recovered.
    pub closed spec fn app(self) -> Seq<char> {
        self.app_id@
    }

    /// The state that fenced the previous Supervisor.
    pub closed spec fn fence(self) -> StateView {
        self.state@
    }

    /// The state as far as the records were settled.
    pub closed spec fn draft(self) -> StateView {
        self.next@
    }

    /// The number of records that were settled.
    pub closed spec fn progress(self) -> int {
        self.index as int
    }

    /// The Generations that were staged.
    pub closed spec fn slots(self) -> Map<Seq<char>, LiveSlot<H>> {
        self.slots.map()
    }

    /// The Generations that were staged, in the order of their digests.
    pub closed spec fn slot_order(self) -> Seq<(Seq<char>, LiveSlot<H>)> {
        self.slots.entries()
    }

    /// The transition and rollback authority of an active Generation that was not staged.
    pub closed spec fn failed_active(self) -> Option<(Seq<char>, bool)> {
        failed_view(self.failed_active)
    }

    /// The store that the control state is kept in.
    pub closed spec fn backend(self) -> S {
        self.store
    }

    /// The moment of the recovery.
    pub closed spec fn now(self) -> u128 {
        self.now_unix_nanos
    }

    /// The records stay about the same Generations, each staged Generation has a live record that was
    /// settled, and every settled record came to a proper end.
    pub closed spec fn inv(self) -> bool {
        &&& self.consistent()
        &&& self.walked()
    }

    /// Each settled record is still in service with its resources staged, or it retired for the reason
    /// that its lifecycle calls for; the others are as they were. The route is given up only with the
    /// Generation that held it.
    spec fn walked(self) -> bool {
        &&& forall|i: int| 0 <= i < self.index ==> came_to(
            self.state@.generations[i],
            #[trigger] self.next@.generations[i],
            self.slots.map().dom().contains(self.next@.generations[i].generation_spec_digest),
            self.now_unix_nanos,
        )
        &&& forall|i: int| self.index <= i < self.next@.generations.len() ==> #[trigger] self.next@.generations[i] == self.state@.generations[i]
        &&& self.next@ == (StateView {
            active_generation_spec_digest: self.next@.active_generation_spec_digest,
            generations: self.next@.generations,
            ..self.state@
        })
        &&& self.next@.active_generation_spec_digest == self.state@.active_generation_spec_digest || (self.next@.active_generation_spec_digest is None
            && !live(self.next@.record(self.state@.active_generation_spec_digest->Some_0).lifecycle)
            && self.next@.has(self.state@.active_generation_spec_digest->Some_0))
        &&& self.next@.active_generation_spec_digest matches Some(active) ==> self.next@.has(active) && live(
            self.next@.record(active).lifecycle,
        )
    }

    /// The records stay about the same Generations, and each staged Generation has a live record
    /// that was settled.
    spec fn consistent(self) -> bool {
        &&& self.state@.valid(self.app_id@)
        &&& self.next@.unique()
        &&& self.next@.generations.len() == self.state@.generations.len()
        &&& forall|i: int| 0 <= i < self.next@.generations.len() ==> (#[trigger] self.next@.generations[i]).generation_spec_digest
            == self.state@.generations[i].generation_spec_digest
        &&& self.index <= self.next.generations.len()
        &&& self.slots.wf()
        &&& forall|digest: Seq<char>| #[trigger] self.slots.map().dom().contains(digest) ==> self.next@.has(digest) && self.next@.position(digest)
            < self.index && live(self.next@.record(digest).lifecycle) && self.slots.map()[digest].stateful_instances.wf()
    }

    /// Fences the previous Supervisor.
    pub fn begin(app_id: String, store: S, now_unix_nanos: u128) -> (r: Result<Self, ControlPlaneError>)
        ensures
            match r {
                Ok(recovery) => {
                    &&& recovery.inv()
                    &&& recovery.app() == app_id@
                    &&& recovery.now() == now_unix_nanos
                    &&& recovery.progress() == 0
                    &&& recovery.draft() == recovery.fence()
                    &&& recovery.slots() == Map::<Seq<char>, LiveSlot<H>>::empty()
                    &&& recovery.failed_active() is None
                    &&& claimed(store, app_id@, |state: StateView| recovery_begun(state), Ok((recovery.fence(), recovery.backend())))
                },
                Err(error) => claimed(store, app_id@, |state: StateView| recovery_begun(state), Err(error@)),
            },
    {
        let ghost given = store;
        let mut store = store;
        let loaded = match load_from(&store, app_id.as_str()) {
            Ok(loaded) => loaded,
            Err(error) => return Err(error),
        };
        let fenced = match loaded.begin_recovery() {
            Ok(fenced) => fenced,
            Err(error) => {
                assert(attempted(given, store, app_id@, loaded@, recovery_begun(loaded@), loaded@, Some(error@)));
                assert(refused(given, app_id@, loaded@, recovery_begun(loaded@), error@));
                return Err(error);
            },
        };
        let state = match store.compare_and_swap(app_id.as_str(), loaded.revision, fenced) {
            Ok(state) => state,
            Err(error) => {
                assert(attempted(given, store, app_id@, loaded@, recovery_begun(loaded@), loaded@, Some(error@)));
                assert(refused(given, app_id@, loaded@, recovery_begun(loaded@), error@));
                return Err(error);
            },
        };
        let next = state.clone();
        Ok(
            Recovery {
                app_id,
                store,
                state,
                next,
                index: 0,
                slots: TextMap::new(),
                failed_active: None,
                now_unix_nanos,
            },
        )
    }

    /// Settles the records that need no staging, up to the next one that does.
    #[verifier::rlimit(60)]
    #[verifier::spinoff_prover]
    pub fn step(&mut self, authorities: &Authorities) -> (r: RecoveryStep)
        requires
            old(self).inv(),
            authorities.wf(),
        ensures
            final(self).inv(),
            final(self).app() == old(self).app(),
            final(self).backend() == old(self).backend(),
            final(self).fence() == old(self).fence(),
            final(self).now() == old(self).now(),
            final(self).slots() == old(self).slots(),
            final(self).slot_order() == old(self).slot_order(),
            final(self).failed_active() == old(self).failed_active(),
            old(self).progress() <= final(self).progress() <= old(self).draft().generations.len(),
            stepped(
                old(self).draft(),
                old(self).progress(),
                old(self).app(),
                *authorities,
                old(self).now(),
                final(self).draft(),
                final(self).progress(),
                r,
            ),
    {
        let ghost before = self.next@;
        let ghost start = self.index as int;
        let ghost app = self.app_id@;
        let ghost now = self.now_unix_nanos;
        while self.index < self.next.generations.len()
            invariant
                self.inv(),
                authorities.wf(),
                self.app() == old(self).app(),
                self.backend() == old(self).backend(),
                self.fence() == old(self).fence(),
                self.now() == old(self).now(),
                self.slots() == old(self).slots(),
                self.slot_order() == old(self).slot_order(),
                self.failed_active() == old(self).failed_active(),
                app == self.app_id@,
                now == self.now_unix_nanos,
                before == old(self).draft(),
                start == old(self).progress(),
                start <= self.index,
                self.next@ == (StateView { generations: self.next@.generations, ..before }),
                self.next@.generations.len() == before.generations.len(),
                forall|i: int| start <= i < self.index ==> #[trigger] self.next@.generations[i] == passed_record(
                    before.generations[i],
                    fate(before.generations[i], app, *authorities, now),
                ),
                forall|i: int| 0 <= i < before.generations.len() && !(start <= i < self.index) ==> #[trigger] self.next@.generations[i]
                    == before.generations[i],
                forall|i: int| start <= i < self.index ==> passive(fate(#[trigger] before.generations[i], app, *authorities, now)),
            decreases self.next.generations.len() - self.index,
        {
            let index = self.index;
            assert(self.next@.generations[index as int] == before.generations[index as int]);
            assert(self.next@.generations[index as int] == self.next.generations@[index as int]@);
            let record = &self.next.generations[index];
            let reason = match record.lifecycle {
                ControlLifecycle::Retired => None,
                ControlLifecycle::Staged | ControlLifecycle::Ready | ControlLifecycle::Draining => Some(RetirementReason::RecoveryCleanup),
                ControlLifecycle::Active | ControlLifecycle::Standby => {
                    match check_authority(self.app_id.as_str(), record, authorities) {
                        Ok(_) => {},
                        Err(error) => {
                            proof {
                                self.draft_form(before, start, app, *authorities, now);
                            }
                            return RecoveryStep::Failed(error);
                        },
                    }
                    let expired = if record.lifecycle == ControlLifecycle::Standby {
                        match deadline(record) {
                            Ok(moment) => moment <= self.now_unix_nanos,
                            Err(error) => {
                                proof {
                                    self.draft_form(before, start, app, *authorities, now);
                                }
                                return RecoveryStep::Failed(error);
                            },
                        }
                    } else {
                        false
                    };
                    if !expired {
                        proof {
                            self.draft_form(before, start, app, *authorities, now);
                        }
                        return match parse_nanos(record.ready_timeout_nanos.as_str(), "ready timeout") {
                            Ok(timeout) => RecoveryStep::Stage {
                                generation_spec_digest: record.generation_spec_digest.clone(),
                                ready_timeout_nanos: timeout,
                            },
                            Err(error) => RecoveryStep::Failed(error),
                        };
                    }
                    Some(RetirementReason::RollbackWindowExpired)
                },
            };
            let ghost mid = self.next@;
            match reason {
                Some(reason) => {
                    let mut record = self.next.generations[index].clone();
                    record.lifecycle = ControlLifecycle::Retired;
                    record.retirement_reason = Some(reason);
                    self.replace_record(index, record);
                },
                None => {},
            }
            proof {
                assert(self.next@.generations =~= mid.generations.update(index as int, passed_record(
                    before.generations[index as int],
                    fate(before.generations[index as int], app, *authorities, now),
                )));
                assert forall|digest: Seq<char>| #[trigger] self.slots.map().dom().contains(digest) implies self.next@.position(digest) < self.index + 1 by {
                }
            }
            self.index = index + 1;
            proof {
                assert forall|i: int| 0 <= i < self.index implies came_to(
                    self.state@.generations[i],
                    #[trigger] self.next@.generations[i],
                    self.slots.map().dom().contains(self.next@.generations[i].generation_spec_digest),
                    self.now_unix_nanos,
                ) by {
                    if i < index {
                        assert(self.next@.generations[i] == mid.generations[i]);
                    }
                }
                match self.state@.active_generation_spec_digest {
                    Some(active) => {
                        let settled = self.next@.generations[index as int];
                        self.state@.found(index as int);
                        assert(mid.generations[index as int] == self.state@.generations[index as int]);
                        if reason is Some {
                            assert(mid.generations[index as int].lifecycle != ControlLifecycle::Active);
                            assert(settled.generation_spec_digest != active);
                            mid.found(index as int);
                            mid.lookup(settled, active);
                        }
                    },
                    None => {},
                }
            }
        }
        proof {
            self.draft_form(before, start, app, *authorities, now);
        }
        RecoveryStep::Settled
    }

    /// Puts a record that is about the same Generation at a position that no staged Generation has.
    fn replace_record(&mut self, i: usize, record: GenerationControlRecord)
        requires
            old(self).consistent(),
            i < old(self).next.generations.len(),
            i >= old(self).index,
            old(self).next@.generations[i as int].generation_spec_digest == record@.generation_spec_digest,
        ensures
            final(self).backend() == old(self).backend(),
            final(self).consistent(),
            final(self).next@ == old(self).next@.with_record(record@),
            final(self).next@.generations == old(self).next@.generations.update(i as int, record@),
            final(self).app_id == old(self).app_id,
            final(self).state == old(self).state,
            final(self).index == old(self).index,
            final(self).slots == old(self).slots,
            final(self).failed_active == old(self).failed_active,
            final(self).now_unix_nanos == old(self).now_unix_nanos,
    {
        let ghost before = self.next@;
        self.next.generations.set(i, record);
        proof {
            before.replaced(i as int, record@);
            assert(self.next@.generations =~= before.generations.update(i as int, record@));
            assert forall|digest: Seq<char>| #[trigger] self.slots.map().dom().contains(digest) implies self.next@.has(digest) && self.next@.position(
                digest,
            ) < self.index && live(self.next@.record(digest).lifecycle) by {
                before.lookup(record@, digest);
                let p = before.position(digest);
                assert(before.generations[p].generation_spec_digest == digest);
                assert(p < old(self).index);
                self.next@.found(p);
            }
        }
    }

    /// Takes what came of staging the Generation that `step` named.
    ///
    /// A Generation that was not staged retires; if it held the route, the route is given up.
    /// A rejected transition fails the whole recovery.
    pub fn staged(&mut self, authorities: &Authorities, outcome: Result<H, ControlPlaneError>) -> (r: Result<(), ControlPlaneError>)
        requires
            old(self).inv(),
            old(self).progress() < old(self).draft().generations.len(),
            live(old(self).draft().generations[old(self).progress()].lifecycle),
            authorities.has(old(self).draft().generations[old(self).progress()].generation_spec_digest),
            authorities.wf(),
            authorities.at(old(self).draft().generations[old(self).progress()].generation_spec_digest).wf(),
        ensures
            final(self).inv(),
            final(self).app() == old(self).app(),
            final(self).backend() == old(self).backend(),
            final(self).fence() == old(self).fence(),
            final(self).now() == old(self).now(),
            final(self).progress() == old(self).progress() + 1,
            outcome is Err ==> final(self).slot_order() == old(self).slot_order(),
            restaged(
                old(self).draft(),
                old(self).progress(),
                (old(self).slots(), old(self).fence().routing_epoch, old(self).failed_active()),
                *authorities,
                outcome,
                r,
                final(self).draft(),
                (final(self).slots(), final(self).failed_active()),
            ),
    {
        let index = self.index;
        let ghost before = self.next@;
        let mut record = self.next.generations[index].clone();
        let ghost digest = record.generation_spec_digest@;
        assert(before.generations[index as int] == record@);
        match outcome {
            Ok(handle) => {
                let stateful_instances = match authorities.get(record.generation_spec_digest.as_str()) {
                    Some(generation) => copy_identities(&generation.stateful_instances),
                    None => TextMap::new(),
                };
                let ghost slots = self.slots.map();
                self.slots.insert(
                    record.generation_spec_digest,
                    LiveSlot { handle, leases: 0, staged_at: self.state.routing_epoch, stateful_instances },
                );
                self.index = index + 1;
                proof {
                    before.found(index as int);
                    self.rewalked(*old(self));
                    assert(identities(stateful_instances) == identities(authorities.at(digest).stateful_instances));
                }
                Ok(())
            },
            Err(error) => {
                let lost = text::is_text(&self.next.active_generation_spec_digest, record.generation_spec_digest.as_str());
                let transition = record.transition_spec_digest.clone();
                let automatic = record.automatic_rollback_on_generation_failure;
                record.health = ControlHealth::Failed;
                record.lifecycle = ControlLifecycle::Retired;
                record.retirement_reason = Some(RetirementReason::StagingFailed);
                self.replace_record(index, record);
                if lost {
                    self.failed_active = Some((transition, automatic));
                    self.next.active_generation_spec_digest = None;
                }
                let ghost after = self.next@;
                proof {
                    assert(after.generations == before.with_record(record@).generations);
                    assert forall|other: Seq<char>| #[trigger] self.slots.map().dom().contains(other) implies self.next@.has(other) && self.next@.position(
                        other,
                    ) < index + 1 && live(self.next@.record(other).lifecycle) by {
                        let kept = before.with_record(record@);
                        assert(kept.has(other));
                        assert(after.position(other) == kept.position(other));
                    }
                }
                self.index = index + 1;
                proof {
                    self.rewalked(*old(self));
                    before.found(index as int);
                    match self.state@.active_generation_spec_digest {
                        Some(active) => {
                            before.lookup(record@, active);
                            let kept = before.with_record(record@);
                            assert(self.next@.has(active) == kept.has(active) && self.next@.position(active) == kept.position(active));
                        },
                        None => {},
                    }
                }
                match error {
                    ControlPlaneError::TransitionRejected { detail } => Err(ControlPlaneError::TransitionRejected { detail }),
                    _ => Ok(()),
                }
            },
        }
    }

    /// Gives up a recovery: what was staged is left to be released.
    pub fn abandon(self) -> (r: Vec<Leftover<H>>)
        requires
            self.inv(),
        ensures
            left_over(self.fence(), self.slot_order(), r@),
    {
        leftovers(&self.state, self.slots)
    }

    /// The first standby that may take the route of a failed active Generation.
    fn find_substitute(&self, transition: &str) -> (r: Option<usize>)
        requires
            self.inv(),
        ensures
            match r {
                Some(i) => first_substitute(self.draft(), transition@, self.slots(), self.now(), i as int),
                None => forall|i: int| !first_substitute(self.draft(), transition@, self.slots(), self.now(), i),
            },
    {
        let mut i: usize = 0;
        while i < self.next.generations.len()
            invariant
                self.inv(),
                i <= self.next.generations.len(),
                self.next@.generations.len() == self.next.generations.len(),
                forall|k: int| 0 <= k < i ==> !substitute(#[trigger] self.next@.generations[k], transition@, self.slots(), self.now()),
            decreases self.next.generations.len() - i,
        {
            let record = &self.next.generations[i];
            assert(self.next@.generations[i as int] == record@);
            if record.lifecycle == ControlLifecycle::Standby && text::same(record.transition_spec_digest.as_str(), transition)
                && self.slots.contains_key(record.generation_spec_digest.as_str()) {
                match deadline(record) {
                    Ok(moment) => {
                        if moment > self.now_unix_nanos {
                            return Some(i);
                        }
                    },
                    Err(_) => {},
                }
            }
            i = i + 1;
        }
        None
    }

    /// Commits the settled state and opens the Supervisor over it.
    pub fn finish(self) -> (r: Result<DurableGenerationSupervisor<H, S>, (ControlPlaneError, Vec<Leftover<H>>)>)
        requires
            self.inv(),
            self.progress() == self.draft().generations.len(),
        ensures
            match r {
                Ok(supervisor) => {
                    &&& supervisor.inv()
                    &&& supervisor.app() == self.app()
                    &&& supervisor.slots() == self.slots()
                    &&& exists|next: StateView| #[trigger] settled(self.draft(), self.failed_active(), self.slots(), self.now(), Ok(next))
                        && attempted(self.backend(), supervisor.backend(), self.app(), self.fence(), Ok(next), supervisor.current(), None)
                    &&& forall|digest: Seq<char>| #[trigger] supervisor.current().has(digest) && supervisor.current().record(digest).lifecycle
                        != ControlLifecycle::Retired ==> supervisor.slots().dom().contains(digest)
                },
                Err((error, leftovers)) => left_over(self.fence(), self.slot_order(), leftovers@) && exists|plan: Result<StateView, Seq<char>>|
                    #[trigger] settled(self.draft(), self.failed_active(), self.slots(), self.now(), plan) && refused(
                        self.backend(),
                        self.app(),
                        self.fence(),
                        plan,
                        error@,
                    ),
            },
    {
        let ghost draft = self.next@;
        let substitute = match (&self.next.active_generation_spec_digest, &self.failed_active) {
            (None, Some((transition, true))) => self.find_substitute(transition.as_str()),
            _ => None,
        };
        let mut recovery = self;
        match substitute {
            Some(i) => {
                if recovery.next.routing_epoch == u64::MAX {
                    proof {
                        assert(first_substitute(draft, self.failed_active()->Some_0.0, self.slots(), self.now(), i as int));
                        let plan = Err::<StateView, Seq<char>>("Routing Epoch exhausted"@);
                        assert(settled(draft, self.failed_active(), self.slots(), self.now(), plan));
                        assert(attempted(
                            self.backend(),
                            self.backend(),
                            self.app(),
                            self.fence(),
                            plan,
                            self.fence(),
                            Some(rejection("Routing Epoch exhausted"@)),
                        ));
                    }
                    return Err((rejected("Routing Epoch exhausted"), leftovers(&recovery.state, recovery.slots)));
                }
                let mut record = recovery.next.generations[i].clone();
                let ghost standby = record@;
                assert(draft.generations[i as int] == standby);
                record.lifecycle = ControlLifecycle::Active;
                record.activation_direction = ActivationDirection::Rollback;
                let digest = record.generation_spec_digest.clone();
                recovery.next.active_generation_spec_digest = Some(digest);
                recovery.next.routing_epoch = recovery.next.routing_epoch + 1;
                let ghost routed = recovery.next@;
                recovery.next.generations.set(i, record);
                proof {
                    routed.replaced(i as int, record@);
                    assert(recovery.next@.generations =~= routed.generations.update(i as int, record@));
                    assert(recovery.next@ == routed.with_record(record@));
                    assert(first_substitute(draft, self.failed_active()->Some_0.0, self.slots(), self.now(), i as int));
                    assert forall|other: Seq<char>| #[trigger] self.slots.map().dom().contains(other) implies recovery.next@.has(other) && live(
                        recovery.next@.record(other).lifecycle,
                    ) by {
                        assert(draft.has(other));
                        assert(routed.has(other) && routed.record(other) == draft.record(other));
                        routed.found(i as int);
                        routed.lookup(record@, other);
                    }
                }
            },
            None => {},
        }
        let ghost planned = recovery.next@;
        proof {
            assert(settled(draft, self.failed_active(), self.slots(), self.now(), Ok(planned)));
        }
        let mut store = recovery.store;
        let revision = recovery.state.revision;
        match store.compare_and_swap(recovery.app_id.as_str(), revision, recovery.next) {
            Ok(state) => {
                let supervisor = DurableGenerationSupervisor { app_id: recovery.app_id, store, state, slots: recovery.slots };
                proof {
                    assert(state@.generations == planned.generations);
                    assert forall|other: Seq<char>| #[trigger] supervisor.slots.map().dom().contains(other) implies supervisor.state@.has(other)
                        && live(supervisor.state@.record(other).lifecycle) by {
                        assert(self.slots.map().dom().contains(other));
                        assert(planned.has(other));
                        assert(supervisor.state@.position(other) == planned.position(other));
                    }
                    assert forall|digest: Seq<char>| #[trigger] supervisor.current().has(digest) && supervisor.current().record(digest).lifecycle
                        != ControlLifecycle::Retired implies supervisor.slots().dom().contains(digest) by {
                        self.a_recovered_host_holds_what_is_live(planned, supervisor.state@.position(digest));
                    }
                }
                Ok(supervisor)
            },
            Err(error) => {
                let left = leftovers(&recovery.state, recovery.slots);
                assert(attempted(self.backend(), store, self.app(), self.fence(), Ok(planned), self.fence(), Some(error@)));
                Err((error, left))
            },
        }
    }

    /// A recovered Host holds the resources of every Generation that it leaves in service, and of no
    /// other. What was interrupted before the recovery (Staged, Ready or Draining) and was not staged
    /// again on purpose is retired as cleaned up. The Generation that holds the route is staged, or it
    /// failed to be and gave the route up. A standby is staged or failed to be while its window is open,
    /// and only then; it may have taken the route.
    pub proof fn a_recovered_host_holds_what_is_live(self, next: StateView, i: int)
        requires
            self.inv(),
            self.progress() == self.draft().generations.len(),
            settled(self.draft(), self.failed_active(), self.slots(), self.now(), Ok(next)),
            0 <= i < self.fence().generations.len(),
        ensures
            next.generations.len() == self.fence().generations.len(),
            next.supervisor_epoch == self.fence().supervisor_epoch,
            ({
                let old = self.fence().generations[i];
                let new = next.generations[i];
                let held = self.slots().dom().contains(new.generation_spec_digest);
                let unstaged = new.retirement_reason == Some(RetirementReason::StagingFailed) && new.health == ControlHealth::Failed;
                &&& new.generation_spec_digest == old.generation_spec_digest
                &&& new.lifecycle != ControlLifecycle::Retired <==> held
                &&& old.lifecycle == ControlLifecycle::Retired ==> new == old
                &&& (old.lifecycle == ControlLifecycle::Staged || old.lifecycle == ControlLifecycle::Ready || old.lifecycle
                    == ControlLifecycle::Draining) && !held && !unstaged ==> new.lifecycle == ControlLifecycle::Retired && new.retirement_reason
                    == Some(RetirementReason::RecoveryCleanup)
                &&& old.lifecycle == ControlLifecycle::Active && held ==> new == old && next.active_generation_spec_digest == Some(
                    old.generation_spec_digest,
                ) && next.routing_epoch == self.fence().routing_epoch
                &&& old.lifecycle == ControlLifecycle::Active && !held ==> unstaged && next.active_generation_spec_digest != Some(
                    old.generation_spec_digest,
                )
                &&& old.lifecycle == ControlLifecycle::Standby && held ==> new == old || (new.lifecycle == ControlLifecycle::Active
                    && new.activation_direction == ActivationDirection::Rollback && next.active_generation_spec_digest == Some(
                    old.generation_spec_digest,
                ) && next.routing_epoch == self.fence().routing_epoch + 1)
                &&& old.lifecycle == ControlLifecycle::Standby && !held && !unstaged ==> new.retirement_reason == Some(
                    RetirementReason::RollbackWindowExpired,
                ) && parsed(old.rollback_deadline_unix_nanos->Some_0, u128::MAX as nat) is Some && parsed(
                    old.rollback_deadline_unix_nanos->Some_0,
                    u128::MAX as nat,
                )->Some_0 <= self.now()
                &&& next.active_generation_spec_digest == Some(new.generation_spec_digest) ==> held && new.lifecycle == ControlLifecycle::Active
            }),
    {
        let draft = self.next@;
        let fence = self.state@;
        fence.found(i);
        draft.found(i);
        assert(came_to(fence.generations[i], draft.generations[i], self.slots.map().dom().contains(draft.generations[i].generation_spec_digest), self.now_unix_nanos));
        if next != draft {
            let k = choose|k: int|
                #[trigger] first_substitute(draft, self.failed_active()->Some_0.0, self.slots(), self.now(), k) && Ok::<StateView, Seq<char>>(next) == (if draft.routing_epoch
                    == u64::MAX {
                    Err("Routing Epoch exhausted"@)
                } else {
                    Ok(
                        StateView {
                            active_generation_spec_digest: Some(draft.generations[k].generation_spec_digest),
                            routing_epoch: (draft.routing_epoch + 1) as u64,
                            ..draft
                        }.with_record(
                            RecordView {
                                lifecycle: ControlLifecycle::Active,
                                activation_direction: ActivationDirection::Rollback,
                                ..draft.generations[k]
                            },
                        ),
                    )
                });
            let routed = StateView {
                active_generation_spec_digest: Some(draft.generations[k].generation_spec_digest),
                routing_epoch: (draft.routing_epoch + 1) as u64,
                ..draft
            };
            assert(routed.unique());
            routed.replaced(
                k,
                RecordView { lifecycle: ControlLifecycle::Active, activation_direction: ActivationDirection::Rollback, ..draft.generations[k] },
            );
            assert(came_to(fence.generations[k], draft.generations[k], self.slots.map().dom().contains(draft.generations[k].generation_spec_digest), self.now_unix_nanos));
            draft.found(k);
        }
    }

    /// Settling the next record by itself leaves the earlier ones as they came out.
    proof fn rewalked(self, before: Self)
        requires
            before.inv(),
            self.index == before.index + 1,
            self.index <= self.next@.generations.len(),
            self.state == before.state,
            self.now_unix_nanos == before.now_unix_nanos,
            self.next@.generations.len() == before.next@.generations.len(),
            forall|i: int| 0 <= i < self.next@.generations.len() && i != before.index ==> #[trigger] self.next@.generations[i]
                == before.next@.generations[i],
            forall|digest: Seq<char>| before.slots.map().dom().contains(digest) ==> #[trigger] self.slots.map().dom().contains(digest),
            came_to(
                self.state@.generations[before.index as int],
                self.next@.generations[before.index as int],
                self.slots.map().dom().contains(self.next@.generations[before.index as int].generation_spec_digest),
                self.now_unix_nanos,
            ),
        ensures
            forall|i: int| 0 <= i < self.index ==> came_to(
                self.state@.generations[i],
                #[trigger] self.next@.generations[i],
                self.slots.map().dom().contains(self.next@.generations[i].generation_spec_digest),
                self.now_unix_nanos,
            ),
            forall|i: int| self.index <= i < self.next@.generations.len() ==> #[trigger] self.next@.generations[i] == self.state@.generations[i],
    {
        assert forall|i: int| 0 <= i < self.index implies came_to(
            self.state@.generations[i],
            #[trigger] self.next@.generations[i],
            self.slots.map().dom().contains(self.next@.generations[i].generation_spec_digest),
            self.now_unix_nanos,
        ) by {
            if i < before.index {
                assert(self.next@.generations[i] == before.next@.generations[i]);
            }
        }
        assert forall|i: int| self.index <= i < self.next@.generations.len() implies #[trigger] self.next@.generations[i]
            == self.state@.generations[i] by {
            assert(self.next@.generations[i] == before.next@.generations[i]);
        }
    }

    /// The draft as `step` states it.
    proof fn draft_form(self, before: StateView, start: int, app: Seq<char>, authorities: Authorities, now: u128)
        requires
            0 <= start <= self.index <= before.generations.len(),
            self.next@ == (StateView { generations: self.next@.generations, ..before }),
            self.next@.generations.len() == before.generations.len(),
            forall|i: int| start <= i < self.index ==> #[trigger] self.next@.generations[i] == passed_record(
                before.generations[i],
                fate(before.generations[i], app, authorities, now),
            ),
            forall|i: int| 0 <= i < before.generations.len() && !(start <= i < self.index) ==> #[trigger] self.next@.generations[i]
                == before.generations[i],
        ensures
            self.next@.generations == Seq::new(
                before.generations.len(),
                |i: int|
                    if start <= i < self.index {
                        passed_record(before.generations[i], fate(before.generations[i], app, authorities, now))
                    } else {
                        before.generations[i]
                    },
            ),
    {
        assert(self.next@.generations =~= Seq::new(
            before.generations.len(),
            |i: int|
                if start <= i < self.index {
                    passed_record(before.generations[i], fate(before.generations[i], app, authorities, now))
                } else {
                    before.generations[i]
                },
        ));
    }
}

/// Checks that the supplied authority is exactly about a record.
fn check_authority(app_id: &str, record: &GenerationControlRecord, authorities: &Authorities) -> (r: Result<(), ControlPlaneError>)
    requires
        authorities.wf(),
    ensures
        ({
            let digest = record@.generation_spec_digest;
            if !authorities.has(digest) {
                r matches Err(error) && error@ == rejection("recovery lacks exact Generation `"@ + digest + "` authority"@)
            } else if authorities.at(digest).digest() != digest || authorities.at(digest).spec.typed().app_id@ != app_id@ {
                r matches Err(error) && error@ == rejection("recovery Generation authority digest or App mismatch"@)
            } else {
                r is Ok
            }
        }),
{
    match authorities.get(record.generation_spec_digest.as_str()) {
        Some(generation) => {
            if !text::same(generation.spec.digest(), record.generation_spec_digest.as_str()) || !text::same(
                generation.spec.value().app_id.as_str(),
                app_id,
            ) {
                return Err(rejected("recovery Generation authority digest or App mismatch"));
            }
            Ok(())
        },
        None => Err(
            rejected_about("recovery lacks exact Generation `", record.generation_spec_digest.as_str(), "` authority"),
        ),
    }
}

/// The resources of a recovery, each with the time that releasing it may take.
fn leftovers<H>(state: &DurableControlState, slots: TextMap<LiveSlot<H>>) -> (r: Vec<Leftover<H>>)
    requires
        slots.wf(),
        state@.unique(),
    ensures
        left_over(state@, slots.entries(), r@),
{
    let ghost order = slots.entries();
    let mut slots = slots;
    let total: usize = slots.len();
    let mut r: Vec<Leftover<H>> = Vec::new();
    while r.len() < total
        invariant
            slots.wf(),
            state@.unique(),
            order.len() == total,
            r@.len() <= total,
            slots.entries() == order.skip(r@.len() as int),
            forall|k: int| 0 <= k < r@.len() ==> (#[trigger] r@[k]).handle == order[k].1.handle && r@[k].drain_timeout_nanos == leftover_timeout(
                state@,
                order[k].0,
            ),
        decreases total - r.len(),
    {
        let ghost n = r@.len() as int;
        let ghost before = slots;
        let digest = slots.key_at(0).to_owned();
        proof {
            before.unique_position(0);
        }
        let slot = slots.remove(digest.as_str()).unwrap();
        let timeout: u64 = match state.find(digest.as_str()) {
            Some(i) => match text::parse_u64(state.generations[i].drain_timeout_nanos.as_str()) {
                Some(timeout) => timeout,
                None => 0,
            },
            None => 0,
        };
        r.push(Leftover { handle: slot.handle, drain_timeout_nanos: timeout });
        proof {
            assert(before.entries().remove(0) =~= order.skip(n + 1));
        }
    }
    r
}

} // verus!
