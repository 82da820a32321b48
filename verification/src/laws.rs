//! Laws of the durable control state that hold across operations.
pub mod authoring;
pub mod authority;
pub mod bundle;
pub mod configuration;
pub mod distribution;
pub mod documents;
pub mod dylib;
pub mod maintenance;
pub mod native;
pub mod rollback;
pub mod states;
pub mod transition;

use vstd::prelude::*;

use crate::canonical::CanonicalDocument;
use crate::durable::{ControlHealth, ControlLifecycle, ControlStateStore, RecordView, RetirementReason, StateView};
use crate::durable_supervisor::retirement::{drained_decision, maintenance_decision, Decision};
use crate::durable_supervisor::{
    lease_fault, staging_settled, transition_begun, LiveSlot, PendingTransition, StagedOutcome, Timing, TransitionStep,
};
use crate::error::ControlPlaneError;
use crate::generation::ResolvedGeneration;
use crate::lifecycle::{
    activated, draining_record, fenced_active, host_replaced, live, opened, reactivated_record, recovery_begun,
    required_rollback_deadline, rolled_back, shutdown_begun, shutdown_settles_each, OverlapTerms,
};
use crate::model::AppGenerationTransitionSpec;

verus! {

/// Every operation that changes the route moves to a later Routing Epoch.
pub proof fn route_changes_advance_the_epoch(state: StateView, next: StateView, digest: Seq<char>, overlap: Option<(Seq<char>, OverlapTerms)>, now: u128, automatic: bool)
    requires
        ({
            ||| activated(state, digest, overlap) == Ok::<StateView, Seq<char>>(next)
            ||| rolled_back(state, digest, now, automatic) == Ok::<StateView, Seq<char>>(next)
            ||| fenced_active(state, digest, now) == Ok::<StateView, Seq<char>>(next)
            ||| recovery_begun(state) == Ok::<StateView, Seq<char>>(next)
            ||| shutdown_begun(state, now) == Ok::<StateView, Seq<char>>(next) && state.active_generation_spec_digest is Some
            ||| host_replaced(state) == Ok::<StateView, Seq<char>>(next) && state.active_generation_spec_digest is Some
        }),
    ensures
        next.routing_epoch == state.routing_epoch + 1,
{
}

/// Opening, recovering and replacing a Host each take a later Supervisor epoch and clear the
/// suspension.
pub proof fn takeover_fences_the_previous_supervisor(state: StateView, next: StateView)
    requires
        ({
            ||| opened(state) == Ok::<StateView, Seq<char>>(next)
            ||| host_replaced(state) == Ok::<StateView, Seq<char>>(next)
            ||| recovery_begun(state) == Ok::<StateView, Seq<char>>(next)
        }),
    ensures
        next.supervisor_epoch == state.supervisor_epoch + 1,
        !next.host_suspended,
{
}

/// A Supervisor admits no route once another one took over: the epochs differ.
pub proof fn fenced_supervisor_admits_no_route<H>(current: StateView, slots: Map<Seq<char>, LiveSlot<H>>, durable: StateView, routing_epoch: u64)
    requires
        durable.supervisor_epoch != current.supervisor_epoch,
    ensures
        lease_fault(current, slots, durable, routing_epoch) is Some,
{
}

/// A route is admitted only under the current Routing Epoch, to the active Generation.
pub proof fn admitted_route_is_current<H>(current: StateView, slots: Map<Seq<char>, LiveSlot<H>>, durable: StateView, routing_epoch: u64)
    requires
        lease_fault(current, slots, durable, routing_epoch) is None,
    ensures
        routing_epoch == current.routing_epoch,
        durable.routing_epoch == current.routing_epoch,
        durable.revision == current.revision,
        current.active_generation_spec_digest matches Some(digest) && slots.dom().contains(digest),
{
}

/// Enrolling a candidate moves no route: what was active stays active, under the same epochs.
pub proof fn enrolment_keeps_the_route<H, S: ControlStateStore>(
    store: S,
    store_after: S,
    app: Seq<char>,
    before: StateView,
    slots: Map<Seq<char>, LiveSlot<H>>,
    transition: CanonicalDocument<AppGenerationTransitionSpec>,
    candidate: ResolvedGeneration,
    timing: Timing,
    after: StateView,
    slots_after: Map<Seq<char>, LiveSlot<H>>,
    r: Result<(PendingTransition, TransitionStep<H>), ControlPlaneError>,
)
    requires
        transition_begun(store, store_after, app, before, slots, transition, candidate, timing, after, slots_after, r),
    ensures
        after.active_generation_spec_digest == before.active_generation_spec_digest,
        after.routing_epoch == before.routing_epoch,
        after.supervisor_epoch == before.supervisor_epoch,
{
}

/// A staged candidate takes the route, under the next epoch and with a live slot, only when it is
/// activated; whatever else comes of staging leaves the route and the live slots as they were.
pub proof fn only_activation_moves_the_route<H, S: ControlStateStore>(
    store: S,
    store_after: S,
    app: Seq<char>,
    before: StateView,
    slots: Map<Seq<char>, LiveSlot<H>>,
    pending: PendingTransition,
    staged: Result<H, ControlPlaneError>,
    after: StateView,
    slots_after: Map<Seq<char>, LiveSlot<H>>,
    outcome: StagedOutcome<H>,
)
    requires
        staging_settled(store, store_after, app, before, slots, pending, staged, after, slots_after, outcome),
    ensures
        after.supervisor_epoch == before.supervisor_epoch,
        if outcome is Activated {
            &&& staged is Ok
            &&& after.active_generation_spec_digest == Some(pending.stages())
            &&& after.routing_epoch == before.routing_epoch + 1
            &&& slots_after.dom().contains(pending.stages())
        } else {
            &&& after.active_generation_spec_digest == before.active_generation_spec_digest
            &&& after.routing_epoch == before.routing_epoch
            &&& slots_after == slots
        },
{
}

/// Switching the route to a candidate keeps the state valid.
pub proof fn activation_keeps_the_state_valid(state: StateView, app: Seq<char>, candidate: Seq<char>, overlap: Option<(Seq<char>, OverlapTerms)>)
    requires
        state.valid(app),
        activated(state, candidate, overlap) is Ok,
        match overlap {
            Some((previous, _)) => state.active_generation_spec_digest == Some(previous) && previous != candidate,
            None => state.active_generation_spec_digest is None,
        },
    ensures
        activated(state, candidate, overlap)->Ok_0.valid(app),
        activated(state, candidate, overlap)->Ok_0.active_generation_spec_digest == Some(candidate),
{
    let next = activated(state, candidate, overlap)->Ok_0;
    let routed = StateView {
        routing_epoch: (state.routing_epoch + 1) as u64,
        active_generation_spec_digest: Some(candidate),
        ..state
    };
    assert(routed.has(candidate));
    let one = RecordView { lifecycle: ControlLifecycle::Active, ..state.record(candidate) };
    let mid = routed.with_record(one);
    routed.lookup(one, candidate);
    match overlap {
        Some((previous, terms)) => {
            let two = crate::lifecycle::overlapped_record(mid.record(previous), terms);
            routed.lookup(one, previous);
            mid.lookup(two, candidate);
            assert forall|i: int| 0 <= i < next.generations.len() && (#[trigger] next.generations[i]).lifecycle == ControlLifecycle::Active implies next.active_generation_spec_digest
                == Some(next.generations[i].generation_spec_digest) by {
                next.found(i);
                let d = next.generations[i].generation_spec_digest;
                mid.lookup(two, d);
                assert(mid.has(d));
                routed.lookup(one, d);
                assert(routed.has(d));
                if d != candidate && d != previous {
                    assert(state.record(d).lifecycle == ControlLifecycle::Active);
                    let p = state.position(d);
                    assert(state.generations[p].lifecycle == ControlLifecycle::Active);
                }
            }
        },
        None => {
            assert forall|i: int| 0 <= i < next.generations.len() && (#[trigger] next.generations[i]).lifecycle == ControlLifecycle::Active implies next.active_generation_spec_digest
                == Some(next.generations[i].generation_spec_digest) by {
                next.found(i);
                let d = next.generations[i].generation_spec_digest;
                routed.lookup(one, d);
                assert(routed.has(d));
                if d != candidate {
                    let p = state.position(d);
                    assert(state.generations[p].lifecycle == ControlLifecycle::Active);
                }
            }
        },
    }
}

/// A rollback keeps the state valid and moves the route to the target.
pub proof fn rollback_keeps_the_state_valid(state: StateView, app: Seq<char>, standby: Seq<char>, now: u128, automatic: bool)
    requires
        state.valid(app),
        rolled_back(state, standby, now, automatic) is Ok,
    ensures
        rolled_back(state, standby, now, automatic)->Ok_0.valid(app),
        rolled_back(state, standby, now, automatic)->Ok_0.active_generation_spec_digest == Some(standby),
{
    let next = rolled_back(state, standby, now, automatic)->Ok_0;
    let failed = state.active_generation_spec_digest->Some_0;
    let routed = StateView {
        routing_epoch: (state.routing_epoch + 1) as u64,
        active_generation_spec_digest: Some(standby),
        ..state
    };
    assert(routed.has(standby) && routed.has(failed));
    let one = reactivated_record(state.record(standby));
    let mid = routed.with_record(one);
    let until = crate::lifecycle::drain_deadline_from(state.record(failed), now)->Ok_0;
    let two = draining_record(state.record(failed), until);
    routed.lookup(one, standby);
    routed.lookup(one, failed);
    assert(mid.has(failed));
    mid.lookup(two, standby);
    assert(standby != failed);
    assert forall|i: int| 0 <= i < next.generations.len() && (#[trigger] next.generations[i]).lifecycle == ControlLifecycle::Active implies next.active_generation_spec_digest
        == Some(next.generations[i].generation_spec_digest) by {
        next.found(i);
        let d = next.generations[i].generation_spec_digest;
        mid.lookup(two, d);
        assert(mid.has(d));
        routed.lookup(one, d);
        assert(routed.has(d));
        if d != standby && d != failed {
            let p = state.position(d);
            assert(state.generations[p].lifecycle == ControlLifecycle::Active);
        }
    }
}

/// A rollback leads only to a retained predecessor of the same transition, inside its window.
pub proof fn rollback_is_restricted(state: StateView, app: Seq<char>, standby: Seq<char>, now: u128, automatic: bool)
    requires
        state.valid(app),
        rolled_back(state, standby, now, automatic) is Ok,
    ensures
        state.has(standby),
        state.record(standby).lifecycle == ControlLifecycle::Draining || state.record(standby).lifecycle == ControlLifecycle::Standby,
        required_rollback_deadline(state.record(standby)) matches Ok(moment) && moment > now,
        state.active_generation_spec_digest matches Some(active) && state.record(active).transition_spec_digest == state.record(
            standby,
        ).transition_spec_digest && (automatic ==> state.record(active).health == ControlHealth::Failed),
{
}

/// Fencing a failed active Generation keeps the state valid and leaves no route.
pub proof fn fence_keeps_the_state_valid(state: StateView, app: Seq<char>, digest: Seq<char>, now: u128)
    requires
        state.valid(app),
        fenced_active(state, digest, now) is Ok,
    ensures
        fenced_active(state, digest, now)->Ok_0.valid(app),
        fenced_active(state, digest, now)->Ok_0.active_generation_spec_digest is None,
{
    let next = fenced_active(state, digest, now)->Ok_0;
    let routed = StateView {
        routing_epoch: (state.routing_epoch + 1) as u64,
        active_generation_spec_digest: None,
        ..state
    };
    assert(routed.has(digest));
    let until = crate::lifecycle::drain_deadline_from(state.record(digest), now)->Ok_0;
    let one = draining_record(state.record(digest), until);
    routed.lookup(one, digest);
    assert forall|i: int| 0 <= i < next.generations.len() && (#[trigger] next.generations[i]).lifecycle == ControlLifecycle::Active implies next.active_generation_spec_digest
        == Some(next.generations[i].generation_spec_digest) by {
        next.found(i);
        let d = next.generations[i].generation_spec_digest;
        routed.lookup(one, d);
        assert(routed.has(d));
        if d != digest {
            let p = state.position(d);
            assert(state.generations[p].lifecycle == ControlLifecycle::Active);
        }
    }
}

/// A shutdown keeps the state valid, leaves no route, and leaves every Generation with resources
/// draining with no way back to standby.
pub proof fn shutdown_never_returns_to_standby(state: StateView, app: Seq<char>, now: u128, i: int, later: u128)
    requires
        state.valid(app),
        shutdown_begun(state, now) is Ok,
        0 <= i < state.generations.len(),
    ensures
        ({
            let next = shutdown_begun(state, now)->Ok_0;
            &&& next.valid(app)
            &&& next.active_generation_spec_digest is None
            &&& next.generations.len() == state.generations.len()
            &&& next.generations[i].generation_spec_digest == state.generations[i].generation_spec_digest
            &&& next.generations[i].lifecycle != ControlLifecycle::Active
            &&& next.generations[i].lifecycle != ControlLifecycle::Standby
            &&& next.generations[i].lifecycle == ControlLifecycle::Draining ==> {
                &&& next.generations[i].retirement_reason == Some(RetirementReason::SupervisorShutdown)
                &&& !(drained_decision(next.generations[i], later) matches Ok(Decision::StandBy))
                &&& !(maintenance_decision(next.generations[i], Some(0), later) matches Ok(Decision::StandBy))
            }
        }),
{
    let next = shutdown_begun(state, now)->Ok_0;
    shutdown_settles_each(state.generations, now, i);
    assert forall|a: int, b: int| 0 <= a < b < next.generations.len() implies (#[trigger] next.generations[a]).generation_spec_digest
        != (#[trigger] next.generations[b]).generation_spec_digest by {
        shutdown_settles_each(state.generations, now, a);
        shutdown_settles_each(state.generations, now, b);
        assert(state.generations[a].generation_spec_digest != state.generations[b].generation_spec_digest);
    }
    assert forall|k: int| 0 <= k < next.generations.len() implies (#[trigger] next.generations[k]).lifecycle != ControlLifecycle::Active by {
        shutdown_settles_each(state.generations, now, k);
    }
}

/// A Generation without leases never retires because its drain deadline passed, and one with
/// leases retires only for that reason or for a terminal failure.
pub proof fn leases_hold_off_retirement(record: RecordView, leases: usize, now: u128, reason: RetirementReason)
    requires
        record.lifecycle == ControlLifecycle::Draining,
        leases > 0,
        maintenance_decision(record, Some(leases), now) == Ok::<Decision, Seq<char>>(Decision::Retire(reason)),
    ensures
        reason == RetirementReason::DrainDeadlineExceeded || (reason == RetirementReason::TerminalFailure && record.health
            == ControlHealth::Failed),
        record.health == ControlHealth::Healthy ==> (crate::lifecycle::required_drain_deadline(record) matches Ok(moment) && moment <= now),
{
}

/// A committed state has the revision after the one it was committed over.
pub proof fn commits_advance_the_revision(state: StateView, expected: u64)
    requires
        expected < u64::MAX,
    ensures
        state.committed(expected).revision == expected + 1,
{
}

/// Of two swaps against the same revision, the second is fenced.
pub proof fn second_swap_is_fenced(current: StateView, app: Seq<char>, expected: u64, first: StateView, second: StateView)
    requires
        crate::durable::swapped(current, app, expected, first) is Ok,
    ensures
        crate::durable::swapped(crate::durable::swapped(current, app, expected, first)->Ok_0, app, expected, second) is Err,
{
}

/// A Host replacement retires every Generation of the suspended Host and leaves a valid state.
pub proof fn host_replacement_retires_everything(state: StateView, app: Seq<char>, i: int)
    requires
        state.valid(app),
        host_replaced(state) is Ok,
        0 <= i < state.generations.len(),
    ensures
        ({
            let next = host_replaced(state)->Ok_0;
            &&& next.valid(app)
            &&& next.active_generation_spec_digest is None
            &&& next.generations.len() == state.generations.len()
            &&& !live(next.generations[i].lifecycle)
            &&& live(state.generations[i].lifecycle) ==> next.generations[i].retirement_reason == Some(RetirementReason::HostBuildReplaced)
        }),
{
    let next = host_replaced(state)->Ok_0;
    assert forall|a: int, b: int| 0 <= a < b < next.generations.len() implies (#[trigger] next.generations[a]).generation_spec_digest
        != (#[trigger] next.generations[b]).generation_spec_digest by {
        assert(state.generations[a].generation_spec_digest != state.generations[b].generation_spec_digest);
    }
}

} // verus!
