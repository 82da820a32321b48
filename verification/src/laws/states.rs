//! Laws of the control state: what each operation changes in it, and what it keeps.
use vstd::prelude::*;

use crate::durable::{ActivationDirection, ControlHealth, ControlLifecycle, ControlStateStore, RecordView, RetirementReason, StateView};
use crate::durable_supervisor::retirement::reconciled;
use crate::durable_supervisor::{
    attempted, failure_handled, first_target, leased, no_target, released, DurableGenerationLease, DurableTransitionOutcome,
    GenerationFailureOutcome, LiveSlot,
};
use crate::error::ControlPlaneError;
use crate::lifecycle::{
    any_live, draining_record, fenced_active, host_replaced, host_replaced_record, opened, reactivated_record, recovery_begun, rolled_back,
    shutdown_begun, shutdown_settles_each, suspended,
};
use crate::text::{opt_text, parsed, printed_number_reads_back};

verus! {

/// The moment that a text names is later than `now`.
pub open spec fn names_later(text: Option<Seq<char>>, now: u128) -> bool {
    text is Some && parsed(text->Some_0, u128::MAX as nat) is Some && parsed(text->Some_0, u128::MAX as nat)->Some_0 > now
}

/// A rollback is possible exactly to a predecessor that drains or stands by, that the transition of the
/// active Generation left behind, while its window is open; an automatic one also needs the failure of
/// the active Generation. It swaps the two: the predecessor is active again and the other one drains
/// from now on for its drain timeout. No other record changes.
pub proof fn a_rollback_swaps_the_two_ends(
    state: StateView,
    app: Seq<char>,
    standby: Seq<char>,
    active: Seq<char>,
    now: u128,
    automatic: bool,
    drain: nat,
    other: Seq<char>,
)
    requires
        state.valid(app),
        state.active_generation_spec_digest == Some(active),
        parsed(state.record(active).drain_timeout_nanos, u64::MAX as nat) == Some(drain),
    ensures
        rolled_back(state, standby, now, automatic) is Ok <==> {
            &&& state.has(standby)
            &&& state.record(standby).lifecycle == ControlLifecycle::Draining || state.record(standby).lifecycle == ControlLifecycle::Standby
            &&& names_later(state.record(standby).rollback_deadline_unix_nanos, now)
            &&& state.record(standby).transition_spec_digest == state.record(active).transition_spec_digest
            &&& automatic ==> state.record(active).health == ControlHealth::Failed
            &&& now + drain <= u128::MAX
            &&& state.routing_epoch < u64::MAX
        },
        rolled_back(state, standby, now, automatic) matches Ok(next) ==> {
            &&& standby != active
            &&& next.active_generation_spec_digest == Some(standby)
            &&& next.routing_epoch == state.routing_epoch + 1
            &&& next.supervisor_epoch == state.supervisor_epoch
            &&& next.has(standby) && next.has(active)
            &&& next.record(standby) == (RecordView {
                lifecycle: ControlLifecycle::Active,
                activation_direction: ActivationDirection::Rollback,
                drain_deadline_unix_nanos: None,
                ..state.record(standby)
            })
            &&& next.record(active).lifecycle == ControlLifecycle::Draining
            &&& next.record(active).drain_deadline_unix_nanos is Some
            &&& parsed(next.record(active).drain_deadline_unix_nanos->Some_0, u128::MAX as nat) == Some((now + drain) as nat)
            &&& next.record(active).health == state.record(active).health
            &&& next.record(active).rollback_deadline_unix_nanos == state.record(active).rollback_deadline_unix_nanos
            &&& next.record(active).transition_spec_digest == state.record(active).transition_spec_digest
            &&& state.has(other) && other != standby && other != active ==> next.has(other) && next.record(other) == state.record(other)
        },
{
    if rolled_back(state, standby, now, automatic) is Ok {
        printed_number_reads_back((now + drain) as nat, u128::MAX as nat);
        let routed = StateView {
            routing_epoch: (state.routing_epoch + 1) as u64,
            active_generation_spec_digest: Some(standby),
            ..state
        };
        assert(routed.unique() && routed.has(standby) && routed.has(active));
        assert(routed.record(standby) == state.record(standby) && routed.record(active) == state.record(active));
        if state.has(other) {
            assert(routed.has(other) && routed.record(other) == state.record(other));
        }
        let one = reactivated_record(state.record(standby));
        let mid = routed.with_record(one);
        routed.lookup(one, standby);
        routed.lookup(one, active);
        routed.lookup(one, other);
        let until = crate::lifecycle::drain_deadline_from(state.record(active), now)->Ok_0;
        let two = draining_record(state.record(active), until);
        mid.lookup(two, standby);
        mid.lookup(two, active);
        mid.lookup(two, other);
    }
}

/// Fencing takes the route from the failed Generation and gives it to none: the Generation drains from
/// now on for its drain timeout. No other record changes.
pub proof fn a_fence_leaves_no_route(state: StateView, digest: Seq<char>, now: u128, drain: nat, other: Seq<char>)
    requires
        state.unique(),
        state.has(digest),
        parsed(state.record(digest).drain_timeout_nanos, u64::MAX as nat) == Some(drain),
    ensures
        fenced_active(state, digest, now) is Ok <==> state.active_generation_spec_digest == Some(digest) && now + drain <= u128::MAX
            && state.routing_epoch < u64::MAX,
        fenced_active(state, digest, now) matches Ok(next) ==> {
            &&& next.active_generation_spec_digest is None
            &&& next.routing_epoch == state.routing_epoch + 1
            &&& next.supervisor_epoch == state.supervisor_epoch
            &&& next.has(digest)
            &&& next.record(digest).lifecycle == ControlLifecycle::Draining
            &&& next.record(digest).drain_deadline_unix_nanos is Some
            &&& parsed(next.record(digest).drain_deadline_unix_nanos->Some_0, u128::MAX as nat) == Some((now + drain) as nat)
            &&& next.record(digest).health == state.record(digest).health
            &&& state.has(other) && other != digest ==> next.has(other) && next.record(other) == state.record(other)
        },
{
    if fenced_active(state, digest, now) is Ok {
        printed_number_reads_back((now + drain) as nat, u128::MAX as nat);
        let routed = StateView {
            routing_epoch: (state.routing_epoch + 1) as u64,
            active_generation_spec_digest: None,
            ..state
        };
        assert(routed.unique() && routed.has(digest) && routed.record(digest) == state.record(digest));
        if state.has(other) {
            assert(routed.has(other) && routed.record(other) == state.record(other));
        }
        let until = crate::lifecycle::drain_deadline_from(state.record(digest), now)->Ok_0;
        let one = draining_record(state.record(digest), until);
        routed.lookup(one, digest);
        routed.lookup(one, other);
    }
}

/// The record at `i` is one that the failure of a transition's candidate may return to.
pub open spec fn may_return_to(state: StateView, transition: Seq<char>, now: u128, i: int) -> bool {
    &&& 0 <= i < state.generations.len()
    &&& state.generations[i].lifecycle == ControlLifecycle::Draining || state.generations[i].lifecycle == ControlLifecycle::Standby
    &&& state.generations[i].health == ControlHealth::Healthy
    &&& state.generations[i].transition_spec_digest == transition
    &&& names_later(state.generations[i].rollback_deadline_unix_nanos, now)
}

/// An active Generation that failed for good loses the route. Where its transition authorizes automatic
/// rollback and a healthy predecessor is retained inside its window, the first such predecessor takes
/// the route and the outcome says so; otherwise nothing is routed to. Either way the failed one drains.
pub proof fn a_failed_active_generation_loses_the_route<S: ControlStateStore>(
    store: S,
    store_after: S,
    app: Seq<char>,
    failed: StateView,
    digest: Seq<char>,
    before: RecordView,
    now: u128,
    after: StateView,
    r: Result<Option<DurableTransitionOutcome>, ControlPlaneError>,
    drain: nat,
    k: int,
)
    requires
        failure_handled(store, store_after, app, failed, digest, before, now, after, r),
        failed.valid(app),
        failed.active_generation_spec_digest == Some(digest),
        before.transition_spec_digest == failed.record(digest).transition_spec_digest,
        parsed(failed.record(digest).drain_timeout_nanos, u64::MAX as nat) == Some(drain),
        r is Ok,
    ensures
        after.active_generation_spec_digest != Some(digest),
        after.routing_epoch == failed.routing_epoch + 1,
        after.has(digest) && after.record(digest).lifecycle == ControlLifecycle::Draining,
        after.active_generation_spec_digest is Some <==> r->Ok_0 is Some,
        before.automatic_rollback_on_generation_failure && may_return_to(failed, before.transition_spec_digest, now, k) ==> {
            &&& r->Ok_0 matches Some(switch) && {
                &&& after.active_generation_spec_digest == Some(switch.active_generation_spec_digest@)
                &&& switch.routing_epoch == after.routing_epoch
                &&& opt_text(switch.draining_generation_spec_digest) == Some(digest)
                &&& switch.activation_direction == ActivationDirection::Rollback
            }
        },
        after.active_generation_spec_digest matches Some(next) ==> {
            &&& before.automatic_rollback_on_generation_failure
            &&& failed.has(next)
            &&& may_return_to(failed, before.transition_spec_digest, now, failed.position(next))
            &&& may_return_to(failed, before.transition_spec_digest, now, k) ==> failed.position(next) <= k
            &&& after.record(next).lifecycle == ControlLifecycle::Active
            &&& after.record(next).activation_direction == ActivationDirection::Rollback
        },
{
    let transition = before.transition_spec_digest;
    if before.automatic_rollback_on_generation_failure && !no_target(failed, transition, now) {
        let i = choose|i: int| {
            &&& #[trigger] first_target(failed, transition, now, i)
            &&& attempted(
                store,
                store_after,
                app,
                failed,
                rolled_back(failed, failed.generations[i].generation_spec_digest, now, true),
                after,
                None,
            )
            &&& r matches Ok(outcome) ==> (outcome matches Some(switch) && crate::durable_supervisor::reported(
                switch,
                after,
                Some(digest),
                ActivationDirection::Rollback,
            ))
        };
        let target = failed.generations[i].generation_spec_digest;
        failed.found(i);
        a_rollback_swaps_the_two_ends(failed, app, target, digest, now, true, drain, digest);
        let next = rolled_back(failed, target, now, true)->Ok_0;
        let shown = next.committed(failed.revision);
        assert(shown.generations == next.generations);
        assert(shown.has(digest) && shown.record(digest) == next.record(digest) && shown.record(target) == next.record(target));
        assert(may_return_to(failed, transition, now, k) ==> i <= k) by {
            if may_return_to(failed, transition, now, k) && k < i {
                assert(!crate::durable_supervisor::rollback_target(failed.generations[k], transition, now));
            }
        }
    } else {
        a_fence_leaves_no_route(failed, digest, now, drain, digest);
        let next = fenced_active(failed, digest, now)->Ok_0;
        let shown = next.committed(failed.revision);
        assert(shown.generations == next.generations);
        assert(shown.has(digest) && shown.record(digest) == next.record(digest));
        if before.automatic_rollback_on_generation_failure && may_return_to(failed, transition, now, k) {
            assert(!crate::durable_supervisor::rollback_target(failed.generations[k], transition, now));
        }
    }
}

/// A failure of the active Generation is acted on once: while nothing is observed, nothing is routed to
/// or the failure is already recorded, nothing changes; a newly observed one takes the route away.
pub proof fn an_observed_failure_is_acted_on_once<S: ControlStateStore>(
    store: S,
    store_after: S,
    app: Seq<char>,
    before: StateView,
    observed: Option<ControlPlaneError>,
    now: u128,
    after: StateView,
    r: Result<Option<GenerationFailureOutcome>, ControlPlaneError>,
)
    requires
        reconciled(store, store_after, app, before, observed, now, after, r),
    ensures
        before.active_generation_spec_digest is None || observed is None || before.record(
            before.active_generation_spec_digest->Some_0,
        ).health == ControlHealth::Failed ==> store_after == store && after == before && r is Ok && r->Ok_0 is None,
        r matches Ok(Some(outcome)) ==> {
            &&& before.active_generation_spec_digest == Some(outcome.generation_spec_digest@)
            &&& observed == Some(outcome.failure)
            &&& before.record(outcome.generation_spec_digest@).health == ControlHealth::Healthy
        },
        before.active_generation_spec_digest is Some && observed is Some && before.record(
            before.active_generation_spec_digest->Some_0,
        ).health == ControlHealth::Healthy && r is Ok ==> r->Ok_0 is Some,
{
}

/// A shutdown takes the route from everybody, under the next Routing Epoch where there was one, and
/// leaves every Generation with resources draining for good, from now on for its drain timeout: its
/// window is closed. Records of Generations without resources in service stay.
pub proof fn a_shutdown_drains_everything(state: StateView, app: Seq<char>, now: u128, i: int)
    requires
        state.valid(app),
        shutdown_begun(state, now) is Ok,
        0 <= i < state.generations.len(),
    ensures
        ({
            let next = shutdown_begun(state, now)->Ok_0;
            let old = state.generations[i];
            let new = next.generations[i];
            let drain = parsed(old.drain_timeout_nanos, u64::MAX as nat);
            &&& next.active_generation_spec_digest is None
            &&& next.routing_epoch == state.routing_epoch + (if state.active_generation_spec_digest is Some { 1int } else { 0int })
            &&& next.supervisor_epoch == state.supervisor_epoch
            &&& next.generations.len() == state.generations.len()
            &&& new.generation_spec_digest == old.generation_spec_digest
            &&& new.health == old.health
            &&& old.lifecycle == ControlLifecycle::Active || old.lifecycle == ControlLifecycle::Draining || old.lifecycle == ControlLifecycle::Standby
                ==> {
                &&& new.lifecycle == ControlLifecycle::Draining
                &&& new.retirement_reason == Some(RetirementReason::SupervisorShutdown)
                &&& new.rollback_deadline_unix_nanos is None
                &&& drain is Some && new.drain_deadline_unix_nanos is Some
                &&& parsed(new.drain_deadline_unix_nanos->Some_0, u128::MAX as nat) == Some((now + drain->Some_0) as nat)
            }
            &&& old.lifecycle == ControlLifecycle::Staged || old.lifecycle == ControlLifecycle::Ready || old.lifecycle == ControlLifecycle::Retired
                ==> new == old
        }),
{
    shutdown_settles_each(state.generations, now, i);
    let old = state.generations[i];
    let drain = parsed(old.drain_timeout_nanos, u64::MAX as nat);
    if drain is Some && now + drain->Some_0 <= u128::MAX {
        printed_number_reads_back((now + drain->Some_0) as nat, u128::MAX as nat);
    }
}

/// A Host opens only over a state in which every Generation is retired, and changes nothing in it but
/// the authority.
pub proof fn a_host_opens_over_nothing_live(state: StateView, i: int)
    ensures
        opened(state) matches Ok(next) ==> {
            &&& 0 <= i < state.generations.len() ==> state.generations[i].lifecycle == ControlLifecycle::Retired
            &&& next.supervisor_epoch == state.supervisor_epoch + 1
            &&& !next.host_suspended
            &&& next.generations == state.generations
            &&& next.routing_epoch == state.routing_epoch
            &&& next.active_generation_spec_digest == state.active_generation_spec_digest
        },
        state.supervisor_epoch < u64::MAX && opened(state) is Err ==> exists|k: int| {
            &&& 0 <= k < state.generations.len()
            &&& (#[trigger] state.generations[k]).lifecycle != ControlLifecycle::Retired
        },
{
    if opened(state) is Ok && 0 <= i < state.generations.len() {
        assert(!any_live(state));
        assert(!crate::lifecycle::live(state.generations[i].lifecycle));
    }
}

/// A new Host build takes over only after a clean suspension. It restages nothing: every Generation that
/// was not retired retires as replaced with its build, and nothing is routed to.
pub proof fn a_replaced_host_restages_nothing(state: StateView, i: int)
    requires
        0 <= i < state.generations.len(),
    ensures
        host_replaced(state) is Ok ==> state.host_suspended,
        state.host_suspended && state.supervisor_epoch < u64::MAX && state.routing_epoch < u64::MAX ==> host_replaced(state) is Ok,
        host_replaced(state) matches Ok(next) ==> {
            let old = state.generations[i];
            let new = next.generations[i];
            &&& !next.host_suspended
            &&& next.supervisor_epoch == state.supervisor_epoch + 1
            &&& next.active_generation_spec_digest is None
            &&& next.routing_epoch == state.routing_epoch + (if state.active_generation_spec_digest is Some { 1int } else { 0int })
            &&& next.generations.len() == state.generations.len()
            &&& old.lifecycle == ControlLifecycle::Retired ==> new == old
            &&& old.lifecycle != ControlLifecycle::Retired ==> {
                &&& new.lifecycle == ControlLifecycle::Retired
                &&& new.retirement_reason == Some(RetirementReason::HostBuildReplaced)
                &&& new.drain_deadline_unix_nanos is None
                &&& new.generation_spec_digest == old.generation_spec_digest
                &&& new.health == old.health
            }
        },
{
    assert(host_replaced(state) matches Ok(next) ==> next.generations[i] == host_replaced_record(state.generations[i]));
}

/// A recovery begins by taking the authority and leaving every admitted route behind: both epochs move
/// on and no record changes. A clean suspension is remembered until then.
pub proof fn a_recovery_fences_everybody(state: StateView)
    ensures
        recovery_begun(state) is Ok <==> state.supervisor_epoch < u64::MAX && state.routing_epoch < u64::MAX,
        recovery_begun(state) matches Ok(next) ==> {
            &&& next.supervisor_epoch == state.supervisor_epoch + 1
            &&& next.routing_epoch == state.routing_epoch + 1
            &&& next.generations == state.generations
            &&& next.active_generation_spec_digest == state.active_generation_spec_digest
            &&& !next.host_suspended
        },
        suspended(state).host_suspended,
        suspended(state).generations == state.generations,
        suspended(state).supervisor_epoch == state.supervisor_epoch,
        suspended(state).routing_epoch == state.routing_epoch,
        suspended(state).active_generation_spec_digest == state.active_generation_spec_digest,
{
}

/// A lease is granted exactly while the store still holds what the Supervisor committed last, under the
/// Routing Epoch that the caller observed, and counts once against the Generation that holds the route.
pub proof fn a_lease_counts_once<H>(
    current: StateView,
    slots: Map<Seq<char>, LiveSlot<H>>,
    durable: StateView,
    routing_epoch: u64,
    slots_after: Map<Seq<char>, LiveSlot<H>>,
    r: Result<DurableGenerationLease, ControlPlaneError>,
    other: Seq<char>,
)
    requires
        leased(current, slots, durable, routing_epoch, slots_after, r),
    ensures
        r is Ok <==> {
            &&& durable.supervisor_epoch == current.supervisor_epoch
            &&& durable.routing_epoch == current.routing_epoch
            &&& durable.revision == current.revision
            &&& durable.active_generation_spec_digest == current.active_generation_spec_digest
            &&& routing_epoch == current.routing_epoch
            &&& current.active_generation_spec_digest is Some
            &&& slots.dom().contains(current.active_generation_spec_digest->Some_0)
            &&& slots[current.active_generation_spec_digest->Some_0].leases < usize::MAX
        },
        r is Err ==> slots_after == slots,
        r matches Ok(lease) ==> {
            &&& Some(lease.pinned()) == current.active_generation_spec_digest
            &&& lease.epoch() == routing_epoch
            &&& lease.supervisor() == current.supervisor_epoch
            &&& lease.installation() == slots[lease.pinned()].staged_at
            &&& slots_after.dom() =~= slots.dom()
            &&& slots_after[lease.pinned()].leases == slots[lease.pinned()].leases + 1
            &&& slots_after[lease.pinned()].handle == slots[lease.pinned()].handle
            &&& slots_after[lease.pinned()].staged_at == slots[lease.pinned()].staged_at
            &&& other != lease.pinned() ==> slots_after[other] == slots[other]
        },
{
}

/// Giving a lease back undoes taking it. A lease on resources that are gone, though others were
/// installed for the same Generation since, counts against nothing.
pub proof fn a_released_lease_is_undone<H>(
    current: StateView,
    slots: Map<Seq<char>, LiveSlot<H>>,
    durable: StateView,
    routing_epoch: u64,
    slots_leased: Map<Seq<char>, LiveSlot<H>>,
    lease: DurableGenerationLease,
    slots_held: Map<Seq<char>, LiveSlot<H>>,
    slots_after: Map<Seq<char>, LiveSlot<H>>,
)
    requires
        leased(current, slots, durable, routing_epoch, slots_leased, Ok(lease)),
        released(slots_held, lease, slots_after),
    ensures
        slots_held == slots_leased ==> slots_after =~= slots,
        !slots_held.dom().contains(lease.pinned()) || slots_held[lease.pinned()].staged_at != slots[lease.pinned()].staged_at ==> slots_after
            == slots_held,
        slots_held.dom().contains(lease.pinned()) && slots_held[lease.pinned()].staged_at == slots[lease.pinned()].staged_at
            && slots_held[lease.pinned()].leases > 0 ==> slots_after[lease.pinned()].leases == slots_held[lease.pinned()].leases - 1,
        slots_after.dom() =~= slots_held.dom(),
{
}

} // verus!
