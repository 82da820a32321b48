//! Laws of maintenance: what is due for a Generation, and when.
use vstd::prelude::*;

use crate::durable::{ControlHealth, ControlLifecycle, ControlStateStore, RecordView, RetirementReason, StateView};
use crate::durable_supervisor::retirement::{
    drain_completed, inactive_failed, maintained, taken_out, window_expired, MaintenanceStep, StopOrder,
};
use crate::durable_supervisor::{reports, LiveSlot};
use crate::error::{ControlPlaneError, ErrorView};
use crate::lifecycle::{marked, retired_record};
use crate::text::parsed;

verus! {

/// A standby is stopped as soon as its rollback window is over, however late maintenance runs, and not
/// before: until then nothing changes.
pub proof fn an_expired_standby_is_stopped<H, S: ControlStateStore>(
    store: S,
    store_after: S,
    app: Seq<char>,
    before: StateView,
    slots: Map<Seq<char>, LiveSlot<H>>,
    digest: Seq<char>,
    now: u128,
    after: StateView,
    slots_after: Map<Seq<char>, LiveSlot<H>>,
    r: Result<MaintenanceStep<H>, ControlPlaneError>,
    window: nat,
    drain: nat,
)
    requires
        maintained(store, store_after, app, before, slots, digest, now, after, slots_after, r),
        before.has(digest),
        before.record(digest).lifecycle == ControlLifecycle::Standby,
        before.record(digest).rollback_deadline_unix_nanos is Some,
        parsed(before.record(digest).rollback_deadline_unix_nanos->Some_0, u128::MAX as nat) == Some(window),
        slots.dom().contains(digest),
        parsed(before.record(digest).drain_timeout_nanos, u64::MAX as nat) == Some(drain),
    ensures
        store_after == store,
        after == before,
        window <= now ==> slots_after == slots.remove(digest) && r is Ok && (r->Ok_0 matches MaintenanceStep::Stop(order) && {
            &&& order.generation_spec_digest@ == digest
            &&& order.reason == RetirementReason::RollbackWindowExpired
            &&& order.handle == slots[digest].handle
            &&& order.drain_timeout_nanos == drain
        }),
        window > now ==> slots_after == slots && r is Ok && r->Ok_0 is Idle,
{
}

/// A leased Generation drains until its deadline: until then nothing changes, and from then on it is
/// stopped in spite of its leases.
pub proof fn a_leased_generation_drains_until_its_deadline<H, S: ControlStateStore>(
    store: S,
    store_after: S,
    app: Seq<char>,
    before: StateView,
    slots: Map<Seq<char>, LiveSlot<H>>,
    digest: Seq<char>,
    now: u128,
    after: StateView,
    slots_after: Map<Seq<char>, LiveSlot<H>>,
    r: Result<MaintenanceStep<H>, ControlPlaneError>,
    until: nat,
    drain: nat,
)
    requires
        maintained(store, store_after, app, before, slots, digest, now, after, slots_after, r),
        before.has(digest),
        before.record(digest).lifecycle == ControlLifecycle::Draining,
        before.record(digest).health == ControlHealth::Healthy,
        slots.dom().contains(digest),
        slots[digest].leases > 0,
        before.record(digest).drain_deadline_unix_nanos is Some,
        parsed(before.record(digest).drain_deadline_unix_nanos->Some_0, u128::MAX as nat) == Some(until),
        parsed(before.record(digest).drain_timeout_nanos, u64::MAX as nat) == Some(drain),
    ensures
        store_after == store,
        after == before,
        until > now ==> slots_after == slots && r is Ok && r->Ok_0 is Idle,
        until <= now ==> slots_after == slots.remove(digest) && r is Ok && (r->Ok_0 matches MaintenanceStep::Stop(order) && {
            &&& order.generation_spec_digest@ == digest
            &&& order.reason == RetirementReason::DrainDeadlineExceeded
            &&& order.handle == slots[digest].handle
            &&& order.drain_timeout_nanos == drain
        }),
{
}

/// Both ways in which a drain comes to its end, by maintenance and on demand.
pub open spec fn drained<H, S: ControlStateStore>(
    store: S,
    store_after: S,
    app: Seq<char>,
    before: StateView,
    slots: Map<Seq<char>, LiveSlot<H>>,
    digest: Seq<char>,
    now: u128,
    after: StateView,
    slots_after: Map<Seq<char>, LiveSlot<H>>,
    r: Result<MaintenanceStep<H>, ControlPlaneError>,
) -> bool {
    ||| maintained(store, store_after, app, before, slots, digest, now, after, slots_after, r)
    ||| drain_completed(store, store_after, app, before, slots, digest, now, after, slots_after, r)
}

/// A Generation whose last lease was given back stands by while its rollback window is open: its record
/// loses the drain deadline and keeps everything else, and its resources stay. Without an open window it
/// is stopped.
pub proof fn a_drained_generation_stands_by_inside_its_window<H, S: ControlStateStore>(
    store: S,
    store_after: S,
    app: Seq<char>,
    before: StateView,
    slots: Map<Seq<char>, LiveSlot<H>>,
    digest: Seq<char>,
    now: u128,
    after: StateView,
    slots_after: Map<Seq<char>, LiveSlot<H>>,
    r: Result<MaintenanceStep<H>, ControlPlaneError>,
    drain: nat,
    other: Seq<char>,
)
    requires
        drained(store, store_after, app, before, slots, digest, now, after, slots_after, r),
        before.unique(),
        before.has(digest),
        before.record(digest).lifecycle == ControlLifecycle::Draining,
        before.record(digest).health == ControlHealth::Healthy,
        slots.dom().contains(digest),
        slots[digest].leases == 0,
        before.record(digest).rollback_deadline_unix_nanos matches Some(text) ==> parsed(text, u128::MAX as nat) is Some,
        parsed(before.record(digest).drain_timeout_nanos, u64::MAX as nat) == Some(drain),
    ensures
        ({
            let record = before.record(digest);
            let open = record.rollback_deadline_unix_nanos is Some && parsed(record.rollback_deadline_unix_nanos->Some_0, u128::MAX as nat)->Some_0 > now;
            if open {
                &&& slots_after == slots
                &&& r is Ok ==> {
                    &&& r->Ok_0 is StoodBy
                    &&& after.record(digest) == (RecordView { lifecycle: ControlLifecycle::Standby, drain_deadline_unix_nanos: None, ..record })
                    &&& before.has(other) && other != digest ==> after.record(other) == before.record(other)
                    &&& after.active_generation_spec_digest == before.active_generation_spec_digest
                    &&& after.routing_epoch == before.routing_epoch
                }
                &&& r is Err ==> after == before
            } else {
                &&& after == before && store_after == store
                &&& slots_after == slots.remove(digest)
                &&& r is Ok && (r->Ok_0 matches MaintenanceStep::Stop(order) && {
                    &&& order.generation_spec_digest@ == digest
                    &&& order.handle == slots[digest].handle
                    &&& order.drain_timeout_nanos == drain
                    &&& record.retirement_reason is None ==> order.reason == RetirementReason::Drained
                    &&& order.reason == RetirementReason::Drained || Some(order.reason) == record.retirement_reason
                })
            }
        }),
{
    let record = before.record(digest);
    let stands = RecordView { lifecycle: ControlLifecycle::Standby, drain_deadline_unix_nanos: None, ..record };
    before.lookup(stands, digest);
    before.lookup(stands, other);
    let next = before.with_record(stands);
    let shown = next.committed(before.revision);
    assert(shown.generations == next.generations);
    assert(shown.record(digest) == next.record(digest) && shown.record(other) == next.record(other));
}

/// A Generation that failed terminally does not stand by: once it drains it is stopped, with or without
/// leases and whatever its window.
pub proof fn a_failed_generation_never_stands_by<H, S: ControlStateStore>(
    store: S,
    store_after: S,
    app: Seq<char>,
    before: StateView,
    slots: Map<Seq<char>, LiveSlot<H>>,
    digest: Seq<char>,
    now: u128,
    after: StateView,
    slots_after: Map<Seq<char>, LiveSlot<H>>,
    r: Result<MaintenanceStep<H>, ControlPlaneError>,
    drain: nat,
)
    requires
        ({
            ||| maintained(store, store_after, app, before, slots, digest, now, after, slots_after, r)
            ||| slots[digest].leases == 0 && drain_completed(store, store_after, app, before, slots, digest, now, after, slots_after, r)
        }),
        before.has(digest),
        before.record(digest).lifecycle == ControlLifecycle::Draining,
        before.record(digest).health == ControlHealth::Failed,
        slots.dom().contains(digest),
        parsed(before.record(digest).drain_timeout_nanos, u64::MAX as nat) == Some(drain),
    ensures
        after == before,
        slots_after == slots.remove(digest),
        r is Ok && (r->Ok_0 matches MaintenanceStep::Stop(order) && {
            &&& order.generation_spec_digest@ == digest
            &&& order.reason == RetirementReason::TerminalFailure
            &&& order.handle == slots[digest].handle
            &&& order.drain_timeout_nanos == drain
        }),
{
}

/// Maintenance leaves a Generation alone that neither drains nor stands by, and a drain is completed
/// only of a Generation that drains and has no leases.
pub proof fn nothing_else_is_due<H, S: ControlStateStore>(
    store: S,
    store_after: S,
    app: Seq<char>,
    before: StateView,
    slots: Map<Seq<char>, LiveSlot<H>>,
    digest: Seq<char>,
    now: u128,
    after: StateView,
    slots_after: Map<Seq<char>, LiveSlot<H>>,
    r: Result<MaintenanceStep<H>, ControlPlaneError>,
)
    requires
        before.has(digest),
    ensures
        maintained(store, store_after, app, before, slots, digest, now, after, slots_after, r) && before.record(digest).lifecycle
            != ControlLifecycle::Draining && before.record(digest).lifecycle != ControlLifecycle::Standby ==> {
            &&& r is Ok && r->Ok_0 is Idle
            &&& store_after == store && after == before && slots_after == slots
        },
        drain_completed(store, store_after, app, before, slots, digest, now, after, slots_after, r) && (!slots.dom().contains(digest)
            || slots[digest].leases > 0 || before.record(digest).lifecycle != ControlLifecycle::Draining) ==> {
            &&& r is Err
            &&& store_after == store && after == before && slots_after == slots
        },
{
}

/// A standby window is expired on demand only once it is over, and only for a Generation that stands by.
pub proof fn a_window_is_expired_only_once_it_is_over<H>(
    state: StateView,
    slots: Map<Seq<char>, LiveSlot<H>>,
    digest: Seq<char>,
    now: u128,
    slots_after: Map<Seq<char>, LiveSlot<H>>,
    r: Result<StopOrder<H>, ControlPlaneError>,
)
    requires
        window_expired(state, slots, digest, now, slots_after, r),
    ensures
        ({
            let record = state.record(digest);
            let due = state.has(digest) && record.lifecycle == ControlLifecycle::Standby && record.rollback_deadline_unix_nanos is Some && parsed(
                record.rollback_deadline_unix_nanos->Some_0,
                u128::MAX as nat,
            ) is Some && parsed(record.rollback_deadline_unix_nanos->Some_0, u128::MAX as nat)->Some_0 <= now && slots.dom().contains(digest)
                && parsed(record.drain_timeout_nanos, u64::MAX as nat) is Some;
            &&& r is Ok <==> due
            &&& r matches Ok(order) ==> {
                &&& slots_after == slots.remove(digest)
                &&& order.generation_spec_digest@ == digest
                &&& order.reason == RetirementReason::RollbackWindowExpired
                &&& order.handle == slots[digest].handle
                &&& Some(order.drain_timeout_nanos as nat) == parsed(record.drain_timeout_nanos, u64::MAX as nat)
            }
            &&& r is Err ==> slots_after == slots
        }),
{
}

/// A Generation that is taken out of service gives up its resources, and those alone, for the reason and
/// with the time that its record allows; one without resources or with an unreadable time is not.
pub proof fn a_stop_order_is_about_its_generation<H>(
    state: StateView,
    slots: Map<Seq<char>, LiveSlot<H>>,
    digest: Seq<char>,
    reason: RetirementReason,
    slots_after: Map<Seq<char>, LiveSlot<H>>,
    r: Result<StopOrder<H>, ControlPlaneError>,
    other: Seq<char>,
)
    requires
        taken_out(state, slots, digest, reason, slots_after, r),
    ensures
        r is Ok <==> state.has(digest) && slots.dom().contains(digest) && parsed(state.record(digest).drain_timeout_nanos, u64::MAX as nat) is Some,
        r matches Ok(order) ==> {
            &&& !slots_after.dom().contains(digest)
            &&& order.generation_spec_digest@ == digest
            &&& order.reason == reason
            &&& order.handle == slots[digest].handle
            &&& Some(order.drain_timeout_nanos as nat) == parsed(state.record(digest).drain_timeout_nanos, u64::MAX as nat)
        },
        r is Err ==> slots_after == slots,
        other != digest ==> slots_after.dom().contains(other) == slots.dom().contains(other) && slots_after[other] == slots[other],
{
}

/// A stopped Generation is recorded as retired for its reason, without any deadline; it counts as failed
/// where stopping failed, and then that failure is reported. No other record changes.
pub proof fn a_stopped_generation_retires<S: ControlStateStore>(
    store: S,
    store_after: S,
    app: Seq<char>,
    before: StateView,
    digest: Seq<char>,
    reason: RetirementReason,
    shutdown: Option<ErrorView>,
    after: StateView,
    result: Option<ErrorView>,
    other: Seq<char>,
)
    requires
        reports(
            store,
            store_after,
            app,
            before,
            marked(before, digest, retired_record(before.record(digest), reason, shutdown is Some)),
            after,
            result,
            shutdown,
        ),
        before.unique(),
    ensures
        result is None ==> shutdown is None,
        !before.has(digest) ==> result is Some && after == before,
        after != before ==> {
            &&& after.record(digest).lifecycle == ControlLifecycle::Retired
            &&& after.record(digest).retirement_reason == Some(reason)
            &&& after.record(digest).drain_deadline_unix_nanos is None
            &&& after.record(digest).rollback_deadline_unix_nanos is None
            &&& after.record(digest).health == (if shutdown is Some { ControlHealth::Failed } else { before.record(digest).health })
            &&& after.record(digest).generation_spec_digest == before.record(digest).generation_spec_digest
            &&& other != digest && before.has(other) ==> after.record(other) == before.record(other)
            &&& after.active_generation_spec_digest == before.active_generation_spec_digest
            &&& after.routing_epoch == before.routing_epoch
            &&& result == shutdown
        },
        before.has(digest) && result is None ==> after.revision == before.revision + 1 && after.record(digest).lifecycle == ControlLifecycle::Retired
            && after.record(digest).retirement_reason == Some(reason),
{
    if before.has(digest) {
        let record = retired_record(before.record(digest), reason, shutdown is Some);
        assert(record.generation_spec_digest == digest);
        before.lookup(record, digest);
        before.lookup(record, other);
        let next = before.with_record(record);
        let shown = next.committed(before.revision);
        assert(shown.generations == next.generations);
        assert(shown.record(digest) == next.record(digest) && shown.record(other) == next.record(other));
    }
}

/// A failed Generation without the route is recorded as failed and stopped for that reason; the route
/// stays where it is.
pub proof fn a_failed_inactive_generation_is_stopped<H, S: ControlStateStore>(
    store: S,
    store_after: S,
    app: Seq<char>,
    before: StateView,
    slots: Map<Seq<char>, LiveSlot<H>>,
    digest: Seq<char>,
    after: StateView,
    slots_after: Map<Seq<char>, LiveSlot<H>>,
    r: Result<StopOrder<H>, ControlPlaneError>,
)
    requires
        inactive_failed(store, store_after, app, before, slots, digest, after, slots_after, r),
        before.unique(),
    ensures
        after.active_generation_spec_digest == before.active_generation_spec_digest,
        after.routing_epoch == before.routing_epoch,
        r matches Ok(order) ==> {
            &&& before.has(digest) && slots.dom().contains(digest)
            &&& after.record(digest) == (RecordView { health: ControlHealth::Failed, ..before.record(digest) })
            &&& order.generation_spec_digest@ == digest
            &&& order.reason == RetirementReason::TerminalFailure
            &&& order.handle == slots[digest].handle
            &&& slots_after == slots.remove(digest)
        },
        r is Err ==> slots_after == slots,
{
    if before.has(digest) {
        let record = RecordView { health: ControlHealth::Failed, ..before.record(digest) };
        before.lookup(record, digest);
        let next = before.with_record(record);
        let shown = next.committed(before.revision);
        assert(shown.generations == next.generations);
        assert(shown.has(digest) && shown.record(digest) == next.record(digest));
    }
}

} // verus!
