//! Drain, standby, expiry and retirement of Generations.
use vstd::prelude::*;
use vstd::string::*;

use super::{
    attempted, failure, failure_handled, reports, DurableGenerationSupervisor, GenerationFailureOutcome,
    GenerationMaintenanceOutcome, LiveSlot,
};
use crate::durable::{ControlHealth, ControlLifecycle, ControlStateStore, RecordView, RetirementReason, StateView};
use crate::error::{rejected, rejection, ControlPlaneError};
use crate::lifecycle::{
    deadline, deadline_option, drain_deadline, failed_record, live, marked, nanos, parse_nanos, required_drain_deadline,
    required_rollback_deadline, retired_record, rollback_deadline, standby_record, unknown, unknown_generation,
};
use crate::text;
use crate::text::texts;

verus! {

/// A Generation that is to be stopped and then retired.
#[derive(Debug)]
pub struct StopOrder<H> {
    /// The Generation whose resources are to be released.
    pub generation_spec_digest: String,
    /// Why the Generation retires.
    pub reason: RetirementReason,
    /// The resources.
    pub handle: H,
    /// The time that stopping may take.
    pub drain_timeout_nanos: u64,
}

/// What maintenance of one Generation asks for.
#[derive(Debug)]
pub enum MaintenanceStep<H> {
    /// Nothing is due.
    Idle,
    /// The Generation stands by.
    StoodBy,
    /// Stop the Generation, then hand the outcome to `finish_retirement`.
    Stop(StopOrder<H>),
}

/// What is due for one Generation.
pub enum Decision {
    Idle,
    StandBy,
    Retire(RetirementReason),
}

/// Why a Generation cannot be taken out of service.
pub open spec fn stop_fault<H>(state: StateView, slots: Map<Seq<char>, LiveSlot<H>>, digest: Seq<char>) -> Option<Seq<char>> {
    if !state.has(digest) {
        Some(unknown(digest))
    } else {
        match nanos(state.record(digest).drain_timeout_nanos, "drain timeout"@) {
            Err(detail) => Some(detail),
            Ok(_) => if !slots.dom().contains(digest) {
                Some(unknown(digest))
            } else {
                None
            },
        }
    }
}

/// The order to stop a Generation.
pub open spec fn ordered<H>(state: StateView, slots: Map<Seq<char>, LiveSlot<H>>, digest: Seq<char>, reason: RetirementReason, order: StopOrder<H>) -> bool {
    &&& order.generation_spec_digest@ == digest
    &&& order.reason == reason
    &&& order.handle == slots[digest].handle
    &&& nanos(state.record(digest).drain_timeout_nanos, "drain timeout"@) == Ok::<nat, Seq<char>>(order.drain_timeout_nanos as nat)
}

/// A Generation was taken out of service, or why it could not be.
pub open spec fn taken_out<H>(
    state: StateView,
    slots: Map<Seq<char>, LiveSlot<H>>,
    digest: Seq<char>,
    reason: RetirementReason,
    slots_after: Map<Seq<char>, LiveSlot<H>>,
    r: Result<StopOrder<H>, ControlPlaneError>,
) -> bool {
    match stop_fault(state, slots, digest) {
        Some(detail) => slots_after == slots && failure(r) == Some(rejection(detail)),
        None => slots_after == slots.remove(digest) && (r matches Ok(order) && ordered(state, slots, digest, reason, order)),
    }
}

/// What is due for a Generation whose drain ended.
pub open spec fn drained_decision(record: RecordView, now: u128) -> Result<Decision, Seq<char>> {
    if record.health == ControlHealth::Failed {
        Ok(Decision::Retire(RetirementReason::TerminalFailure))
    } else {
        match rollback_deadline(record) {
            Err(detail) => Err(detail),
            Ok(Some(moment)) => if moment > now {
                Ok(Decision::StandBy)
            } else {
                Ok(Decision::Retire(RetirementReason::Drained))
            },
            Ok(None) => Ok(Decision::Retire(RetirementReason::Drained)),
        }
    }
}

/// What is due for one Generation that drains or stands by, given its leases.
pub open spec fn maintenance_decision(record: RecordView, leases: Option<usize>, now: u128) -> Result<Decision, Seq<char>> {
    if record.lifecycle == ControlLifecycle::Standby {
        match required_rollback_deadline(record) {
            Err(detail) => Err(detail),
            Ok(moment) => if moment > now {
                Ok(Decision::Idle)
            } else {
                Ok(Decision::Retire(RetirementReason::RollbackWindowExpired))
            },
        }
    } else if record.lifecycle != ControlLifecycle::Draining {
        Ok(Decision::Idle)
    } else if record.health == ControlHealth::Failed {
        Ok(Decision::Retire(RetirementReason::TerminalFailure))
    } else {
        match leases {
            None => Err(unknown(record.generation_spec_digest)),
            Some(0) => match rollback_deadline(record) {
                Err(detail) => Err(detail),
                Ok(Some(moment)) => if moment > now {
                    Ok(Decision::StandBy)
                } else {
                    Ok(Decision::Retire(own_reason(record)))
                },
                Ok(None) => Ok(Decision::Retire(own_reason(record))),
            },
            Some(_) => match required_drain_deadline(record) {
                Err(detail) => Err(detail),
                Ok(moment) => if moment <= now {
                    Ok(Decision::Retire(RetirementReason::DrainDeadlineExceeded))
                } else {
                    Ok(Decision::Idle)
                },
            },
        }
    }
}

/// The reason that a record already carries, or a completed drain.
pub open spec fn own_reason(record: RecordView) -> RetirementReason {
    match record.retirement_reason {
        Some(reason) => reason,
        None => RetirementReason::Drained,
    }
}

/// A decision was carried out as far as the state machine can.
pub open spec fn decided<H, S: ControlStateStore>(
    store: S,
    store_after: S,
    app: Seq<char>,
    before: StateView,
    slots: Map<Seq<char>, LiveSlot<H>>,
    digest: Seq<char>,
    decision: Result<Decision, Seq<char>>,
    after: StateView,
    slots_after: Map<Seq<char>, LiveSlot<H>>,
    r: Result<MaintenanceStep<H>, ControlPlaneError>,
) -> bool {
    match decision {
        Err(detail) => store_after == store && after == before && slots_after == slots && failure(r) == Some(rejection(detail)),
        Ok(Decision::Idle) => store_after == store && after == before && slots_after == slots && r == Ok::<MaintenanceStep<H>, ControlPlaneError>(
            MaintenanceStep::Idle,
        ),
        Ok(Decision::StandBy) => {
            &&& slots_after == slots
            &&& attempted(store, store_after, app, before, marked(before, digest, standby_record(before.record(digest))), after, failure(r))
            &&& r is Ok ==> r == Ok::<MaintenanceStep<H>, ControlPlaneError>(MaintenanceStep::StoodBy)
        },
        Ok(Decision::Retire(reason)) => {
            &&& store_after == store
            &&& after == before
            &&& match stop_fault(before, slots, digest) {
                Some(detail) => slots_after == slots && failure(r) == Some(rejection(detail)),
                None => slots_after == slots.remove(digest) && (r matches Ok(MaintenanceStep::Stop(order)) && ordered(before, slots, digest, reason, order)),
            }
        },
    }
}

/// What came of completing the drain of one Generation.
pub open spec fn drain_completed<H, S: ControlStateStore>(
    store: S,
    store_after: S,
    app: Seq<char>,
    before: StateView,
    slots: Map<Seq<char>, LiveSlot<H>>,
    digest: Seq<char>,
    now: u128,
    after: StateView,
    slots_after: Map<Seq<char>, LiveSlot<H>>,
    r: Result<MaintenanceStep<H>, ControlPlaneError>,
) -> bool {
    if !slots.dom().contains(digest) {
        store_after == store && after == before && slots_after == slots && failure(r) == Some(rejection(unknown(digest)))
    } else if slots[digest].leases != 0 || before.record(digest).lifecycle != ControlLifecycle::Draining {
        store_after == store && after == before && slots_after == slots && failure(r) == Some(
            rejection("Generation is not draining or still has active leases"@),
        )
    } else {
        decided(store, store_after, app, before, slots, digest, drained_decision(before.record(digest), now), after, slots_after, r)
    }
}

/// What came of expiring one standby window.
pub open spec fn window_expired<H>(
    state: StateView,
    slots: Map<Seq<char>, LiveSlot<H>>,
    digest: Seq<char>,
    now: u128,
    slots_after: Map<Seq<char>, LiveSlot<H>>,
    r: Result<StopOrder<H>, ControlPlaneError>,
) -> bool {
    if !state.has(digest) {
        slots_after == slots && failure(r) == Some(rejection(unknown(digest)))
    } else if state.record(digest).lifecycle != ControlLifecycle::Standby {
        slots_after == slots && failure(r) == Some(rejection("rollback standby window has not expired"@))
    } else {
        match required_rollback_deadline(state.record(digest)) {
            Err(detail) => slots_after == slots && failure(r) == Some(rejection(detail)),
            Ok(moment) => if moment > now {
                slots_after == slots && failure(r) == Some(rejection("rollback standby window has not expired"@))
            } else {
                taken_out(state, slots, digest, RetirementReason::RollbackWindowExpired, slots_after, r)
            },
        }
    }
}

/// What came of maintaining one Generation.
pub open spec fn maintained<H, S: ControlStateStore>(
    store: S,
    store_after: S,
    app: Seq<char>,
    before: StateView,
    slots: Map<Seq<char>, LiveSlot<H>>,
    digest: Seq<char>,
    now: u128,
    after: StateView,
    slots_after: Map<Seq<char>, LiveSlot<H>>,
    r: Result<MaintenanceStep<H>, ControlPlaneError>,
) -> bool {
    if !before.has(digest) {
        store_after == store && after == before && slots_after == slots && failure(r) == Some(rejection(unknown(digest)))
    } else {
        decided(
            store,
            store_after,
            app,
            before,
            slots,
            digest,
            maintenance_decision(
                before.record(digest),
                if slots.dom().contains(digest) { Some(slots[digest].leases) } else { None },
                now,
            ),
            after,
            slots_after,
            r,
        )
    }
}

/// What came of reconciling the Generation that holds the route with the failure that its
/// runtime reports.
pub open spec fn reconciled<S: ControlStateStore>(
    store: S,
    store_after: S,
    app: Seq<char>,
    before: StateView,
    observed: Option<ControlPlaneError>,
    now: u128,
    after: StateView,
    r: Result<Option<GenerationFailureOutcome>, ControlPlaneError>,
) -> bool {
    let quiet = match before.active_generation_spec_digest {
        None => true,
        Some(active) => before.record(active).health == ControlHealth::Failed || observed is None,
    };
    if quiet {
        store_after == store && after == before && r == Ok::<Option<GenerationFailureOutcome>, ControlPlaneError>(None)
    } else {
        let active = before.active_generation_spec_digest->Some_0;
        let next = before.with_record(failed_record(before.record(active)));
        let failed = next.committed(before.revision);
        ||| r matches Err(error) && attempted(store, store_after, app, before, Ok(next), after, Some(error@))
        ||| exists|kept: S| {
            &&& #[trigger] attempted(store, kept, app, before, Ok(next), failed, None)
            &&& match r {
                Ok(Some(outcome)) => {
                    &&& outcome.generation_spec_digest@ == active
                    &&& Some(outcome.failure) == observed
                    &&& failure_handled(
                        kept,
                        store_after,
                        app,
                        failed,
                        active,
                        before.record(active),
                        now,
                        after,
                        Ok(outcome.automatic_rollback),
                    )
                },
                Ok(None) => false,
                Err(error) => failure_handled(kept, store_after, app, failed, active, before.record(active), now, after, Err(error)),
            }
        }
    }
}

/// What came of the terminal failure of a Generation without the route.
pub open spec fn inactive_failed<H, S: ControlStateStore>(
    store: S,
    store_after: S,
    app: Seq<char>,
    before: StateView,
    slots: Map<Seq<char>, LiveSlot<H>>,
    digest: Seq<char>,
    after: StateView,
    slots_after: Map<Seq<char>, LiveSlot<H>>,
    r: Result<StopOrder<H>, ControlPlaneError>,
) -> bool {
    if !before.has(digest) {
        store_after == store && after == before && slots_after == slots && failure(r) == Some(rejection(unknown(digest)))
    } else {
        let next = before.with_record(failed_record(before.record(digest)));
        let failed = next.committed(before.revision);
        ||| slots_after == slots && (r matches Err(error) && attempted(store, store_after, app, before, Ok(next), after, Some(error@)))
        ||| attempted(store, store_after, app, before, Ok(next), after, None) && (match stop_fault(failed, slots, digest) {
            Some(detail) => slots_after == slots && failure(r) == Some(rejection(detail)),
            None => slots_after == slots.remove(digest) && (r matches Ok(order) && ordered(
                failed,
                slots,
                digest,
                RetirementReason::TerminalFailure,
                order,
            )),
        })
    }
}

impl<H, S: ControlStateStore> DurableGenerationSupervisor<H, S> {
    /// Takes a Generation out of service: hands out its resources to be released.
    pub fn begin_retirement(&mut self, digest: &str, reason: RetirementReason) -> (r: Result<StopOrder<H>, ControlPlaneError>)
        requires
            old(self).inv(),
        ensures
            final(self).inv(),
            final(self).app() == old(self).app(),
            final(self).backend() == old(self).backend(),
            final(self).current() == old(self).current(),
            taken_out(old(self).current(), old(self).slots(), digest@, reason, final(self).slots(), r),
    {
        let timeout = match self.state.find(digest) {
            Some(i) => match parse_nanos(self.state.generations[i].drain_timeout_nanos.as_str(), "drain timeout") {
                Ok(timeout) => timeout,
                Err(error) => return Err(error),
            },
            None => return Err(unknown_generation(digest)),
        };
        match self.slots.remove(digest) {
            Some(slot) => Ok(
                StopOrder {
                    generation_spec_digest: digest.to_owned(),
                    reason,
                    handle: slot.handle,
                    drain_timeout_nanos: timeout,
                },
            ),
            None => {
                proof {
                    assert(self.slots.map() =~= old(self).slots.map());
                }
                Err(unknown_generation(digest))
            },
        }
    }

    /// Records that a Generation released its resources, and reports how that went.
    pub fn finish_retirement(&mut self, digest: &str, reason: RetirementReason, shutdown: Result<(), ControlPlaneError>) -> (r: Result<(), ControlPlaneError>)
        requires
            old(self).inv(),
            !old(self).slots().dom().contains(digest@),
        ensures
            final(self).inv(),
            final(self).app() == old(self).app(),
            final(self).slots() == old(self).slots(),
            reports(
                old(self).backend(),
                final(self).backend(),
                old(self).app(),
                old(self).current(),
                marked(old(self).current(), digest@, retired_record(old(self).current().record(digest@), reason, shutdown is Err)),
                final(self).current(),
                failure(r),
                failure(shutdown),
            ),
    {
        let failed = shutdown.is_err();
        let next = match self.state.retire_generation(digest, reason, failed) {
            Ok(next) => next,
            Err(error) => return Err(error),
        };
        proof {
            assert forall|other: Seq<char>| #[trigger] self.slots().dom().contains(other) implies next@.has(other) && live(next@.record(other).lifecycle) by {
                assert(self.slots.map().dom().contains(other));
                self.state@.lookup(retired_record(self.state@.record(digest@), reason, failed), other);
            }
        }
        match self.commit(next) {
            Ok(_) => shutdown,
            Err(error) => Err(error),
        }
    }

    /// Records that a drained Generation stands by.
    fn stand_by(&mut self, digest: &str) -> (r: Result<(), ControlPlaneError>)
        requires
            old(self).inv(),
        ensures
            final(self).inv(),
            final(self).app() == old(self).app(),
            final(self).slots() == old(self).slots(),
            attempted(
                old(self).backend(),
                final(self).backend(),
                old(self).app(),
                old(self).current(),
                marked(old(self).current(), digest@, standby_record(old(self).current().record(digest@))),
                final(self).current(),
                failure(r),
            ),
    {
        let next = match self.state.stand_by(digest) {
            Ok(next) => next,
            Err(error) => return Err(error),
        };
        proof {
            assert forall|other: Seq<char>| #[trigger] self.slots().dom().contains(other) implies next@.has(other) && live(next@.record(other).lifecycle) by {
                assert(self.slots.map().dom().contains(other));
                self.state@.lookup(standby_record(self.state@.record(digest@)), other);
            }
        }
        self.commit(next)
    }

    /// Moves a fully drained old Generation to standby, or orders it to be stopped.
    pub fn complete_drain(&mut self, digest: &str, now_unix_nanos: u128) -> (r: Result<MaintenanceStep<H>, ControlPlaneError>)
        requires
            old(self).inv(),
        ensures
            final(self).inv(),
            final(self).app() == old(self).app(),
            drain_completed(
                old(self).backend(),
                final(self).backend(),
                old(self).app(),
                old(self).current(),
                old(self).slots(),
                digest@,
                now_unix_nanos,
                final(self).current(),
                final(self).slots(),
                r,
            ),
    {
        let leases = match self.slots.get(digest) {
            Some(slot) => slot.leases,
            None => return Err(unknown_generation(digest)),
        };
        let i = match self.state.find(digest) {
            Some(i) => i,
            None => return Err(unknown_generation(digest)),
        };
        let record = &self.state.generations[i];
        assert(record@ == self.state@.record(digest@));
        if leases != 0 || record.lifecycle != ControlLifecycle::Draining {
            return Err(rejected("Generation is not draining or still has active leases"));
        }
        let reason = if record.health == ControlHealth::Failed {
            RetirementReason::TerminalFailure
        } else {
            match deadline_option(record) {
                Ok(Some(moment)) => {
                    if moment > now_unix_nanos {
                        return match self.stand_by(digest) {
                            Ok(_) => Ok(MaintenanceStep::StoodBy),
                            Err(error) => Err(error),
                        };
                    }
                    RetirementReason::Drained
                },
                Ok(None) => RetirementReason::Drained,
                Err(error) => return Err(error),
            }
        };
        match self.begin_retirement(digest, reason) {
            Ok(order) => Ok(MaintenanceStep::Stop(order)),
            Err(error) => Err(error),
        }
    }

    /// Advances the lifecycle edge that is due for one Generation.
    pub fn maintain_candidate(&mut self, digest: &str, now_unix_nanos: u128) -> (r: Result<MaintenanceStep<H>, ControlPlaneError>)
        requires
            old(self).inv(),
        ensures
            final(self).inv(),
            final(self).app() == old(self).app(),
            maintained(old(self).backend(), final(self).backend(), old(self).app(), old(self).current(), old(self).slots(), digest@, now_unix_nanos, final(self).current(), final(self).slots(), r),
    {
        let i = match self.state.find(digest) {
            Some(i) => i,
            None => return Err(unknown_generation(digest)),
        };
        let record = &self.state.generations[i];
        assert(record@ == self.state@.record(digest@));
        let reason = if record.lifecycle == ControlLifecycle::Standby {
            match deadline(record) {
                Ok(moment) => {
                    if moment > now_unix_nanos {
                        return Ok(MaintenanceStep::Idle);
                    }
                    RetirementReason::RollbackWindowExpired
                },
                Err(error) => return Err(error),
            }
        } else if record.lifecycle != ControlLifecycle::Draining {
            return Ok(MaintenanceStep::Idle);
        } else if record.health == ControlHealth::Failed {
            RetirementReason::TerminalFailure
        } else {
            let leases = match self.slots.get(digest) {
                Some(slot) => slot.leases,
                None => return Err(unknown_generation(digest)),
            };
            if leases == 0 {
                let standby = match deadline_option(record) {
                    Ok(Some(moment)) => moment > now_unix_nanos,
                    Ok(None) => false,
                    Err(error) => return Err(error),
                };
                if standby {
                    return match self.stand_by(digest) {
                        Ok(_) => Ok(MaintenanceStep::StoodBy),
                        Err(error) => Err(error),
                    };
                }
                match record.retirement_reason {
                    Some(reason) => reason,
                    None => RetirementReason::Drained,
                }
            } else {
                match drain_deadline(record) {
                    Ok(moment) => {
                        if moment > now_unix_nanos {
                            return Ok(MaintenanceStep::Idle);
                        }
                        RetirementReason::DrainDeadlineExceeded
                    },
                    Err(error) => return Err(error),
                }
            }
        };
        match self.begin_retirement(digest, reason) {
            Ok(order) => Ok(MaintenanceStep::Stop(order)),
            Err(error) => Err(error),
        }
    }

    /// Expires one standby window: orders its Generation to be stopped.
    pub fn expire_rollback_window(&mut self, digest: &str, now_unix_nanos: u128) -> (r: Result<StopOrder<H>, ControlPlaneError>)
        requires
            old(self).inv(),
        ensures
            final(self).inv(),
            final(self).app() == old(self).app(),
            final(self).backend() == old(self).backend(),
            final(self).current() == old(self).current(),
            window_expired(old(self).current(), old(self).slots(), digest@, now_unix_nanos, final(self).slots(), r),
    {
        let i = match self.state.find(digest) {
            Some(i) => i,
            None => return Err(unknown_generation(digest)),
        };
        let record = &self.state.generations[i];
        assert(record@ == self.state@.record(digest@));
        if record.lifecycle != ControlLifecycle::Standby {
            return Err(rejected("rollback standby window has not expired"));
        }
        match deadline(record) {
            Ok(moment) => {
                if moment > now_unix_nanos {
                    return Err(rejected("rollback standby window has not expired"));
                }
            },
            Err(error) => return Err(error),
        }
        self.begin_retirement(digest, RetirementReason::RollbackWindowExpired)
    }

    /// The Generation that holds the route has Host resources, unless it already counts as failed.
    pub open spec fn healthy_active_is_live(self) -> bool {
        self.current().active_generation_spec_digest matches Some(active) ==> self.current().record(active).health == ControlHealth::Healthy
            ==> self.slots().dom().contains(active)
    }

    /// Whether the Generation that holds the route has Host resources, unless it already counts as failed.
    pub fn can_probe_active(&self) -> (r: bool)
        requires
            self.inv(),
        ensures
            r == self.healthy_active_is_live(),
    {
        match &self.state.active_generation_spec_digest {
            Some(active) => match self.state.find(active.as_str()) {
                Some(i) => {
                    assert(self.state.generations@[i as int]@ == self.state@.record(active@));
                    self.state.generations[i].health == ControlHealth::Failed || self.slots.contains_key(active.as_str())
                },
                None => true,
            },
            None => true,
        }
    }

    /// The resources of the Generation that holds the route, while it counts as healthy.
    pub fn probe_active(&self) -> (r: Option<&H>)
        requires
            self.inv(),
            self.healthy_active_is_live(),
        ensures
            match r {
                Some(handle) => {
                    let active = self.current().active_generation_spec_digest->Some_0;
                    &&& self.current().active_generation_spec_digest is Some
                    &&& self.current().record(active).health == ControlHealth::Healthy
                    &&& *handle == self.slots()[active].handle
                },
                None => self.current().active_generation_spec_digest matches Some(active) ==> self.current().record(active).health
                    == ControlHealth::Failed,
            },
    {
        match &self.state.active_generation_spec_digest {
            Some(active) => match self.state.find(active.as_str()) {
                Some(i) => {
                    assert(self.state.generations@[i as int]@ == self.state@.record(active@));
                    if self.state.generations[i].health == ControlHealth::Failed {
                        return None;
                    }
                    match self.slots.get(active.as_str()) {
                        Some(slot) => Some(&slot.handle),
                        None => None,
                    }
                },
                None => None,
            },
            None => None,
        }
    }

    /// Reconciles the active Generation's runtime health with durable control authority.
    ///
    /// `observed` is the terminal failure that the runtime reports for the resources that
    /// `probe_active` names. A failure is recorded once: a Generation that already counts as
    /// failed is left alone.
    pub fn reconcile_active_generation(&mut self, observed: Option<ControlPlaneError>, now_unix_nanos: u128) -> (r: Result<Option<GenerationFailureOutcome>, ControlPlaneError>)
        requires
            old(self).inv(),
        ensures
            final(self).inv(),
            final(self).app() == old(self).app(),
            final(self).slots() == old(self).slots(),
            reconciled(old(self).backend(), final(self).backend(), old(self).app(), old(self).current(), observed, now_unix_nanos, final(self).current(), r),
    {
        let digest = match &self.state.active_generation_spec_digest {
            Some(active) => active.clone(),
            None => return Ok(None),
        };
        match self.state.find(digest.as_str()) {
            Some(i) => {
                assert(self.state.generations@[i as int]@ == self.state@.record(digest@));
                if self.state.generations[i].health == ControlHealth::Failed {
                    return Ok(None);
                }
            },
            None => return Ok(None),
        }
        let failure = match observed {
            Some(failure) => failure,
            None => return Ok(None),
        };
        match self.mark_generation_failed(digest.as_str(), now_unix_nanos) {
            Ok(automatic_rollback) => Ok(
                Some(GenerationFailureOutcome { generation_spec_digest: digest, failure, automatic_rollback }),
            ),
            Err(error) => Err(error),
        }
    }

    /// Records the terminal failure of a Generation without the route and orders it to be stopped.
    pub fn fail_inactive(&mut self, digest: &str, now_unix_nanos: u128) -> (r: Result<StopOrder<H>, ControlPlaneError>)
        requires
            old(self).inv(),
            old(self).current().active_generation_spec_digest != Some(digest@),
        ensures
            final(self).inv(),
            final(self).app() == old(self).app(),
            inactive_failed(old(self).backend(), final(self).backend(), old(self).app(), old(self).current(), old(self).slots(), digest@, final(self).current(), final(self).slots(), r),
    {
        match self.mark_generation_failed(digest, now_unix_nanos) {
            Ok(_) => {},
            Err(error) => return Err(error),
        }
        self.begin_retirement(digest, RetirementReason::TerminalFailure)
    }

    /// The Generations that drain or stand by, in the order of their records.
    pub fn maintenance_candidates(&self) -> (r: Vec<String>)
        ensures
            texts(r@) == selected(self.current().generations, |record: RecordView| retained(record)),
    {
        let mut r: Vec<String> = Vec::new();
        let mut i: usize = 0;
        let ghost items = self.state@.generations;
        let ghost test = |record: RecordView| retained(record);
        assert(items.take(0) =~= Seq::empty());
        assert(texts(r@) =~= selected(items.take(0), test));
        while i < self.state.generations.len()
            invariant
                i <= self.state.generations.len(),
                items == self.state@.generations,
                test == (|record: RecordView| retained(record)),
                texts(r@) == selected(items.take(i as int), test),
            decreases self.state.generations.len() - i,
        {
            let record = &self.state.generations[i];
            let ghost before = r@;
            proof {
                let part = items.take(i + 1);
                assert(part.drop_last() =~= items.take(i as int));
                assert(part.last() == record@);
            }
            if record.lifecycle == ControlLifecycle::Draining || record.lifecycle == ControlLifecycle::Standby {
                r.push(record.generation_spec_digest.clone());
                assert(texts(r@) =~= texts(before).push(record@.generation_spec_digest));
            }
            i = i + 1;
        }
        assert(items.take(i as int) =~= items);
        r
    }

    /// The Generations without the route whose resources still count as healthy.
    pub fn inactive_candidates(&self) -> (r: Vec<String>)
        requires
            self.inv(),
        ensures
            texts(r@) == selected(
                self.current().generations,
                |record: RecordView| probed(record, self.current().active_generation_spec_digest, self.slots()),
            ),
    {
        let mut r: Vec<String> = Vec::new();
        let mut i: usize = 0;
        let ghost items = self.state@.generations;
        let ghost test = |record: RecordView| probed(record, self.current().active_generation_spec_digest, self.slots());
        assert(items.take(0) =~= Seq::empty());
        assert(texts(r@) =~= selected(items.take(0), test));
        while i < self.state.generations.len()
            invariant
                self.inv(),
                i <= self.state.generations.len(),
                items == self.state@.generations,
                test == (|record: RecordView| probed(record, self.current().active_generation_spec_digest, self.slots())),
                texts(r@) == selected(items.take(i as int), test),
            decreases self.state.generations.len() - i,
        {
            let record = &self.state.generations[i];
            let ghost before = r@;
            proof {
                let part = items.take(i + 1);
                assert(part.drop_last() =~= items.take(i as int));
                assert(part.last() == record@);
            }
            if record.health == ControlHealth::Healthy && (record.lifecycle == ControlLifecycle::Draining || record.lifecycle
                == ControlLifecycle::Standby) && !text::is_text(
                &self.state.active_generation_spec_digest,
                record.generation_spec_digest.as_str(),
            ) && self.slots.contains_key(record.generation_spec_digest.as_str()) {
                r.push(record.generation_spec_digest.clone());
                assert(texts(r@) =~= texts(before).push(record@.generation_spec_digest));
            }
            i = i + 1;
        }
        assert(items.take(i as int) =~= items);
        r
    }

    /// The resources of one Generation.
    pub fn handle(&self, digest: &str) -> (r: Option<&H>)
        requires
            self.inv(),
        ensures
            match r {
                Some(handle) => self.slots().dom().contains(digest@) && *handle == self.slots()[digest@].handle,
                None => !self.slots().dom().contains(digest@),
            },
    {
        match self.slots.get(digest) {
            Some(slot) => Some(&slot.handle),
            None => None,
        }
    }
}

/// What a maintenance pass reports of a failed Generation that it stopped.
pub fn inactive_failure_outcomes(digest: &str, failure: ControlPlaneError) -> (r: Vec<GenerationMaintenanceOutcome>)
    ensures
        r@.len() == 2,
        r@[0] matches GenerationMaintenanceOutcome::Failed(outcome) && outcome.generation_spec_digest@ == digest@ && outcome.failure == failure
            && outcome.automatic_rollback is None,
        r@[1] matches GenerationMaintenanceOutcome::Retired { generation_spec_digest, reason } && generation_spec_digest@ == digest@ && reason
            == RetirementReason::TerminalFailure,
{
    let mut r: Vec<GenerationMaintenanceOutcome> = Vec::new();
    r.push(
        GenerationMaintenanceOutcome::Failed(
            GenerationFailureOutcome { generation_spec_digest: digest.to_owned(), failure, automatic_rollback: None },
        ),
    );
    r.push(
        GenerationMaintenanceOutcome::Retired {
            generation_spec_digest: digest.to_owned(),
            reason: RetirementReason::TerminalFailure,
        },
    );
    r
}

/// The Generation drains or stands by.
pub open spec fn retained(record: RecordView) -> bool {
    record.lifecycle == ControlLifecycle::Draining || record.lifecycle == ControlLifecycle::Standby
}

/// The Generation has no route, counts as healthy and holds resources.
pub open spec fn probed<H>(record: RecordView, active: Option<Seq<char>>, slots: Map<Seq<char>, LiveSlot<H>>) -> bool {
    &&& record.health == ControlHealth::Healthy
    &&& retained(record)
    &&& active != Some(record.generation_spec_digest)
    &&& slots.dom().contains(record.generation_spec_digest)
}

/// The digests of the records that pass a test, in order.
pub open spec fn selected(items: Seq<RecordView>, test: spec_fn(RecordView) -> bool) -> Seq<Seq<char>>
    decreases items.len(),
{
    if items.len() == 0 {
        Seq::empty()
    } else if test(items.last()) {
        selected(items.drop_last(), test).push(items.last().generation_spec_digest)
    } else {
        selected(items.drop_last(), test)
    }
}

proof fn lemma_selected(items: Seq<RecordView>, test: spec_fn(RecordView) -> bool)
    ensures
        forall|i: int| 0 <= i < items.len() && test(#[trigger] items[i]) ==> selected(items, test).contains(items[i].generation_spec_digest),
        forall|digest: Seq<char>| #[trigger] selected(items, test).contains(digest) ==> exists|i: int|
            0 <= i < items.len() && test(#[trigger] items[i]) && items[i].generation_spec_digest == digest,
    decreases items.len(),
{
    if items.len() > 0 {
        let rest = items.drop_last();
        lemma_selected(rest, test);
        let earlier = selected(rest, test);
        let found = selected(items, test);
        assert forall|i: int| 0 <= i < items.len() && test(#[trigger] items[i]) implies found.contains(items[i].generation_spec_digest) by {
            if i < rest.len() {
                assert(rest[i] == items[i]);
                let m = choose|m: int| 0 <= m < earlier.len() && earlier[m] == rest[i].generation_spec_digest;
                assert(found[m] == earlier[m]);
            } else {
                assert(found[earlier.len() as int] == items[i].generation_spec_digest);
            }
        }
        assert forall|digest: Seq<char>| #[trigger] found.contains(digest) implies exists|i: int|
            0 <= i < items.len() && test(#[trigger] items[i]) && items[i].generation_spec_digest == digest by {
            let m = choose|m: int| 0 <= m < found.len() && found[m] == digest;
            if m < earlier.len() {
                assert(earlier[m] == digest);
                assert(earlier.contains(digest));
                let i = choose|i: int| 0 <= i < rest.len() && test(#[trigger] rest[i]) && rest[i].generation_spec_digest == digest;
                assert(items[i] == rest[i]);
            } else {
                assert(items[items.len() - 1] == items.last());
            }
        }
    }
}

/// A pass maintains every Generation that drains or stands by and no other, and asks the runtime of every
/// such Generation without the route that holds resources and still counts as healthy.
pub proof fn a_pass_reaches_every_retained_generation<H>(
    items: Seq<RecordView>,
    active: Option<Seq<char>>,
    slots: Map<Seq<char>, LiveSlot<H>>,
    i: int,
)
    requires
        0 <= i < items.len(),
        forall|a: int, b: int|
            0 <= a < b < items.len() ==> (#[trigger] items[a]).generation_spec_digest != (#[trigger] items[b]).generation_spec_digest,
    ensures
        selected(items, |record: RecordView| retained(record)).contains(items[i].generation_spec_digest) <==> items[i].lifecycle
            == ControlLifecycle::Draining || items[i].lifecycle == ControlLifecycle::Standby,
        selected(items, |record: RecordView| probed(record, active, slots)).contains(items[i].generation_spec_digest) <==> {
            &&& items[i].lifecycle == ControlLifecycle::Draining || items[i].lifecycle == ControlLifecycle::Standby
            &&& items[i].health == ControlHealth::Healthy
            &&& active != Some(items[i].generation_spec_digest)
            &&& slots.dom().contains(items[i].generation_spec_digest)
        },
{
    let first = |record: RecordView| retained(record);
    let second = |record: RecordView| probed(record, active, slots);
    lemma_selected(items, first);
    lemma_selected(items, second);
    let digest = items[i].generation_spec_digest;
    if selected(items, first).contains(digest) {
        let k = choose|k: int| 0 <= k < items.len() && first(#[trigger] items[k]) && items[k].generation_spec_digest == digest;
        assert(k == i) by {
            if k < i {
                assert(items[k].generation_spec_digest != items[i].generation_spec_digest);
            } else if i < k {
                assert(items[i].generation_spec_digest != items[k].generation_spec_digest);
            }
        }
    }
    if selected(items, second).contains(digest) {
        let k = choose|k: int| 0 <= k < items.len() && second(#[trigger] items[k]) && items[k].generation_spec_digest == digest;
        assert(k == i) by {
            if k < i {
                assert(items[k].generation_spec_digest != items[i].generation_spec_digest);
            } else if i < k {
                assert(items[i].generation_spec_digest != items[k].generation_spec_digest);
            }
        }
    }
}

} // verus!
