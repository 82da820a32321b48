//! One automatic maintenance pass over every Generation.
//!
//! A pass reconciles the Generation that holds the route, then settles the failures of the
//! others, then advances every lifecycle edge that is due.
use vstd::prelude::*;
use vstd::string::*;

use super::retirement::{inactive_failed, inactive_failure_outcomes, maintained, probed, reconciled, retained, selected, MaintenanceStep, StopOrder};
use super::{failure, reports, DurableGenerationSupervisor, GenerationFailureOutcome, GenerationMaintenanceOutcome, LiveSlot};
use crate::durable::{ControlStateStore, RecordView, RetirementReason, StateView};
use crate::error::ControlPlaneError;
use crate::lifecycle::{marked, retired_record};
use crate::text;
use crate::text::texts;

verus! {

/// A maintenance pass that is under way.
#[derive(Debug)]
pub struct MaintenancePass {
    now_unix_nanos: u128,
    failed: Vec<(String, ControlPlaneError)>,
    candidates: Option<Vec<String>>,
    outcomes: Vec<GenerationMaintenanceOutcome>,
}

/// A Generation whose resources are being released in a maintenance pass.
#[derive(Debug)]
pub struct Stopping {
    generation_spec_digest: String,
    reason: RetirementReason,
    failure: Option<ControlPlaneError>,
}

/// What a maintenance pass needs next.
#[derive(Debug)]
pub enum PassStep<H> {
    /// One Generation was settled: go on.
    Advanced,
    /// Stop the Generation within the timeout, then hand the outcome to `stopped`.
    Stop { handle: H, drain_timeout_nanos: u64, stopping: Stopping },
    /// Every Generation was settled: finish.
    Finished,
}

impl Stopping {
    /// The Generation that is being stopped.
    pub closed spec fn stops(self) -> Seq<char> {
        self.generation_spec_digest@
    }

    /// Why it retires.
    pub closed spec fn why(self) -> RetirementReason {
        self.reason
    }

    /// The terminal failure that the pass found, where it retires for one.
    pub closed spec fn found(self) -> Option<ControlPlaneError> {
        self.failure
    }
}

/// The failures with their Generations, in order.
pub open spec fn noted(failed: Seq<(String, ControlPlaneError)>) -> Seq<(Seq<char>, ControlPlaneError)> {
    failed.map_values(|entry: (String, ControlPlaneError)| (entry.0@, entry.1))
}

/// The report that a Generation stands by.
pub open spec fn reports_standby(outcome: GenerationMaintenanceOutcome, digest: Seq<char>) -> bool {
    outcome matches GenerationMaintenanceOutcome::Standby { generation_spec_digest } && generation_spec_digest@ == digest
}

/// The report that a Generation retired.
pub open spec fn reports_retired(outcome: GenerationMaintenanceOutcome, digest: Seq<char>, why: RetirementReason) -> bool {
    outcome matches GenerationMaintenanceOutcome::Retired { generation_spec_digest, reason } && generation_spec_digest@ == digest && reason == why
}

/// The report of a terminal failure that no rollback answered.
pub open spec fn reports_failed(outcome: GenerationMaintenanceOutcome, digest: Seq<char>, found: ControlPlaneError) -> bool {
    outcome matches GenerationMaintenanceOutcome::Failed(outcome) && outcome.generation_spec_digest@ == digest && outcome.failure == found
        && outcome.automatic_rollback is None
}

/// What a pass that has just begun reports of the Generation that held the route.
pub open spec fn opening(outcomes: Seq<GenerationMaintenanceOutcome>, found: Option<GenerationFailureOutcome>) -> bool {
    match found {
        None => outcomes.len() == 0,
        Some(outcome) => outcomes == seq![GenerationMaintenanceOutcome::Failed(outcome)],
    }
}

/// What came of one step that maintained a Generation.
pub open spec fn candidate_step<H, S: ControlStateStore>(
    store: S,
    store_after: S,
    app: Seq<char>,
    before: StateView,
    slots: Map<Seq<char>, LiveSlot<H>>,
    digest: Seq<char>,
    now: u128,
    after: StateView,
    slots_after: Map<Seq<char>, LiveSlot<H>>,
    reported: Seq<GenerationMaintenanceOutcome>,
    reported_after: Seq<GenerationMaintenanceOutcome>,
    r: Result<PassStep<H>, ControlPlaneError>,
) -> bool {
    match r {
        Err(error) => reported_after == reported && maintained(store, store_after, app, before, slots, digest, now, after, slots_after, Err(error)),
        Ok(PassStep::Advanced) => {
            ||| reported_after == reported && maintained(store, store_after, app, before, slots, digest, now, after, slots_after, Ok(MaintenanceStep::Idle))
            ||| maintained(store, store_after, app, before, slots, digest, now, after, slots_after, Ok(MaintenanceStep::StoodBy)) && reported_after.len()
                == reported.len() + 1 && reported_after.drop_last() == reported && reports_standby(reported_after.last(), digest)
        },
        Ok(PassStep::Stop { handle, drain_timeout_nanos, stopping }) => {
            &&& reported_after == reported
            &&& stopping.stops() == digest
            &&& stopping.found() is None
            &&& exists|order: StopOrder<H>| {
                &&& #[trigger] maintained(store, store_after, app, before, slots, digest, now, after, slots_after, Ok(MaintenanceStep::Stop(order)))
                &&& order.handle == handle && order.drain_timeout_nanos == drain_timeout_nanos && order.reason == stopping.why()
            }
        },
        Ok(PassStep::Finished) => false,
    }
}

/// What came of one step that settled the failure of a Generation without the route.
pub open spec fn failed_step<H, S: ControlStateStore>(
    store: S,
    store_after: S,
    app: Seq<char>,
    before: StateView,
    slots: Map<Seq<char>, LiveSlot<H>>,
    entry: (Seq<char>, ControlPlaneError),
    after: StateView,
    slots_after: Map<Seq<char>, LiveSlot<H>>,
    r: Result<PassStep<H>, ControlPlaneError>,
) -> bool {
    if before.active_generation_spec_digest == Some(entry.0) {
        store_after == store && after == before && slots_after == slots && r == Ok::<PassStep<H>, ControlPlaneError>(PassStep::Advanced)
    } else {
        match r {
            Err(error) => inactive_failed(store, store_after, app, before, slots, entry.0, after, slots_after, Err(error)),
            Ok(PassStep::Stop { handle, drain_timeout_nanos, stopping }) => {
                &&& stopping.stops() == entry.0
                &&& stopping.found() == Some(entry.1)
                &&& exists|order: StopOrder<H>| {
                    &&& #[trigger] inactive_failed(store, store_after, app, before, slots, entry.0, after, slots_after, Ok(order))
                    &&& order.handle == handle && order.drain_timeout_nanos == drain_timeout_nanos && order.reason == stopping.why()
                }
            },
            Ok(_) => false,
        }
    }
}

/// What one step of a pass comes to: the failures that are noted, the Generations that remain and the
/// reports, before and after it.
pub open spec fn pass_advanced<H, S: ControlStateStore>(
    store: S,
    store_after: S,
    app: Seq<char>,
    before: StateView,
    slots: Map<Seq<char>, LiveSlot<H>>,
    now: u128,
    pass: (Seq<(Seq<char>, ControlPlaneError)>, Option<Seq<Seq<char>>>, Seq<GenerationMaintenanceOutcome>),
    after: StateView,
    slots_after: Map<Seq<char>, LiveSlot<H>>,
    pass_after: (Seq<(Seq<char>, ControlPlaneError)>, Option<Seq<Seq<char>>>, Seq<GenerationMaintenanceOutcome>),
    r: Result<PassStep<H>, ControlPlaneError>,
) -> bool {
    if pass.0.len() > 0 {
        &&& pass_after.0 == pass.0.drop_first()
        &&& pass_after.1 == pass.1
        &&& pass_after.2 == pass.2
        &&& failed_step(store, store_after, app, before, slots, pass.0[0], after, slots_after, r)
    } else {
        &&& pass_after.0 == pass.0
        &&& match pass.1 {
            None => {
                &&& store_after == store && after == before && slots_after == slots
                &&& pass_after.1 == Some(selected(before.generations, |record: RecordView| retained(record)))
                &&& pass_after.2 == pass.2
                &&& r == Ok::<PassStep<H>, ControlPlaneError>(PassStep::Advanced)
            },
            Some(candidates) => if candidates.len() == 0 {
                &&& store_after == store && after == before && slots_after == slots
                &&& pass_after.1 == pass.1
                &&& pass_after.2 == pass.2
                &&& r == Ok::<PassStep<H>, ControlPlaneError>(PassStep::Finished)
            } else {
                &&& pass_after.1 == Some(candidates.drop_first())
                &&& candidate_step(store, store_after, app, before, slots, candidates[0], now, after, slots_after, pass.2, pass_after.2, r)
            },
        }
    }
}

/// What a pass reports of a Generation that was stopped.
pub open spec fn stop_reported(
    reported: Seq<GenerationMaintenanceOutcome>,
    stopping: Stopping,
    after: Seq<GenerationMaintenanceOutcome>,
    r: Result<(), ControlPlaneError>,
) -> bool {
    match r {
        Err(_) => after == reported,
        Ok(_) => match stopping.found() {
            None => after.len() == reported.len() + 1 && after.take(reported.len() as int) == reported && reports_retired(
                after[reported.len() as int],
                stopping.stops(),
                stopping.why(),
            ),
            Some(found) => {
                &&& after.len() == reported.len() + 2
                &&& after.take(reported.len() as int) == reported
                &&& reports_failed(after[reported.len() as int], stopping.stops(), found)
                &&& reports_retired(after[reported.len() as int + 1], stopping.stops(), RetirementReason::TerminalFailure)
            },
        },
    }
}

/// A pass settles each Generation once and in order, those that failed before those that drain or stand
/// by, and is finished only when none is left. A Generation that stands by from now on is reported as
/// such; one that is stopped is handed out with its own resources, and nothing is reported of it yet.
pub proof fn a_pass_settles_each_generation_once<H, S: ControlStateStore>(
    store: S,
    store_after: S,
    app: Seq<char>,
    before: StateView,
    slots: Map<Seq<char>, LiveSlot<H>>,
    now: u128,
    pass: (Seq<(Seq<char>, ControlPlaneError)>, Option<Seq<Seq<char>>>, Seq<GenerationMaintenanceOutcome>),
    after: StateView,
    slots_after: Map<Seq<char>, LiveSlot<H>>,
    pass_after: (Seq<(Seq<char>, ControlPlaneError)>, Option<Seq<Seq<char>>>, Seq<GenerationMaintenanceOutcome>),
    r: Result<PassStep<H>, ControlPlaneError>,
)
    requires
        pass_advanced(store, store_after, app, before, slots, now, pass, after, slots_after, pass_after, r),
    ensures
        r is Ok && r->Ok_0 is Finished <==> pass.0.len() == 0 && (pass.1 matches Some(candidates) && candidates.len() == 0),
        pass.0.len() > 0 ==> pass_after.0 == pass.0.drop_first() && pass_after.1 == pass.1 && pass_after.2 == pass.2,
        pass.0.len() == 0 && pass.1 is Some && pass.1->Some_0.len() > 0 ==> pass_after.1 == Some(pass.1->Some_0.drop_first()),
        pass.0.len() == 0 && pass.1 is None ==> pass_after.1 is Some && after == before && slots_after == slots,
        r matches Ok(PassStep::Stop { handle, drain_timeout_nanos, stopping }) ==> {
            let digest = if pass.0.len() > 0 { pass.0[0].0 } else { pass.1->Some_0[0] };
            &&& stopping.stops() == digest
            &&& slots.dom().contains(digest)
            &&& handle == slots[digest].handle
            &&& slots_after == slots.remove(digest)
            &&& stopping.found() == (if pass.0.len() > 0 { Some(pass.0[0].1) } else { None })
            &&& pass.0.len() > 0 ==> stopping.why() == RetirementReason::TerminalFailure
            &&& pass_after.2 == pass.2
        },
        !(r is Ok && r->Ok_0 is Stop) ==> slots_after == slots,
        pass_after.2.len() > pass.2.len() ==> {
            &&& pass_after.2.len() == pass.2.len() + 1
            &&& pass_after.2.last() matches GenerationMaintenanceOutcome::Standby { generation_spec_digest } && generation_spec_digest@
                == pass.1->Some_0[0]
        },
        pass.0.len() > 0 && before.active_generation_spec_digest == Some(pass.0[0].0) ==> after == before && r is Ok && r->Ok_0 is Advanced,
{
}

/// A stopped Generation is reported as retired, for its reason, once its record says so; one that failed
/// is reported as failed first, with the failure that was found, and as retired for it.
pub proof fn a_stop_is_reported_by_its_reason(
    reported: Seq<GenerationMaintenanceOutcome>,
    stopping: Stopping,
    after: Seq<GenerationMaintenanceOutcome>,
    r: Result<(), ControlPlaneError>,
)
    requires
        stop_reported(reported, stopping, after, r),
    ensures
        r is Err ==> after == reported,
        r is Ok ==> {
            &&& after.len() > reported.len()
            &&& after.take(reported.len() as int) == reported
            &&& after.last() matches GenerationMaintenanceOutcome::Retired { generation_spec_digest, reason } && {
                &&& generation_spec_digest@ == stopping.stops()
                &&& stopping.found() is None ==> reason == stopping.why()
                &&& stopping.found() is Some ==> reason == RetirementReason::TerminalFailure
            }
            &&& stopping.found() matches Some(found) ==> (after[after.len() - 2] matches GenerationMaintenanceOutcome::Failed(outcome) && {
                &&& outcome.generation_spec_digest@ == stopping.stops()
                &&& outcome.failure == found
                &&& outcome.automatic_rollback is None
            })
            &&& stopping.found() is None ==> after.len() == reported.len() + 1
            &&& stopping.found() is Some ==> after.len() == reported.len() + 2
        },
{
}

impl MaintenancePass {
    /// The moment of the pass.
    pub closed spec fn now(self) -> u128 {
        self.now_unix_nanos
    }

    /// The failures of Generations without the route that are still to be settled.
    pub closed spec fn failures(self) -> Seq<(Seq<char>, ControlPlaneError)> {
        noted(self.failed@)
    }

    /// The Generations that are still to be maintained, once they are known.
    pub closed spec fn remaining(self) -> Option<Seq<Seq<char>>> {
        match self.candidates {
            Some(candidates) => Some(texts(candidates@)),
            None => None,
        }
    }

    /// What the pass has reported so far.
    pub closed spec fn reported(self) -> Seq<GenerationMaintenanceOutcome> {
        self.outcomes@
    }

    /// Begins a pass with the Generation that holds the route, given the terminal failure that
    /// its runtime reports, and names the Generations whose runtime is to be asked next.
    pub fn begin<H, S: ControlStateStore>(
        supervisor: &mut DurableGenerationSupervisor<H, S>,
        observed: Option<ControlPlaneError>,
        now_unix_nanos: u128,
    ) -> (r: Result<(MaintenancePass, Vec<String>), ControlPlaneError>)
        requires
            old(supervisor).inv(),
        ensures
            final(supervisor).inv(),
            final(supervisor).app() == old(supervisor).app(),
            final(supervisor).slots() == old(supervisor).slots(),
            match r {
                Err(error) => reconciled(old(supervisor).backend(), final(supervisor).backend(), old(supervisor).app(), old(supervisor).current(), observed, now_unix_nanos, final(supervisor).current(), Err(error)),
                Ok((pass, probes)) => {
                    &&& exists|found: Option<GenerationFailureOutcome>| {
                        &&& #[trigger] reconciled(old(supervisor).backend(), final(supervisor).backend(), old(supervisor).app(), old(supervisor).current(), observed, now_unix_nanos, final(supervisor).current(), Ok(found))
                        &&& opening(pass.reported(), found)
                    }
                    &&& pass.now() == now_unix_nanos
                    &&& pass.failures().len() == 0
                    &&& pass.remaining() is None
                    &&& texts(probes@) == selected(
                        final(supervisor).current().generations,
                        |record: RecordView|
                            probed(record, final(supervisor).current().active_generation_spec_digest, final(supervisor).slots()),
                    )
                },
            },
    {
        let ghost store = supervisor.backend();
        let ghost app = supervisor.app();
        let ghost before = supervisor.current();
        let found = match supervisor.reconcile_active_generation(observed, now_unix_nanos) {
            Ok(found) => found,
            Err(error) => return Err(error),
        };
        let ghost outcome = found;
        assert(reconciled(store, supervisor.backend(), app, before, observed, now_unix_nanos, supervisor.current(), Ok(outcome)));
        let mut outcomes: Vec<GenerationMaintenanceOutcome> = Vec::new();
        match found {
            Some(failure) => outcomes.push(GenerationMaintenanceOutcome::Failed(failure)),
            None => {},
        }
        assert(opening(outcomes@, outcome));
        let probes = supervisor.inactive_candidates();
        let pass = MaintenancePass { now_unix_nanos, failed: Vec::new(), candidates: None, outcomes };
        Ok((pass, probes))
    }

    /// Notes the terminal failure that the runtime reports for a Generation without the route.
    pub fn note_failed(&mut self, digest: String, failure: ControlPlaneError)
        ensures
            final(self).failures() == old(self).failures().push((digest@, failure)),
            final(self).now() == old(self).now(),
            final(self).remaining() == old(self).remaining(),
            final(self).reported() == old(self).reported(),
    {
        let ghost before = self.failures();
        self.failed.push((digest, failure));
        assert(self.failures() =~= before.push((digest@, failure)));
    }

    /// Settles one Generation: first those that were noted as failed, then those that drain or
    /// stand by. A Generation that took the route since is left to the next pass.
    pub fn next<H, S: ControlStateStore>(&mut self, supervisor: &mut DurableGenerationSupervisor<H, S>) -> (r: Result<PassStep<H>, ControlPlaneError>)
        requires
            old(supervisor).inv(),
        ensures
            final(supervisor).inv(),
            final(supervisor).app() == old(supervisor).app(),
            final(self).now() == old(self).now(),
            pass_advanced(
                old(supervisor).backend(),
                final(supervisor).backend(),
                old(supervisor).app(),
                old(supervisor).current(),
                old(supervisor).slots(),
                old(self).now(),
                (old(self).failures(), old(self).remaining(), old(self).reported()),
                final(supervisor).current(),
                final(supervisor).slots(),
                (final(self).failures(), final(self).remaining(), final(self).reported()),
                r,
            ),
    {
        let ghost store = supervisor.backend();
        let ghost app = supervisor.app();
        let ghost before = supervisor.current();
        let ghost slots = supervisor.slots();
        if self.failed.len() > 0 {
            let ghost noted_before = self.failures();
            let (digest, failure) = self.failed.remove(0);
            assert(self.failures() =~= noted_before.drop_first());
            if text::is_text(&supervisor.state().active_generation_spec_digest, digest.as_str()) {
                return Ok(PassStep::Advanced);
            }
            return match supervisor.fail_inactive(digest.as_str(), self.now_unix_nanos) {
                Ok(order) => {
                    assert(inactive_failed(store, supervisor.backend(), app, before, slots, digest@, supervisor.current(), supervisor.slots(), Ok(order)));
                    Ok(
                        PassStep::Stop {
                            handle: order.handle,
                            drain_timeout_nanos: order.drain_timeout_nanos,
                            stopping: Stopping { generation_spec_digest: digest, reason: order.reason, failure: Some(failure) },
                        },
                    )
                },
                Err(error) => Err(error),
            };
        }
        let mut candidates = match self.candidates.take() {
            Some(candidates) => candidates,
            None => {
                self.candidates = Some(supervisor.maintenance_candidates());
                return Ok(PassStep::Advanced);
            },
        };
        if candidates.len() == 0 {
            self.candidates = Some(candidates);
            return Ok(PassStep::Finished);
        }
        let ghost listed = texts(candidates@);
        let digest = candidates.remove(0);
        assert(texts(candidates@) =~= listed.drop_first());
        self.candidates = Some(candidates);
        match supervisor.maintain_candidate(digest.as_str(), self.now_unix_nanos) {
            Ok(MaintenanceStep::Idle) => Ok(PassStep::Advanced),
            Ok(MaintenanceStep::StoodBy) => {
                let ghost reported = self.outcomes@;
                self.outcomes.push(GenerationMaintenanceOutcome::Standby { generation_spec_digest: digest });
                assert(self.outcomes@.drop_last() =~= reported);
                Ok(PassStep::Advanced)
            },
            Ok(MaintenanceStep::Stop(order)) => {
                assert(maintained(store, supervisor.backend(), app, before, slots, digest@, self.now_unix_nanos, supervisor.current(), supervisor.slots(), Ok(MaintenanceStep::Stop(order))));
                Ok(
                    PassStep::Stop {
                        handle: order.handle,
                        drain_timeout_nanos: order.drain_timeout_nanos,
                        stopping: Stopping { generation_spec_digest: digest, reason: order.reason, failure: None },
                    },
                )
            },
            Err(error) => Err(error),
        }
    }

    /// Takes what came of stopping a Generation: retires its record and reports it.
    pub fn stopped<H, S: ControlStateStore>(
        &mut self,
        supervisor: &mut DurableGenerationSupervisor<H, S>,
        stopping: Stopping,
        shutdown: Result<(), ControlPlaneError>,
    ) -> (r: Result<(), ControlPlaneError>)
        requires
            old(supervisor).inv(),
            !old(supervisor).slots().dom().contains(stopping.stops()),
        ensures
            final(supervisor).inv(),
            final(supervisor).app() == old(supervisor).app(),
            final(supervisor).slots() == old(supervisor).slots(),
            final(self).now() == old(self).now(),
            final(self).failures() == old(self).failures(),
            final(self).remaining() == old(self).remaining(),
            reports(
                old(supervisor).backend(),
                final(supervisor).backend(),
                old(supervisor).app(),
                old(supervisor).current(),
                marked(
                    old(supervisor).current(),
                    stopping.stops(),
                    retired_record(old(supervisor).current().record(stopping.stops()), stopping.why(), shutdown is Err),
                ),
                final(supervisor).current(),
                failure(r),
                failure(shutdown),
            ),
            stop_reported(old(self).reported(), stopping, final(self).reported(), r),
    {
        match supervisor.finish_retirement(stopping.generation_spec_digest.as_str(), stopping.reason, shutdown) {
            Ok(_) => {},
            Err(error) => return Err(error),
        }
        let ghost reported = self.outcomes@;
        match stopping.failure {
            Some(failure) => {
                let mut outcomes = inactive_failure_outcomes(stopping.generation_spec_digest.as_str(), failure);
                self.outcomes.append(&mut outcomes);
            },
            None => self.outcomes.push(
                GenerationMaintenanceOutcome::Retired { generation_spec_digest: stopping.generation_spec_digest, reason: stopping.reason },
            ),
        }
        assert(self.outcomes@.take(reported.len() as int) =~= reported);
        Ok(())
    }

    /// Ends a pass with what it reported.
    pub fn finish(self) -> (r: Vec<GenerationMaintenanceOutcome>)
        ensures
            r@ == self.reported(),
    {
        self.outcomes
    }
}

} // verus!
