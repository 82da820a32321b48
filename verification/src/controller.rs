//! Decisions of the single-owner loop that advances App Generation lifecycle authority.
use vstd::prelude::*;
use vstd::string::*;

use crate::durable::{ControlStateStore, DurableControlState, StateView};
use crate::durable_supervisor::{attempted, failure, DurableGenerationSupervisor, DurableTransitionOutcome, GenerationMaintenanceOutcome, LiveSlot};
use crate::error::{rejected, rejection, ControlPlaneError, ErrorView};
use crate::lifecycle::shutdown_begun;

verus! {

/// Operator-visible events emitted by the single App Generation authority.
#[derive(Clone, Debug, PartialEq, Eq)]
pub enum GenerationControllerEvent {
    Transitioned(DurableTransitionOutcome),
    Maintained(GenerationMaintenanceOutcome),
    Suspended,
    SuspensionStarted,
    ShutdownStarted,
    Stopped,
}

/// Single-owner loop state: the Supervisor and whether it is shutting down.
#[derive(Debug)]
pub struct GenerationController<H, S: ControlStateStore> {
    supervisor: DurableGenerationSupervisor<H, S>,
    maintenance_interval_nanos: u128,
    shutting_down: bool,
}

/// What the loop does after one step.
#[derive(Debug)]
pub enum LoopDecision {
    /// Report the failure to everyone who waits for the shutdown, and end.
    Fail(ControlPlaneError),
    /// Report that the loop stopped, and end with the state.
    Stop(DurableControlState),
    /// Report the state to everyone who waits for the shutdown, and end.
    Finish(DurableControlState),
    /// Go on.
    Continue,
}

/// What the loop does with the outcome of a requested suspension.
#[derive(Debug)]
pub enum SuspendReply {
    /// Report the suspension and end with the state.
    Suspended(DurableControlState),
    /// Report the refusal and go on.
    Refused(ControlPlaneError),
    /// Report the failure and end with it.
    Fatal(ControlPlaneError),
}

/// What follows a requested suspension.
pub open spec fn suspend_settled(outcome: Result<DurableControlState, ControlPlaneError>, r: SuspendReply) -> bool {
    match outcome {
        Ok(state) => r == SuspendReply::Suspended(state),
        Err(error) => if error@ is TransitionRejected {
            r == SuspendReply::Refused(error)
        } else {
            r == SuspendReply::Fatal(error)
        },
    }
}

/// Whether the loop goes on after one step, and with what it ends.
pub open spec fn step_followed<H>(
    step: Result<Option<DurableControlState>, ControlPlaneError>,
    closing: bool,
    slots: Map<Seq<char>, LiveSlot<H>>,
    current: StateView,
    r: LoopDecision,
) -> bool {
    match step {
        Err(error) => r == LoopDecision::Fail(error),
        Ok(Some(state)) => r == LoopDecision::Stop(state),
        Ok(None) => if closing && slots == Map::<Seq<char>, LiveSlot<H>>::empty() {
            r matches LoopDecision::Finish(state) && state@ == current
        } else {
            r == LoopDecision::Continue
        },
    }
}

/// A shutdown begins once: the first request takes the route away, and later ones change nothing.
pub open spec fn shutdown_started<S: ControlStateStore>(
    store: S,
    store_after: S,
    app: Seq<char>,
    before: StateView,
    was_closing: bool,
    now: Result<u128, ControlPlaneError>,
    after: StateView,
    is_closing: bool,
    r: Result<bool, ControlPlaneError>,
) -> bool {
    if was_closing {
        r == Ok::<bool, ControlPlaneError>(false) && store_after == store && after == before && is_closing
    } else {
        match now {
            Err(error) => r == Err::<bool, ControlPlaneError>(error) && store_after == store && after == before && !is_closing,
            Ok(now) => {
                &&& attempted(store, store_after, app, before, shutdown_begun(before, now), after, failure(r))
                &&& is_closing == (r is Ok)
                &&& r is Ok ==> r == Ok::<bool, ControlPlaneError>(true)
            },
        }
    }
}

/// A suspension that succeeded or failed for good ends the loop, and one that was refused leaves it
/// running; each is answered with what came of it. The loop ends otherwise only on a failure, or once it
/// is closing and no Generation holds resources any more.
pub proof fn the_loop_ends_only_when_it_is_done<H>(
    outcome: Result<DurableControlState, ControlPlaneError>,
    reply: SuspendReply,
    step: Result<Option<DurableControlState>, ControlPlaneError>,
    closing: bool,
    slots: Map<Seq<char>, LiveSlot<H>>,
    current: StateView,
    r: LoopDecision,
    digest: Seq<char>,
)
    requires
        suspend_settled(outcome, reply),
        step_followed(step, closing, slots, current, r),
    ensures
        outcome matches Ok(state) ==> (reply matches SuspendReply::Suspended(told) && told == state),
        outcome matches Err(error) ==> match reply {
            SuspendReply::Suspended(_) => false,
            SuspendReply::Refused(told) => told == error && error is TransitionRejected,
            SuspendReply::Fatal(told) => told == error && !(error is TransitionRejected),
        },
        step matches Err(error) ==> (r matches LoopDecision::Fail(told) && told == error),
        step matches Ok(Some(state)) ==> (r matches LoopDecision::Stop(told) && told == state),
        step matches Ok(None) ==> {
            &&& r is Continue || r is Finish
            &&& !closing ==> r is Continue
            &&& slots.dom().contains(digest) ==> r is Continue
            &&& closing && slots.dom() == Set::<Seq<char>>::empty() ==> r is Finish
            &&& r matches LoopDecision::Finish(state) ==> state@ == current
        },
{
    if slots.dom() == Set::<Seq<char>>::empty() {
        assert(slots =~= Map::empty());
    }
}

/// A shutdown takes the route away when it begins, and it begins once: a request after that reports so
/// and changes nothing, and one that failed leaves the loop open.
pub proof fn a_shutdown_begins_once<S: ControlStateStore>(
    store: S,
    store_after: S,
    app: Seq<char>,
    before: StateView,
    was_closing: bool,
    now: Result<u128, ControlPlaneError>,
    after: StateView,
    is_closing: bool,
    r: Result<bool, ControlPlaneError>,
)
    requires
        shutdown_started(store, store_after, app, before, was_closing, now, after, is_closing, r),
    ensures
        r is Ok ==> is_closing && r->Ok_0 == !was_closing,
        r is Err ==> !is_closing && after == before,
        was_closing ==> r is Ok && after == before && store_after == store,
        r == Ok::<bool, ControlPlaneError>(true) ==> after.active_generation_spec_digest is None && after.revision == before.revision + 1,
{
}

/// Decides what follows a requested suspension: a refusal leaves the loop running, any other
/// failure ends it.
pub fn settle_suspend(outcome: Result<DurableControlState, ControlPlaneError>) -> (r: SuspendReply)
    ensures
        suspend_settled(outcome, r),
{
    match outcome {
        Ok(state) => SuspendReply::Suspended(state),
        Err(ControlPlaneError::TransitionRejected { detail }) => SuspendReply::Refused(
            ControlPlaneError::TransitionRejected { detail },
        ),
        Err(error) => SuspendReply::Fatal(error),
    }
}

/// The deadline of a suspension that is requested now, on a clock that ends at `clock_end`.
pub open spec fn suspension_deadline(now_nanos: u128, timeout_nanos: u128, clock_end: u128) -> Result<nat, Seq<char>> {
    if timeout_nanos == 0 {
        Err("Host suspension timeout must be nonzero"@)
    } else if now_nanos + timeout_nanos > clock_end {
        Err("Host suspension deadline exceeds monotonic clock range"@)
    } else {
        Ok((now_nanos + timeout_nanos) as nat)
    }
}

/// The deadline that a request for a suspension gets: the one that is running, or its own.
pub open spec fn suspension_joined(running: Option<u128>, now_nanos: u128, timeout_nanos: u128, clock_end: u128) -> Result<u128, Seq<char>> {
    match suspension_deadline(now_nanos, timeout_nanos, clock_end) {
        Err(detail) => Err(detail),
        Ok(deadline) => match running {
            Some(first) => Ok(first),
            None => Ok(deadline as u128),
        },
    }
}

/// The deadline that is running after a series of requests, each with its time, its timeout and the
/// end of its clock. A request that is refused starts none.
pub open spec fn running_after(running: Option<u128>, requests: Seq<(u128, u128, u128)>) -> Option<u128>
    decreases requests.len(),
{
    if requests.len() == 0 {
        running
    } else {
        let before = running_after(running, requests.drop_last());
        match suspension_joined(before, requests.last().0, requests.last().1, requests.last().2) {
            Ok(deadline) => Some(deadline),
            Err(_) => before,
        }
    }
}

/// Suspensions that are requested while one is running join it: all of them get the one deadline
/// that the first request set, and none extends it.
pub proof fn joined_suspensions_share_one_deadline(first: u128, requests: Seq<(u128, u128, u128)>, i: int)
    requires
        0 <= i < requests.len(),
    ensures
        running_after(Some(first), requests) == Some(first),
        suspension_joined(running_after(Some(first), requests.take(i)), requests[i].0, requests[i].1, requests[i].2) matches Ok(deadline)
            ==> deadline == first,
{
    lemma_running_stays(first, requests);
    lemma_running_stays(first, requests.take(i));
}

proof fn lemma_running_stays(first: u128, requests: Seq<(u128, u128, u128)>)
    ensures
        running_after(Some(first), requests) == Some(first),
    decreases requests.len(),
{
    if requests.len() > 0 {
        lemma_running_stays(first, requests.drop_last());
    }
}

/// The deadline that a requested suspension runs under. The first request sets it; later ones
/// join it and do not extend it.
pub fn request_suspension(running: Option<u128>, now_nanos: u128, timeout_nanos: u128, clock_end: u128) -> (r: Result<u128, ControlPlaneError>)
    requires
        now_nanos <= clock_end,
    ensures
        match suspension_joined(running, now_nanos, timeout_nanos, clock_end) {
            Err(detail) => failure(r) == Some(rejection(detail)),
            Ok(deadline) => r == Ok::<u128, ControlPlaneError>(deadline),
        },
{
    if timeout_nanos == 0 {
        return Err(rejected("Host suspension timeout must be nonzero"));
    }
    if timeout_nanos > clock_end - now_nanos {
        return Err(rejected("Host suspension deadline exceeds monotonic clock range"));
    }
    match running {
        Some(first) => Ok(first),
        None => Ok(now_nanos + timeout_nanos),
    }
}

/// What a request for a suspension within a deadline comes to.
#[derive(Debug)]
pub enum SuspensionRequest {
    /// A suspension has ended: this is its outcome.
    Ended(Result<DurableControlState, ControlPlaneError>),
    /// A suspension runs until the deadline: wait for its outcome.
    Running(u128),
}

/// The outcome that answers a request for a suspension, where one is recorded; else the deadline of the
/// suspension that it joins or starts, or its refusal.
pub open spec fn suspension_requested(
    recorded: Option<Result<DurableControlState, ControlPlaneError>>,
    running: Option<u128>,
    now_nanos: u128,
    timeout_nanos: u128,
    clock_end: u128,
    r: Result<SuspensionRequest, ControlPlaneError>,
) -> bool {
    match recorded {
        Some(outcome) => r == Ok::<SuspensionRequest, ControlPlaneError>(SuspensionRequest::Ended(outcome)),
        None => match suspension_joined(running, now_nanos, timeout_nanos, clock_end) {
            Err(detail) => failure(r) == Some(rejection(detail)),
            Ok(deadline) => r == Ok::<SuspensionRequest, ControlPlaneError>(SuspensionRequest::Running(deadline)),
        },
    }
}

/// Answers a request for a suspension. Once an outcome is recorded it answers every request, whatever
/// its timeout.
pub fn join_suspension(
    recorded: Option<Result<DurableControlState, ControlPlaneError>>,
    running: Option<u128>,
    now_nanos: u128,
    timeout_nanos: u128,
    clock_end: u128,
) -> (r: Result<SuspensionRequest, ControlPlaneError>)
    requires
        now_nanos <= clock_end,
    ensures
        suspension_requested(recorded, running, now_nanos, timeout_nanos, clock_end, r),
{
    match recorded {
        Some(outcome) => Ok(SuspensionRequest::Ended(outcome)),
        None => match request_suspension(running, now_nanos, timeout_nanos, clock_end) {
            Ok(deadline) => Ok(SuspensionRequest::Running(deadline)),
            Err(error) => Err(error),
        },
    }
}

/// Requests that overlap share one suspension: while it runs, all that are admitted get its deadline,
/// and once it has ended, all get its outcome, whenever and with whatever timeout they ask.
pub proof fn overlapping_suspensions_share_deadline_and_outcome(
    recorded: Option<Result<DurableControlState, ControlPlaneError>>,
    first: u128,
    requests: Seq<(u128, u128, u128)>,
    i: int,
    r: Result<SuspensionRequest, ControlPlaneError>,
)
    requires
        0 <= i < requests.len(),
        suspension_requested(recorded, running_after(Some(first), requests.take(i)), requests[i].0, requests[i].1, requests[i].2, r),
    ensures
        recorded matches Some(outcome) ==> r == Ok::<SuspensionRequest, ControlPlaneError>(SuspensionRequest::Ended(outcome)),
        recorded is None && requests[i].1 == 0 ==> failure(r) == Some(rejection("Host suspension timeout must be nonzero"@)),
        recorded is None && r is Ok ==> r == Ok::<SuspensionRequest, ControlPlaneError>(SuspensionRequest::Running(first)),
{
    joined_suspensions_share_one_deadline(first, requests, i);
}

/// The failure of a command to a loop that ended.
pub fn stopped() -> (r: ControlPlaneError)
    ensures
        r@ == (ErrorView::HostFailure { detail: "Generation Controller is stopped"@ }),
{
    ControlPlaneError::HostFailure { detail: "Generation Controller is stopped".to_owned() }
}

impl<H, S: ControlStateStore> GenerationController<H, S> {
    /// The Supervisor that the loop owns.
    pub closed spec fn supervised(self) -> DurableGenerationSupervisor<H, S> {
        self.supervisor
    }

    /// The loop admits no further command.
    pub closed spec fn closing(self) -> bool {
        self.shutting_down
    }

    /// The time between maintenance passes.
    pub closed spec fn interval(self) -> u128 {
        self.maintenance_interval_nanos
    }

    /// Creates the loop over a Supervisor.
    pub fn new(supervisor: DurableGenerationSupervisor<H, S>, maintenance_interval_nanos: u128) -> (r: Result<Self, ControlPlaneError>)
        ensures
            if maintenance_interval_nanos == 0 {
                failure(r) == Some(ErrorView::HostFailure { detail: "Generation maintenance interval must be nonzero"@ })
            } else {
                r matches Ok(controller) && controller.supervised() == supervisor && !controller.closing() && controller.interval()
                    == maintenance_interval_nanos
            },
    {
        if maintenance_interval_nanos == 0 {
            return Err(
                ControlPlaneError::HostFailure { detail: "Generation maintenance interval must be nonzero".to_owned() },
            );
        }
        Ok(GenerationController { supervisor, maintenance_interval_nanos, shutting_down: false })
    }

    /// The time between maintenance passes.
    pub fn maintenance_interval(&self) -> (r: u128)
        ensures
            r == self.interval(),
    {
        self.maintenance_interval_nanos
    }

    /// Whether the loop admits commands and suspension requests.
    pub fn admits_commands(&self) -> (r: bool)
        ensures
            r == !self.closing(),
    {
        !self.shutting_down
    }

    /// The Supervisor, for one step of the loop.
    pub fn supervisor(&mut self) -> (r: &mut DurableGenerationSupervisor<H, S>)
        ensures
            *r == old(self).supervised(),
            final(self).supervised() == *final(r),
            final(self).closing() == old(self).closing(),
            final(self).interval() == old(self).interval(),
    {
        &mut self.supervisor
    }

    /// Begins the shutdown once: `true` says that it has just begun.
    pub fn start_shutdown(&mut self, now: Result<u128, ControlPlaneError>) -> (r: Result<bool, ControlPlaneError>)
        requires
            old(self).supervised().inv(),
        ensures
            final(self).supervised().inv(),
            final(self).interval() == old(self).interval(),
            final(self).supervised().slots() == old(self).supervised().slots(),
            old(self).closing() || now is Err ==> final(self).supervised() == old(self).supervised(),
            shutdown_started(
                old(self).supervised().backend(),
                final(self).supervised().backend(),
                old(self).supervised().app(),
                old(self).supervised().current(),
                old(self).closing(),
                now,
                final(self).supervised().current(),
                final(self).closing(),
                r,
            ),
    {
        if self.shutting_down {
            return Ok(false);
        }
        let now = match now {
            Ok(now) => now,
            Err(error) => return Err(error),
        };
        match self.supervisor.begin_shutdown(now) {
            Ok(_) => {
                self.shutting_down = true;
                Ok(true)
            },
            Err(error) => Err(error),
        }
    }

    /// Decides whether the loop goes on after one step.
    pub fn after_step(&self, step: Result<Option<DurableControlState>, ControlPlaneError>) -> (r: LoopDecision)
        requires
            self.supervised().inv(),
        ensures
            step_followed(step, self.closing(), self.supervised().slots(), self.supervised().current(), r),
    {
        match step {
            Err(error) => LoopDecision::Fail(error),
            Ok(Some(state)) => LoopDecision::Stop(state),
            Ok(None) => if self.shutting_down && self.supervisor.is_retired() {
                LoopDecision::Finish(self.supervisor.state().clone())
            } else {
                LoopDecision::Continue
            },
        }
    }
}


/// A suspension gets its own deadline, its timeout from now, unless one is running, whose deadline it
/// joins. One without a timeout is refused either way, and so is one beyond the end of the clock.
pub proof fn a_suspension_gets_a_deadline(running: Option<u128>, now_nanos: u128, timeout_nanos: u128, clock_end: u128)
    ensures
        suspension_joined(running, now_nanos, timeout_nanos, clock_end) is Ok <==> timeout_nanos > 0 && now_nanos + timeout_nanos <= clock_end,
        suspension_joined(running, now_nanos, timeout_nanos, clock_end) is Ok && running is Some ==> suspension_joined(
            running,
            now_nanos,
            timeout_nanos,
            clock_end,
        )->Ok_0 == running->Some_0,
        suspension_joined(running, now_nanos, timeout_nanos, clock_end) is Ok && running is None ==> suspension_joined(
            running,
            now_nanos,
            timeout_nanos,
            clock_end,
        )->Ok_0 == now_nanos + timeout_nanos,
{
}
} // verus!
