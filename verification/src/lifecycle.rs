//! Changes of the durable control state that the lifecycle of Generations demands.
//!
//! Each change is stated as a function from one state to the next, or to the reason why it is
//! rejected. Nothing here touches a store or a runtime.
use vstd::prelude::*;
use vstd::string::*;

use crate::durable::{
    records, ActivationDirection, ControlHealth, ControlLifecycle, DurableControlState, GenerationControlRecord,
    RecordView, RetirementReason, StateView,
};
use crate::error::{rejected, rejected_about, rejection, ControlPlaneError};
use crate::text;
use crate::text::{decimal, opt_text, parsed, texts};

verus! {

/// The outcome is exactly the planned state or the planned rejection.
pub open spec fn follows(plan: Result<StateView, Seq<char>>, r: Result<DurableControlState, ControlPlaneError>) -> bool {
    match plan {
        Ok(next) => r matches Ok(state) && state@ == next,
        Err(detail) => r matches Err(error) && error@ == rejection(detail),
    }
}

/// The Generation still owns Host resources or may come to own them.
pub open spec fn live(lifecycle: ControlLifecycle) -> bool {
    lifecycle != ControlLifecycle::Retired
}

/// Some Generation is live.
pub open spec fn any_live(state: StateView) -> bool {
    exists|i: int| 0 <= i < state.generations.len() && live((#[trigger] state.generations[i]).lifecycle)
}

/// The text that names an unknown Generation.
pub open spec fn unknown(digest: Seq<char>) -> Seq<char> {
    "unknown Generation `"@ + digest + "`"@
}

/// Reads a duration, or names it as unreadable.
pub open spec fn nanos(value: Seq<char>, kind: Seq<char>) -> Result<nat, Seq<char>> {
    match parsed(value, u64::MAX as nat) {
        Some(n) => Ok(n),
        None => Err(kind + " is not a bounded unsigned integer"@),
    }
}

/// The rollback deadline of a record, if it has one.
pub open spec fn rollback_deadline(record: RecordView) -> Result<Option<nat>, Seq<char>> {
    match record.rollback_deadline_unix_nanos {
        Some(value) => match parsed(value, u128::MAX as nat) {
            Some(n) => Ok(Some(n)),
            None => Err("rollback deadline is not a bounded unsigned integer"@),
        },
        None => Ok(None),
    }
}

/// The rollback deadline that a record must have.
pub open spec fn required_rollback_deadline(record: RecordView) -> Result<nat, Seq<char>> {
    match rollback_deadline(record) {
        Ok(Some(n)) => Ok(n),
        Ok(None) => Err("Generation has no rollback deadline"@),
        Err(detail) => Err(detail),
    }
}

/// The drain deadline that a draining record must have.
pub open spec fn required_drain_deadline(record: RecordView) -> Result<nat, Seq<char>> {
    match record.drain_deadline_unix_nanos {
        Some(value) => match parsed(value, u128::MAX as nat) {
            Some(n) => Ok(n),
            None => Err("drain deadline is not a bounded unsigned integer"@),
        },
        None => Err("draining Generation has no drain deadline"@),
    }
}

/// The moment `nanos` after now, in decimal notation.
pub open spec fn moment(now: u128, duration: nat, exhausted: Seq<char>) -> Result<Seq<char>, Seq<char>> {
    if now + duration <= u128::MAX {
        Ok(decimal((now + duration) as nat))
    } else {
        Err(exhausted)
    }
}

/// The drain deadline of a record whose drain starts now.
pub open spec fn drain_deadline_from(record: RecordView, now: u128) -> Result<Seq<char>, Seq<char>> {
    match nanos(record.drain_timeout_nanos, "drain timeout"@) {
        Ok(timeout) => moment(now, timeout, "drain deadline exhausted"@),
        Err(detail) => Err(detail),
    }
}

/// Reads a duration.
pub fn parse_nanos(value: &str, kind: &str) -> (r: Result<u64, ControlPlaneError>)
    ensures
        match nanos(value@, kind@) {
            Ok(n) => r matches Ok(result) && result == n,
            Err(detail) => r matches Err(error) && error@ == rejection(detail),
        },
{
    match text::parse_u64(value) {
        Some(n) => Ok(n),
        None => {
            let mut detail = kind.to_owned();
            detail.append(" is not a bounded unsigned integer");
            Err(ControlPlaneError::TransitionRejected { detail })
        },
    }
}

/// The failure that names an unknown Generation.
pub fn unknown_generation(digest: &str) -> (r: ControlPlaneError)
    ensures
        r@ == rejection(unknown(digest@)),
{
    rejected_about("unknown Generation `", digest, "`")
}

/// Reads the rollback deadline of a record, if it has one.
pub fn deadline_option(record: &GenerationControlRecord) -> (r: Result<Option<u128>, ControlPlaneError>)
    ensures
        match rollback_deadline(record@) {
            Ok(Some(n)) => r matches Ok(Some(result)) && result == n,
            Ok(None) => r matches Ok(None),
            Err(detail) => r matches Err(error) && error@ == rejection(detail),
        },
{
    match &record.rollback_deadline_unix_nanos {
        Some(value) => match text::parse_u128(value.as_str()) {
            Some(n) => Ok(Some(n)),
            None => Err(rejected("rollback deadline is not a bounded unsigned integer")),
        },
        None => Ok(None),
    }
}

/// Reads the rollback deadline that a record must have.
pub fn deadline(record: &GenerationControlRecord) -> (r: Result<u128, ControlPlaneError>)
    ensures
        match required_rollback_deadline(record@) {
            Ok(n) => r matches Ok(result) && result == n,
            Err(detail) => r matches Err(error) && error@ == rejection(detail),
        },
{
    match deadline_option(record) {
        Ok(Some(n)) => Ok(n),
        Ok(None) => Err(rejected("Generation has no rollback deadline")),
        Err(error) => Err(error),
    }
}

/// Reads the drain deadline that a draining record must have.
pub fn drain_deadline(record: &GenerationControlRecord) -> (r: Result<u128, ControlPlaneError>)
    ensures
        match required_drain_deadline(record@) {
            Ok(n) => r matches Ok(result) && result == n,
            Err(detail) => r matches Err(error) && error@ == rejection(detail),
        },
{
    match &record.drain_deadline_unix_nanos {
        Some(value) => match text::parse_u128(value.as_str()) {
            Some(n) => Ok(n),
            None => Err(rejected("drain deadline is not a bounded unsigned integer")),
        },
        None => Err(rejected("draining Generation has no drain deadline")),
    }
}

/// The moment `duration` after now, in decimal notation.
pub fn moment_after(now: u128, duration: u64, exhausted: &str) -> (r: Result<String, ControlPlaneError>)
    ensures
        match moment(now, duration as nat, exhausted@) {
            Ok(value) => r matches Ok(result) && result@ == value,
            Err(detail) => r matches Err(error) && error@ == rejection(detail),
        },
{
    if now <= u128::MAX - duration as u128 {
        Ok(text::print_u128(now + duration as u128))
    } else {
        Err(rejected(exhausted))
    }
}

/// The drain deadline of a record whose drain starts now.
pub fn drain_until(record: &GenerationControlRecord, now: u128) -> (r: Result<String, ControlPlaneError>)
    ensures
        match drain_deadline_from(record@, now) {
            Ok(value) => r matches Ok(result) && result@ == value,
            Err(detail) => r matches Err(error) && error@ == rejection(detail),
        },
{
    match parse_nanos(record.drain_timeout_nanos.as_str(), "drain timeout") {
        Ok(timeout) => moment_after(now, timeout, "drain deadline exhausted"),
        Err(error) => Err(error),
    }
}

/// The state of a Host that opens over a fully retired control state.
pub open spec fn opened(state: StateView) -> Result<StateView, Seq<char>> {
    if any_live(state) {
        Err("live durable control state requires explicit recovery"@)
    } else if state.supervisor_epoch == u64::MAX {
        Err("Supervisor epoch exhausted"@)
    } else {
        Ok(StateView { host_suspended: false, supervisor_epoch: (state.supervisor_epoch + 1) as u64, ..state })
    }
}

/// A record of the build that a replacement Host cannot restage.
pub open spec fn host_replaced_record(record: RecordView) -> RecordView {
    if live(record.lifecycle) {
        RecordView {
            lifecycle: ControlLifecycle::Retired,
            drain_deadline_unix_nanos: None,
            retirement_reason: Some(RetirementReason::HostBuildReplaced),
            ..record
        }
    } else {
        record
    }
}

/// The state of a Host that takes over after a clean suspension.
pub open spec fn host_replaced(state: StateView) -> Result<StateView, Seq<char>> {
    if !state.host_suspended {
        Err("Host replacement requires a clean durable suspension"@)
    } else if state.supervisor_epoch == u64::MAX {
        Err("Supervisor epoch exhausted"@)
    } else if state.active_generation_spec_digest is Some && state.routing_epoch == u64::MAX {
        Err("Routing Epoch exhausted"@)
    } else {
        Ok(
            StateView {
                host_suspended: false,
                supervisor_epoch: (state.supervisor_epoch + 1) as u64,
                routing_epoch: if state.active_generation_spec_digest is Some {
                    (state.routing_epoch + 1) as u64
                } else {
                    state.routing_epoch
                },
                active_generation_spec_digest: None,
                generations: state.generations.map_values(|record: RecordView| host_replaced_record(record)),
                ..state
            },
        )
    }
}

/// The state that fences the previous Supervisor before recovery.
pub open spec fn recovery_begun(state: StateView) -> Result<StateView, Seq<char>> {
    if state.supervisor_epoch == u64::MAX {
        Err("Supervisor epoch exhausted"@)
    } else if state.routing_epoch == u64::MAX {
        Err("Routing Epoch exhausted"@)
    } else {
        Ok(
            StateView {
                host_suspended: false,
                supervisor_epoch: (state.supervisor_epoch + 1) as u64,
                routing_epoch: (state.routing_epoch + 1) as u64,
                ..state
            },
        )
    }
}

/// The state with a record about a Generation: in the place of an earlier record, or last.
pub open spec fn enrolled(state: StateView, record: RecordView) -> StateView {
    if state.has(record.generation_spec_digest) {
        state.with_record(record)
    } else {
        StateView { generations: state.generations.push(record), ..state }
    }
}

/// A record of a Generation that could not be staged.
pub open spec fn staging_failed(record: RecordView) -> RecordView {
    RecordView {
        health: ControlHealth::Failed,
        lifecycle: ControlLifecycle::Retired,
        retirement_reason: Some(RetirementReason::StagingFailed),
        ..record
    }
}

/// A record of a Generation that a maintenance replacement stopped.
pub open spec fn replaced_record(record: RecordView, shutdown_failed: bool) -> RecordView {
    RecordView {
        lifecycle: ControlLifecycle::Retired,
        retirement_reason: Some(RetirementReason::Replaced),
        health: if shutdown_failed {
            ControlHealth::Failed
        } else {
            record.health
        },
        ..record
    }
}

/// A record of a Generation whose drain ended inside its rollback window.
pub open spec fn standby_record(record: RecordView) -> RecordView {
    RecordView { lifecycle: ControlLifecycle::Standby, drain_deadline_unix_nanos: None, ..record }
}

/// A record of a Generation that failed terminally.
pub open spec fn failed_record(record: RecordView) -> RecordView {
    RecordView { health: ControlHealth::Failed, ..record }
}

/// A record of a Generation that drains until a deadline.
pub open spec fn draining_record(record: RecordView, deadline: Seq<char>) -> RecordView {
    RecordView { lifecycle: ControlLifecycle::Draining, drain_deadline_unix_nanos: Some(deadline), ..record }
}

/// A record of a Generation that released all Host-owned resources.
pub open spec fn retired_record(record: RecordView, reason: RetirementReason, shutdown_failed: bool) -> RecordView {
    RecordView {
        lifecycle: ControlLifecycle::Retired,
        drain_deadline_unix_nanos: None,
        rollback_deadline_unix_nanos: None,
        retirement_reason: Some(reason),
        health: if shutdown_failed {
            ControlHealth::Failed
        } else {
            record.health
        },
        ..record
    }
}

/// A record of a Generation that takes the route back.
pub open spec fn reactivated_record(record: RecordView) -> RecordView {
    RecordView {
        lifecycle: ControlLifecycle::Active,
        activation_direction: ActivationDirection::Rollback,
        drain_deadline_unix_nanos: None,
        ..record
    }
}

/// What an overlap hands to the predecessor that it drains.
pub struct OverlapTerms {
    pub drain_deadline: Seq<char>,
    pub transition: Seq<char>,
    pub rollback_deadline: Option<Seq<char>>,
    pub automatic: bool,
    pub receipts: Seq<Seq<char>>,
}

/// A record of a predecessor that an overlap drains.
pub open spec fn overlapped_record(record: RecordView, terms: OverlapTerms) -> RecordView {
    RecordView {
        lifecycle: ControlLifecycle::Draining,
        drain_deadline_unix_nanos: Some(terms.drain_deadline),
        transition_spec_digest: terms.transition,
        rollback_deadline_unix_nanos: terms.rollback_deadline,
        automatic_rollback_on_generation_failure: terms.automatic,
        state_compatibility_receipt_digests: terms.receipts,
        ..record
    }
}

/// The state after a change of one record, or its refusal for an unknown Generation.
pub open spec fn marked(state: StateView, digest: Seq<char>, record: RecordView) -> Result<StateView, Seq<char>> {
    if state.has(digest) {
        Ok(state.with_record(record))
    } else {
        Err(unknown(digest))
    }
}

/// The state after a maintenance replacement stopped the active Generation.
pub open spec fn maintenance_stopped(state: StateView, stopped: Seq<char>, candidate: Seq<char>, shutdown_failed: bool) -> Result<StateView, Seq<char>> {
    if !state.has(stopped) {
        Err(unknown(stopped))
    } else {
        let next = StateView { active_generation_spec_digest: None, ..state }.with_record(
            replaced_record(state.record(stopped), shutdown_failed),
        );
        if !shutdown_failed {
            Ok(next)
        } else if !next.has(candidate) {
            Err(unknown(candidate))
        } else {
            Ok(
                next.with_record(
                    RecordView {
                        lifecycle: ControlLifecycle::Retired,
                        health: ControlHealth::Failed,
                        retirement_reason: Some(RetirementReason::StagingFailed),
                        ..next.record(candidate)
                    },
                ),
            )
        }
    }
}

/// The state that routes to a candidate that is ready; an overlap drains the predecessor.
pub open spec fn activated(state: StateView, candidate: Seq<char>, overlap: Option<(Seq<char>, OverlapTerms)>) -> Result<StateView, Seq<char>> {
    if state.routing_epoch == u64::MAX {
        Err("Routing Epoch exhausted"@)
    } else if !state.has(candidate) {
        Err(unknown(candidate))
    } else {
        let next = StateView {
            routing_epoch: (state.routing_epoch + 1) as u64,
            active_generation_spec_digest: Some(candidate),
            ..state
        }.with_record(RecordView { lifecycle: ControlLifecycle::Active, ..state.record(candidate) });
        match overlap {
            Some((previous, terms)) => if next.has(previous) {
                Ok(next.with_record(overlapped_record(next.record(previous), terms)))
            } else {
                Err(unknown(previous))
            },
            None => Ok(next),
        }
    }
}

/// The state after the route went back to a retained predecessor.
pub open spec fn rolled_back(state: StateView, standby: Seq<char>, now: u128, automatic: bool) -> Result<StateView, Seq<char>> {
    if !state.has(standby) {
        Err(unknown(standby))
    } else {
        let target = state.record(standby);
        if target.lifecycle != ControlLifecycle::Draining && target.lifecycle != ControlLifecycle::Standby {
            Err("rollback target is not a retained predecessor"@)
        } else {
            match required_rollback_deadline(target) {
                Err(detail) => Err(detail),
                Ok(deadline) => if deadline <= now {
                    Err("rollback target is not a retained predecessor"@)
                } else {
                    match state.active_generation_spec_digest {
                        None => Err("rollback requires one active Generation"@),
                        Some(failed) => {
                            let active = state.record(failed);
                            if active.transition_spec_digest != target.transition_spec_digest {
                                Err("rollback records do not bind the same Transition Spec"@)
                            } else if automatic && active.health != ControlHealth::Failed {
                                Err("automatic rollback requires terminal active Generation failure"@)
                            } else {
                                match drain_deadline_from(active, now) {
                                    Err(detail) => Err(detail),
                                    Ok(until) => if state.routing_epoch == u64::MAX {
                                        Err("Routing Epoch exhausted"@)
                                    } else {
                                        Ok(
                                            StateView {
                                                routing_epoch: (state.routing_epoch + 1) as u64,
                                                active_generation_spec_digest: Some(standby),
                                                ..state
                                            }.with_record(reactivated_record(target)).with_record(
                                                draining_record(active, until),
                                            ),
                                        )
                                    },
                                }
                            }
                        },
                    }
                },
            }
        }
    }
}

/// The state that routes to nothing after the active Generation failed for good.
pub open spec fn fenced_active(state: StateView, digest: Seq<char>, now: u128) -> Result<StateView, Seq<char>> {
    if !state.has(digest) {
        Err(unknown(digest))
    } else {
        match drain_deadline_from(state.record(digest), now) {
            Err(detail) => Err(detail),
            Ok(until) => if state.active_generation_spec_digest != Some(digest) {
                Err("terminal failure fence requires the active Generation"@)
            } else if state.routing_epoch == u64::MAX {
                Err("Routing Epoch exhausted"@)
            } else {
                Ok(
                    StateView {
                        routing_epoch: (state.routing_epoch + 1) as u64,
                        active_generation_spec_digest: None,
                        ..state
                    }.with_record(draining_record(state.record(digest), until)),
                )
            },
        }
    }
}

/// A record when its Supervisor shuts down: every Generation with resources drains for good.
pub open spec fn shutdown_record(record: RecordView, now: u128) -> Result<RecordView, Seq<char>> {
    match record.lifecycle {
        ControlLifecycle::Active | ControlLifecycle::Draining | ControlLifecycle::Standby => match drain_deadline_from(record, now) {
            Ok(until) => Ok(
                RecordView {
                    lifecycle: ControlLifecycle::Draining,
                    retirement_reason: Some(RetirementReason::SupervisorShutdown),
                    rollback_deadline_unix_nanos: None,
                    drain_deadline_unix_nanos: Some(until),
                    ..record
                },
            ),
            Err(detail) => Err(detail),
        },
        _ => Ok(record),
    }
}

/// The records when their Supervisor shuts down; the first one that cannot drain refuses it.
pub open spec fn shutdown_records(items: Seq<RecordView>, now: u128) -> Result<Seq<RecordView>, Seq<char>>
    decreases items.len(),
{
    if items.len() == 0 {
        Ok(Seq::empty())
    } else {
        match shutdown_records(items.drop_last(), now) {
            Err(detail) => Err(detail),
            Ok(done) => match shutdown_record(items.last(), now) {
                Err(detail) => Err(detail),
                Ok(record) => Ok(done.push(record)),
            },
        }
    }
}

/// A shutdown settles each record by itself.
pub proof fn shutdown_settles_each(items: Seq<RecordView>, now: u128, i: int)
    requires
        shutdown_records(items, now) is Ok,
        0 <= i < items.len(),
    ensures
        shutdown_records(items, now)->Ok_0.len() == items.len(),
        shutdown_record(items[i], now) == Ok::<RecordView, Seq<char>>(shutdown_records(items, now)->Ok_0[i]),
    decreases items.len(),
{
    if i < items.len() - 1 {
        shutdown_settles_each(items.drop_last(), now, i);
    } else if items.len() > 1 {
        shutdown_settles_each(items.drop_last(), now, 0);
    }
}

/// The state in which no route is admitted and every Generation drains.
pub open spec fn shutdown_begun(state: StateView, now: u128) -> Result<StateView, Seq<char>> {
    if state.active_generation_spec_digest is Some && state.routing_epoch == u64::MAX {
        Err("Routing Epoch exhausted"@)
    } else {
        match shutdown_records(state.generations, now) {
            Err(detail) => Err(detail),
            Ok(generations) => Ok(
                StateView {
                    routing_epoch: if state.active_generation_spec_digest is Some {
                        (state.routing_epoch + 1) as u64
                    } else {
                        state.routing_epoch
                    },
                    active_generation_spec_digest: None,
                    generations,
                    ..state
                },
            ),
        }
    }
}

/// The state of a Host that stopped cleanly.
pub open spec fn suspended(state: StateView) -> StateView {
    StateView { host_suspended: true, ..state }
}

impl StateView {
    /// Lookup after one record took the place of another about the same Generation.
    pub proof fn lookup(self, record: RecordView, digest: Seq<char>)
        requires
            self.unique(),
            self.has(record.generation_spec_digest),
        ensures
            self.with_record(record).unique(),
            self.with_record(record).has(digest) == self.has(digest),
            self.has(digest) ==> self.with_record(record).record(digest) == (if digest == record.generation_spec_digest {
                record
            } else {
                self.record(digest)
            }),
            self.with_record(record).generations.len() == self.generations.len(),
    {
        let p = self.position(record.generation_spec_digest);
        self.replaced(p, record);
        let after = self.with_record(record);
        if self.has(digest) {
            let q = self.position(digest);
            after.found(q);
        }
        if after.has(digest) {
            let q = after.position(digest);
            self.found(q);
        }
    }
}

impl DurableControlState {
    /// Puts a changed record in the place of the record at the same position.
    fn put(&mut self, i: usize, record: GenerationControlRecord)
        requires
            old(self)@.unique(),
            i < old(self).generations.len(),
            old(self)@.generations[i as int].generation_spec_digest == record@.generation_spec_digest,
        ensures
            final(self)@ == old(self)@.with_record(record@),
            final(self)@.unique(),
    {
        let ghost before = self@;
        self.generations.set(i, record);
        proof {
            before.replaced(i as int, record@);
            assert(self@.generations =~= before.generations.update(i as int, record@));
        }
    }

    /// The state of a Host that opens over a fully retired control state.
    pub fn open_host(&self) -> (r: Result<DurableControlState, ControlPlaneError>)
        ensures
            follows(opened(self@), r),
    {
        let mut i: usize = 0;
        while i < self.generations.len()
            invariant
                i <= self.generations.len(),
                forall|k: int| 0 <= k < i ==> !live((#[trigger] self@.generations[k]).lifecycle),
            decreases self.generations.len() - i,
        {
            assert(self@.generations[i as int] == self.generations@[i as int]@);
            if self.generations[i].lifecycle != ControlLifecycle::Retired {
                return Err(rejected("live durable control state requires explicit recovery"));
            }
            i = i + 1;
        }
        if self.supervisor_epoch == u64::MAX {
            return Err(rejected("Supervisor epoch exhausted"));
        }
        let mut next = self.clone();
        next.host_suspended = false;
        next.supervisor_epoch = next.supervisor_epoch + 1;
        Ok(next)
    }

    /// The state of a Host that takes over after a clean suspension.
    pub fn replace_host(&self) -> (r: Result<DurableControlState, ControlPlaneError>)
        ensures
            follows(host_replaced(self@), r),
    {
        if !self.host_suspended {
            return Err(rejected("Host replacement requires a clean durable suspension"));
        }
        if self.supervisor_epoch == u64::MAX {
            return Err(rejected("Supervisor epoch exhausted"));
        }
        if self.active_generation_spec_digest.is_some() && self.routing_epoch == u64::MAX {
            return Err(rejected("Routing Epoch exhausted"));
        }
        let mut next = self.clone();
        next.host_suspended = false;
        next.supervisor_epoch = next.supervisor_epoch + 1;
        if next.active_generation_spec_digest.is_some() {
            next.routing_epoch = next.routing_epoch + 1;
        }
        next.active_generation_spec_digest = None;
        let mut generations: Vec<GenerationControlRecord> = Vec::new();
        let mut i: usize = 0;
        while i < next.generations.len()
            invariant
                i <= next.generations.len(),
                generations@.len() == i,
                forall|k: int| 0 <= k < i ==> (#[trigger] generations@[k])@ == host_replaced_record(next.generations@[k]@),
            decreases next.generations.len() - i,
        {
            let mut record = next.generations[i].clone();
            if record.lifecycle != ControlLifecycle::Retired {
                record.lifecycle = ControlLifecycle::Retired;
                record.drain_deadline_unix_nanos = None;
                record.retirement_reason = Some(RetirementReason::HostBuildReplaced);
            }
            generations.push(record);
            i = i + 1;
        }
        assert(records(generations@) =~= next@.generations.map_values(|record: RecordView| host_replaced_record(record)));
        next.generations = generations;
        Ok(next)
    }

    /// The state that fences the previous Supervisor before recovery.
    pub fn begin_recovery(&self) -> (r: Result<DurableControlState, ControlPlaneError>)
        ensures
            follows(recovery_begun(self@), r),
    {
        if self.supervisor_epoch == u64::MAX {
            return Err(rejected("Supervisor epoch exhausted"));
        }
        if self.routing_epoch == u64::MAX {
            return Err(rejected("Routing Epoch exhausted"));
        }
        let mut next = self.clone();
        next.host_suspended = false;
        next.supervisor_epoch = next.supervisor_epoch + 1;
        next.routing_epoch = next.routing_epoch + 1;
        Ok(next)
    }

    /// The state with a record about a candidate.
    pub fn enroll(&self, record: GenerationControlRecord) -> (r: DurableControlState)
        requires
            self@.unique(),
        ensures
            r@ == enrolled(self@, record@),
    {
        let mut next = self.clone();
        match next.find(record.generation_spec_digest.as_str()) {
            Some(i) => {
                next.put(i, record);
            },
            None => {
                let ghost before = next@;
                next.generations.push(record);
                assert(next@.generations =~= before.generations.push(record@));
            },
        }
        next
    }

    /// The state in which a candidate could not be staged.
    pub fn fail_staging(&self, digest: &str) -> (r: Result<DurableControlState, ControlPlaneError>)
        requires
            self@.unique(),
        ensures
            follows(marked(self@, digest@, staging_failed(self@.record(digest@))), r),
    {
        match self.find(digest) {
            Some(i) => {
                let mut next = self.clone();
                let mut record = next.generations[i].clone();
                record.health = ControlHealth::Failed;
                record.lifecycle = ControlLifecycle::Retired;
                record.retirement_reason = Some(RetirementReason::StagingFailed);
                next.put(i, record);
                Ok(next)
            },
            None => Err(unknown_generation(digest)),
        }
    }

    /// The state in which a candidate passed its Ready Gate.
    pub fn make_ready(&self, digest: &str) -> (r: Result<DurableControlState, ControlPlaneError>)
        requires
            self@.unique(),
        ensures
            follows(
                marked(self@, digest@, (RecordView { lifecycle: ControlLifecycle::Ready, ..self@.record(digest@) })),
                r,
            ),
    {
        match self.find(digest) {
            Some(i) => {
                let mut next = self.clone();
                let mut record = next.generations[i].clone();
                record.lifecycle = ControlLifecycle::Ready;
                next.put(i, record);
                Ok(next)
            },
            None => Err(unknown_generation(digest)),
        }
    }

    /// The state in which a drained Generation stands by.
    pub fn stand_by(&self, digest: &str) -> (r: Result<DurableControlState, ControlPlaneError>)
        requires
            self@.unique(),
        ensures
            follows(marked(self@, digest@, standby_record(self@.record(digest@))), r),
    {
        match self.find(digest) {
            Some(i) => {
                let mut next = self.clone();
                let mut record = next.generations[i].clone();
                record.lifecycle = ControlLifecycle::Standby;
                record.drain_deadline_unix_nanos = None;
                next.put(i, record);
                Ok(next)
            },
            None => Err(unknown_generation(digest)),
        }
    }

    /// The state in which a Generation failed terminally.
    pub fn fail_generation(&self, digest: &str) -> (r: Result<DurableControlState, ControlPlaneError>)
        requires
            self@.unique(),
        ensures
            follows(marked(self@, digest@, failed_record(self@.record(digest@))), r),
    {
        match self.find(digest) {
            Some(i) => {
                let mut next = self.clone();
                let mut record = next.generations[i].clone();
                record.health = ControlHealth::Failed;
                next.put(i, record);
                Ok(next)
            },
            None => Err(unknown_generation(digest)),
        }
    }

    /// The state in which a Generation released all Host-owned resources.
    pub fn retire_generation(&self, digest: &str, reason: RetirementReason, shutdown_failed: bool) -> (r: Result<DurableControlState, ControlPlaneError>)
        requires
            self@.unique(),
        ensures
            follows(marked(self@, digest@, retired_record(self@.record(digest@), reason, shutdown_failed)), r),
    {
        match self.find(digest) {
            Some(i) => {
                let mut next = self.clone();
                let mut record = next.generations[i].clone();
                record.lifecycle = ControlLifecycle::Retired;
                record.drain_deadline_unix_nanos = None;
                record.rollback_deadline_unix_nanos = None;
                record.retirement_reason = Some(reason);
                if shutdown_failed {
                    record.health = ControlHealth::Failed;
                }
                next.put(i, record);
                Ok(next)
            },
            None => Err(unknown_generation(digest)),
        }
    }

    /// The state after a maintenance replacement stopped the active Generation.
    pub fn stop_for_maintenance(&self, stopped: &str, candidate: &str, shutdown_failed: bool) -> (r: Result<DurableControlState, ControlPlaneError>)
        requires
            self@.unique(),
        ensures
            follows(maintenance_stopped(self@, stopped@, candidate@, shutdown_failed), r),
    {
        let mut next = self.clone();
        next.active_generation_spec_digest = None;
        let ghost cleared = next@;
        match next.find(stopped) {
            Some(i) => {
                let mut record = next.generations[i].clone();
                record.lifecycle = ControlLifecycle::Retired;
                record.retirement_reason = Some(RetirementReason::Replaced);
                if shutdown_failed {
                    record.health = ControlHealth::Failed;
                }
                next.put(i, record);
            },
            None => return Err(unknown_generation(stopped)),
        }
        proof {
            assert(cleared.generations == self@.generations);
            assert(cleared.record(stopped@) == self@.record(stopped@));
        }
        if shutdown_failed {
            match next.find(candidate) {
                Some(i) => {
                    let mut record = next.generations[i].clone();
                    record.lifecycle = ControlLifecycle::Retired;
                    record.health = ControlHealth::Failed;
                    record.retirement_reason = Some(RetirementReason::StagingFailed);
                    next.put(i, record);
                },
                None => return Err(unknown_generation(candidate)),
            }
        }
        Ok(next)
    }

    /// The state that routes to a candidate that is ready; an overlap drains the predecessor.
    pub fn activate(&self, candidate: &str, overlap: &Option<Overlap>) -> (r: Result<DurableControlState, ControlPlaneError>)
        requires
            self@.unique(),
        ensures
            follows(activated(self@, candidate@, overlap_view(*overlap)), r),
    {
        if self.routing_epoch == u64::MAX {
            return Err(rejected("Routing Epoch exhausted"));
        }
        let mut next = self.clone();
        next.routing_epoch = next.routing_epoch + 1;
        next.active_generation_spec_digest = Some(candidate.to_owned());
        let ghost routed = next@;
        match next.find(candidate) {
            Some(i) => {
                let mut record = next.generations[i].clone();
                record.lifecycle = ControlLifecycle::Active;
                next.put(i, record);
            },
            None => return Err(unknown_generation(candidate)),
        }
        proof {
            assert(routed.generations == self@.generations);
            assert(routed.record(candidate@) == self@.record(candidate@));
        }
        match overlap {
            Some(terms) => match next.find(terms.previous.as_str()) {
                Some(i) => {
                    let mut record = next.generations[i].clone();
                    record.lifecycle = ControlLifecycle::Draining;
                    record.drain_deadline_unix_nanos = Some(terms.drain_deadline.clone());
                    record.transition_spec_digest = terms.transition.clone();
                    record.rollback_deadline_unix_nanos = text::copy_opt(&terms.rollback_deadline);
                    record.automatic_rollback_on_generation_failure = terms.automatic;
                    record.state_compatibility_receipt_digests = text::copy_all(&terms.receipts);
                    next.put(i, record);
                },
                None => return Err(unknown_generation(terms.previous.as_str())),
            },
            None => {},
        }
        Ok(next)
    }

    /// The state after the route went back to a retained predecessor.
    pub fn roll_back(&self, standby: &str, now: u128, automatic: bool) -> (r: Result<DurableControlState, ControlPlaneError>)
        requires
            self@.unique(),
            self@.active_generation_spec_digest matches Some(active) ==> self@.has(active),
        ensures
            follows(rolled_back(self@, standby@, now, automatic), r),
    {
        let target = match self.find(standby) {
            Some(i) => self.generations[i].clone(),
            None => return Err(unknown_generation(standby)),
        };
        if target.lifecycle != ControlLifecycle::Draining && target.lifecycle != ControlLifecycle::Standby {
            return Err(rejected("rollback target is not a retained predecessor"));
        }
        match deadline(&target) {
            Ok(moment) => {
                if moment <= now {
                    return Err(rejected("rollback target is not a retained predecessor"));
                }
            },
            Err(error) => return Err(error),
        }
        let failed = match &self.active_generation_spec_digest {
            Some(active) => active.clone(),
            None => return Err(rejected("rollback requires one active Generation")),
        };
        let active = match self.find(failed.as_str()) {
            Some(i) => self.generations[i].clone(),
            None => return Err(unknown_generation(failed.as_str())),
        };
        if !text::same(active.transition_spec_digest.as_str(), target.transition_spec_digest.as_str()) {
            return Err(rejected("rollback records do not bind the same Transition Spec"));
        }
        if automatic && active.health != ControlHealth::Failed {
            return Err(rejected("automatic rollback requires terminal active Generation failure"));
        }
        let until = match drain_until(&active, now) {
            Ok(until) => until,
            Err(error) => return Err(error),
        };
        if self.routing_epoch == u64::MAX {
            return Err(rejected("Routing Epoch exhausted"));
        }
        let mut next = self.clone();
        next.routing_epoch = next.routing_epoch + 1;
        next.active_generation_spec_digest = Some(standby.to_owned());
        let ghost routed = next@;
        proof {
            assert(routed.generations == self@.generations);
            assert(routed.has(standby@) && routed.has(failed@));
        }
        let mut target = target;
        target.lifecycle = ControlLifecycle::Active;
        target.activation_direction = ActivationDirection::Rollback;
        target.drain_deadline_unix_nanos = None;
        match next.find(standby) {
            Some(i) => {
                next.put(i, target);
            },
            None => {},
        }
        proof {
            routed.lookup(target@, failed@);
        }
        let mut active = active;
        active.lifecycle = ControlLifecycle::Draining;
        active.drain_deadline_unix_nanos = Some(until);
        match next.find(failed.as_str()) {
            Some(i) => {
                next.put(i, active);
            },
            None => {},
        }
        Ok(next)
    }

    /// The state that routes to nothing after the active Generation failed for good.
    pub fn fence_active(&self, digest: &str, now: u128) -> (r: Result<DurableControlState, ControlPlaneError>)
        requires
            self@.unique(),
        ensures
            follows(fenced_active(self@, digest@, now), r),
    {
        let i = match self.find(digest) {
            Some(i) => i,
            None => return Err(unknown_generation(digest)),
        };
        let until = match drain_until(&self.generations[i], now) {
            Ok(until) => until,
            Err(error) => return Err(error),
        };
        if !text::is_text(&self.active_generation_spec_digest, digest) {
            return Err(rejected("terminal failure fence requires the active Generation"));
        }
        if self.routing_epoch == u64::MAX {
            return Err(rejected("Routing Epoch exhausted"));
        }
        let mut next = self.clone();
        next.routing_epoch = next.routing_epoch + 1;
        next.active_generation_spec_digest = None;
        proof {
            assert(next@.generations == self@.generations);
        }
        let mut record = self.generations[i].clone();
        record.lifecycle = ControlLifecycle::Draining;
        record.drain_deadline_unix_nanos = Some(until);
        next.put(i, record);
        Ok(next)
    }

    /// The state in which no route is admitted and every Generation drains.
    pub fn begin_shutdown(&self, now: u128) -> (r: Result<DurableControlState, ControlPlaneError>)
        ensures
            follows(shutdown_begun(self@, now), r),
    {
        if self.active_generation_spec_digest.is_some() && self.routing_epoch == u64::MAX {
            return Err(rejected("Routing Epoch exhausted"));
        }
        let mut next = self.clone();
        if next.active_generation_spec_digest.is_some() {
            next.routing_epoch = next.routing_epoch + 1;
        }
        next.active_generation_spec_digest = None;
        let ghost items = self@.generations;
        let mut generations: Vec<GenerationControlRecord> = Vec::new();
        let mut i: usize = 0;
        proof {
            assert(items.take(0) =~= Seq::empty());
            assert(records(generations@) =~= Seq::empty());
        }
        while i < self.generations.len()
            invariant
                i <= self.generations.len(),
                items == self@.generations,
                items.len() == self.generations.len(),
                self@.active_generation_spec_digest is None || self@.routing_epoch < u64::MAX,
                shutdown_records(items.take(i as int), now) == Ok::<Seq<RecordView>, Seq<char>>(records(generations@)),
            decreases self.generations.len() - i,
        {
            let ghost done = records(generations@);
            proof {
                let part = items.take(i + 1);
                assert(part.drop_last() =~= items.take(i as int));
                assert(part.last() == self.generations@[i as int]@);
            }
            let mut record = self.generations[i].clone();
            match record.lifecycle {
                ControlLifecycle::Active | ControlLifecycle::Draining | ControlLifecycle::Standby => {
                    let until = match drain_until(&record, now) {
                        Ok(until) => until,
                        Err(error) => {
                            proof {
                                lemma_shutdown_fails(items, now, i + 1);
                            }
                            return Err(error);
                        },
                    };
                    record.lifecycle = ControlLifecycle::Draining;
                    record.retirement_reason = Some(RetirementReason::SupervisorShutdown);
                    record.rollback_deadline_unix_nanos = None;
                    record.drain_deadline_unix_nanos = Some(until);
                },
                _ => {},
            }
            generations.push(record);
            proof {
                assert(records(generations@) =~= done.push(record@));
            }
            i = i + 1;
        }
        proof {
            assert(items.take(i as int) =~= items);
        }
        next.generations = generations;
        Ok(next)
    }

    /// The state of a Host that stopped cleanly.
    pub fn suspend(&self) -> (r: DurableControlState)
        ensures
            r@ == suspended(self@),
    {
        let mut next = self.clone();
        next.host_suspended = true;
        next
    }
}

proof fn lemma_shutdown_fails(items: Seq<RecordView>, now: u128, n: int)
    requires
        0 <= n <= items.len(),
        shutdown_records(items.take(n), now) is Err,
    ensures
        shutdown_records(items, now) == shutdown_records(items.take(n), now),
    decreases items.len(),
{
    if n < items.len() {
        assert(items.drop_last().take(n) =~= items.take(n));
        lemma_shutdown_fails(items.drop_last(), now, n);
    } else {
        assert(items.take(n) =~= items);
    }
}

/// What an overlap hands to the predecessor that it drains.
#[derive(Debug)]
pub struct Overlap {
    pub previous: String,
    pub drain_deadline: String,
    pub transition: String,
    pub rollback_deadline: Option<String>,
    pub automatic: bool,
    pub receipts: Vec<String>,
}

/// The predecessor and the terms of an overlap.
pub open spec fn overlap_view(overlap: Option<Overlap>) -> Option<(Seq<char>, OverlapTerms)> {
    match overlap {
        Some(terms) => Some(
            (
                terms.previous@,
                OverlapTerms {
                    drain_deadline: terms.drain_deadline@,
                    transition: terms.transition@,
                    rollback_deadline: opt_text(terms.rollback_deadline),
                    automatic: terms.automatic,
                    receipts: texts(terms.receipts@),
                },
            ),
        ),
        None => None,
    }
}


/// A Generation that fails stays where it is until somebody acts on it; one that could not be staged is
/// retired at once; and one that stands by or retires drains no more. Nothing else of a record changes.
pub proof fn a_record_changes_only_where_it_must(record: RecordView, reason: RetirementReason, shutdown_failed: bool, deadline: Seq<char>)
    ensures
        failed_record(record).health == ControlHealth::Failed,
        failed_record(record).lifecycle == record.lifecycle,
        failed_record(record).drain_deadline_unix_nanos == record.drain_deadline_unix_nanos,
        failed_record(record).rollback_deadline_unix_nanos == record.rollback_deadline_unix_nanos,
        failed_record(record).retirement_reason == record.retirement_reason,
        staging_failed(record).health == ControlHealth::Failed,
        staging_failed(record).lifecycle == ControlLifecycle::Retired,
        staging_failed(record).retirement_reason == Some(RetirementReason::StagingFailed),
        replaced_record(record, shutdown_failed).lifecycle == ControlLifecycle::Retired,
        replaced_record(record, shutdown_failed).retirement_reason == Some(RetirementReason::Replaced),
        shutdown_failed ==> replaced_record(record, shutdown_failed).health == ControlHealth::Failed,
        !shutdown_failed ==> replaced_record(record, shutdown_failed).health == record.health,
        standby_record(record).lifecycle == ControlLifecycle::Standby,
        standby_record(record).drain_deadline_unix_nanos is None,
        standby_record(record).rollback_deadline_unix_nanos == record.rollback_deadline_unix_nanos,
        standby_record(record).health == record.health,
        draining_record(record, deadline).lifecycle == ControlLifecycle::Draining,
        draining_record(record, deadline).drain_deadline_unix_nanos == Some(deadline),
        draining_record(record, deadline).rollback_deadline_unix_nanos == record.rollback_deadline_unix_nanos,
        draining_record(record, deadline).health == record.health,
        retired_record(record, reason, shutdown_failed).lifecycle == ControlLifecycle::Retired,
        retired_record(record, reason, shutdown_failed).retirement_reason == Some(reason),
        retired_record(record, reason, shutdown_failed).drain_deadline_unix_nanos is None,
        retired_record(record, reason, shutdown_failed).rollback_deadline_unix_nanos is None,
        shutdown_failed ==> retired_record(record, reason, shutdown_failed).health == ControlHealth::Failed,
        !shutdown_failed ==> retired_record(record, reason, shutdown_failed).health == record.health,
        reactivated_record(record).lifecycle == ControlLifecycle::Active,
        reactivated_record(record).activation_direction == ActivationDirection::Rollback,
        reactivated_record(record).drain_deadline_unix_nanos is None,
        reactivated_record(record).health == record.health,
        same_generation(record, failed_record(record)),
        same_generation(record, staging_failed(record)),
        same_generation(record, replaced_record(record, shutdown_failed)),
        same_generation(record, standby_record(record)),
        same_generation(record, draining_record(record, deadline)),
        same_generation(record, retired_record(record, reason, shutdown_failed)),
        same_generation(record, reactivated_record(record)),
{
}

/// Two records are about one Generation, under one transition, one policy and the same receipts.
pub open spec fn same_generation(a: RecordView, b: RecordView) -> bool {
    &&& a.generation_spec_digest == b.generation_spec_digest
    &&& a.transition_spec_digest == b.transition_spec_digest
    &&& a.ready_timeout_nanos == b.ready_timeout_nanos
    &&& a.drain_timeout_nanos == b.drain_timeout_nanos
    &&& a.automatic_rollback_on_generation_failure == b.automatic_rollback_on_generation_failure
    &&& a.state_compatibility_receipt_digests == b.state_compatibility_receipt_digests
}
} // verus!
