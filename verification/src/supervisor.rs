//! Process-local authority for staging, route switching, leases, rollback and retirement.
use vstd::prelude::*;
use vstd::string::*;

use crate::canonical::CanonicalDocument;
use crate::durable_supervisor::failure;
use crate::edge::{
    authorizes, compatibility_result, edge_fault, one_changed_instance_needs_its_one_receipt, unchanged, validate_edge,
    validate_state_compatibility, Receipts,
};
use crate::error::{rejected, rejected_about, rejection, ControlPlaneError};
use crate::generation::{copy_identities, identities, ResolvedGeneration};
use crate::lifecycle::{nanos, parse_nanos, unknown, unknown_generation};
use crate::model::{AppGenerationTransitionSpec, ReplacementMode, StateCompatibilityReceipt, StatefulRuntimeIdentity};
use crate::text;
use crate::text::{opt_text, texts};
use crate::text_map::TextMap;

verus! {

/// Operator-visible lifecycle state of one staged Generation.
#[derive(Clone, Copy, Debug, PartialEq, Eq, Structural)]
pub enum GenerationStatus {
    Active,
    Draining,
    RollbackStandby,
}

/// One staged Generation.
#[derive(Debug)]
pub struct GenerationSlot<H> {
    pub handle: H,
    pub stateful_instances: TextMap<StatefulRuntimeIdentity>,
    pub leases: usize,
    pub status: GenerationStatus,
    /// The routing epoch in which the Generation was installed.
    pub staged_at: u64,
}

/// Route-pinned authority retained by one complete product operation or Turn.
#[derive(Debug)]
pub struct GenerationLease {
    generation_spec_digest: String,
    routing_epoch: u64,
    staged_at: u64,
}

impl GenerationLease {
    /// The pinned Generation.
    pub closed spec fn pinned(self) -> Seq<char> {
        self.generation_spec_digest@
    }

    /// The routing epoch of the admission.
    pub closed spec fn epoch(self) -> u64 {
        self.routing_epoch
    }

    /// The installation that the lease counts against.
    pub closed spec fn installation(self) -> u64 {
        self.staged_at
    }

    /// Returns the exact immutable Generation selected at route admission.
    pub fn generation_spec_digest(&self) -> (r: &str)
        ensures
            r@ == self.pinned(),
    {
        self.generation_spec_digest.as_str()
    }

    /// Returns the fencing epoch committed with this route.
    pub fn routing_epoch(&self) -> (r: u64)
        ensures
            r == self.epoch(),
    {
        self.routing_epoch
    }
}

/// Result of an atomic generation route switch.
#[derive(Clone, Debug, PartialEq, Eq)]
pub struct TransitionOutcome {
    pub active_generation_spec_digest: String,
    pub routing_epoch: u64,
    pub draining_generation_spec_digest: Option<String>,
}

/// A switch whose candidate waits to be staged.
#[derive(Debug)]
pub struct PendingSwitch {
    candidate: String,
    ready_timeout_nanos: u64,
    keeps_standby: bool,
    stateful_instances: TextMap<StatefulRuntimeIdentity>,
}

impl PendingSwitch {
    /// The Generation that is to be staged.
    pub closed spec fn stages(self) -> Seq<char> {
        self.candidate@
    }

    /// The time that staging may take.
    pub closed spec fn ready_timeout(self) -> u64 {
        self.ready_timeout_nanos
    }

    /// The predecessor is kept for a rollback.
    pub closed spec fn standby(self) -> bool {
        self.keeps_standby
    }

    /// The stateful Instances of the candidate.
    pub closed spec fn stateful(self) -> TextMap<StatefulRuntimeIdentity> {
        self.stateful_instances
    }

    /// The switch as it was begun.
    pub open spec fn is_for(self, edge: AppGenerationTransitionSpec, candidate: ResolvedGeneration) -> bool {
        &&& self.stages() == candidate.digest()
        &&& nanos(edge.rollout_policy.ready_timeout_nanos@, "ready timeout"@) == Ok::<nat, Seq<char>>(self.ready_timeout() as nat)
        &&& self.standby() == (edge.rollout_policy.rollback_window_nanos@ != "0"@)
        &&& self.stateful().wf()
        &&& identities(self.stateful()) == identities(candidate.stateful_instances)
    }
}

/// What a begun switch needs first.
#[derive(Debug)]
pub enum SwitchStep<H> {
    /// Stage the candidate, then hand the outcome to `candidate_staged`.
    Stage { ready_timeout_nanos: u64 },
    /// Stop the predecessor, then hand the outcome to `active_stopped`.
    StopActive { handle: H, drain_timeout_nanos: u64 },
}

/// Single authority for staging, fenced route switching, leases, rollback, and retirement.
#[derive(Debug)]
pub struct GenerationSupervisor<H> {
    app_id: String,
    routing_epoch: u64,
    active: Option<String>,
    slots: TextMap<GenerationSlot<H>>,
}

/// The facts that a Supervisor decides by.
pub struct SupervisorView<H> {
    pub app_id: Seq<char>,
    pub routing_epoch: u64,
    pub active: Option<Seq<char>>,
    pub slots: Map<Seq<char>, GenerationSlot<H>>,
}

/// Why an authorized edge is refused before anything is staged or stopped.
pub open spec fn switch_fault<H>(view: SupervisorView<H>, edge: AppGenerationTransitionSpec, candidate: ResolvedGeneration) -> Option<Seq<char>> {
    match nanos(edge.rollout_policy.ready_timeout_nanos@, "ready timeout"@) {
        Err(detail) => Some(detail),
        Ok(_) => match nanos(edge.rollout_policy.drain_timeout_nanos@, "drain timeout"@) {
            Err(detail) => Some(detail),
            Ok(_) => if edge.replacement_mode == ReplacementMode::Maintenance {
                if edge.rollout_policy.rollback_window_nanos@ != "0"@ || edge.rollout_policy.automatic_rollback_on_generation_failure {
                    Some("maintenance replacement cannot retain automatic rollback"@)
                } else if view.slots[view.active->Some_0].leases != 0 {
                    Some("maintenance replacement cannot stop a leased Generation"@)
                } else {
                    None
                }
            } else if view.slots.dom().contains(candidate.digest()) {
                Some("candidate Generation is already staged"@)
            } else {
                None
            },
        },
    }
}

/// The view after the route went to another Generation.
pub open spec fn switched<H>(before: SupervisorView<H>, to: Seq<char>, slot: GenerationSlot<H>, previous: GenerationStatus) -> SupervisorView<H> {
    let added = before.slots.insert(to, GenerationSlot { status: GenerationStatus::Active, ..slot });
    SupervisorView {
        routing_epoch: (before.routing_epoch + 1) as u64,
        active: Some(to),
        slots: match before.active {
            Some(active) => added.insert(active, GenerationSlot { status: previous, ..added[active] }),
            None => added,
        },
        ..before
    }
}

/// A switch as it is reported.
pub open spec fn switch_reported<H>(outcome: TransitionOutcome, before: SupervisorView<H>, after: SupervisorView<H>) -> bool {
    &&& after.active == Some(outcome.active_generation_spec_digest@)
    &&& outcome.routing_epoch == after.routing_epoch
    &&& opt_text(outcome.draining_generation_spec_digest) == before.active
}

/// What beginning a transition comes to: a refusal that changes nothing, or what is to be done first.
pub open spec fn switch_begun<H>(
    before: SupervisorView<H>,
    edge: AppGenerationTransitionSpec,
    candidate: ResolvedGeneration,
    receipts: Receipts,
    after: SupervisorView<H>,
    r: Result<(PendingSwitch, SwitchStep<H>), ControlPlaneError>,
) -> bool {
    let previous = match before.active {
        Some(active) => Some(before.slots[active].stateful_instances),
        None => None,
    };
    match edge_fault(before.app_id, before.active, edge, candidate) {
        Some(detail) => after == before && failure(r) == Some(rejection(detail)),
        None => if !compatibility_result(before.app_id, previous, candidate, edge, receipts, Ok(())) {
            after == before && r is Err && compatibility_result(
                before.app_id,
                previous,
                candidate,
                edge,
                receipts,
                Err(r->Err_0),
            )
        } else {
            match switch_fault(before, edge, candidate) {
                Some(detail) => after == before && failure(r) == Some(rejection(detail)),
                None => if edge.replacement_mode == ReplacementMode::Maintenance {
                    let active = before.active->Some_0;
                    &&& after == called(before, Call::StopActive)
                    &&& r matches Ok(begun) && begun.0.is_for(edge, candidate) && (begun.1 matches SwitchStep::StopActive {
                        handle,
                        drain_timeout_nanos,
                    } && handle == before.slots[active].handle && nanos(
                        edge.rollout_policy.drain_timeout_nanos@,
                        "drain timeout"@,
                    ) == Ok::<nat, Seq<char>>(drain_timeout_nanos as nat))
                } else {
                    &&& after == before
                    &&& r matches Ok(begun) && begun.0.is_for(edge, candidate) && begun.1 == (SwitchStep::<H>::Stage {
                        ready_timeout_nanos: begun.0.ready_timeout(),
                    })
                },
            }
        },
    }
}

/// One call of a Supervisor that can change what it decides by.
pub enum Call<H> {
    /// A lease on the Generation that holds the route.
    Lease,
    /// A lease is given back.
    Release { pinned: Seq<char>, installation: u64 },
    /// The Generation that holds the route is stopped for maintenance.
    StopActive,
    /// A candidate was staged and gets the route.
    Install { candidate: Seq<char>, handle: H, stateful_instances: TextMap<StatefulRuntimeIdentity>, keeps_standby: bool },
    /// The route goes back to a retained Generation.
    Rollback { standby: Seq<char> },
    /// A rollback window ends.
    CloseWindow { digest: Seq<char> },
    /// A drained Generation retires.
    Retire { digest: Seq<char> },
}

/// What a Supervisor decides by after a call; a call that is refused leaves it as it was.
pub open spec fn called<H>(before: SupervisorView<H>, call: Call<H>) -> SupervisorView<H> {
    match call {
        Call::Lease => match before.active {
            Some(active) if before.slots[active].leases < usize::MAX => SupervisorView {
                slots: before.slots.insert(
                    active,
                    GenerationSlot { leases: (before.slots[active].leases + 1) as usize, ..before.slots[active] },
                ),
                ..before
            },
            _ => before,
        },
        Call::Release { pinned, installation } => if before.slots.dom().contains(pinned) && before.slots[pinned].staged_at == installation {
            let slot = before.slots[pinned];
            SupervisorView {
                slots: before.slots.insert(
                    pinned,
                    GenerationSlot { leases: (if slot.leases > 0 { slot.leases - 1 } else { 0 }) as usize, ..slot },
                ),
                ..before
            }
        } else {
            before
        },
        Call::StopActive => match before.active {
            Some(active) if before.slots[active].leases == 0 => SupervisorView { active: None, slots: before.slots.remove(active), ..before },
            _ => before,
        },
        Call::Install { candidate, handle, stateful_instances, keeps_standby } => if before.routing_epoch == u64::MAX {
            SupervisorView { active: Some(candidate), ..before }
        } else {
            switched(
                before,
                candidate,
                GenerationSlot {
                    handle,
                    stateful_instances,
                    leases: 0,
                    status: GenerationStatus::Active,
                    staged_at: (before.routing_epoch + 1) as u64,
                },
                if keeps_standby {
                    GenerationStatus::RollbackStandby
                } else {
                    GenerationStatus::Draining
                },
            )
        },
        Call::Rollback { standby } => if !before.slots.dom().contains(standby) || before.slots[standby].status
            != GenerationStatus::RollbackStandby {
            before
        } else if before.routing_epoch == u64::MAX {
            SupervisorView { active: Some(standby), ..before }
        } else {
            switched(before, standby, before.slots[standby], GenerationStatus::Draining)
        },
        Call::CloseWindow { digest } => if before.slots.dom().contains(digest) && before.slots[digest].status
            == GenerationStatus::RollbackStandby {
            SupervisorView {
                slots: before.slots.insert(digest, GenerationSlot { status: GenerationStatus::Draining, ..before.slots[digest] }),
                ..before
            }
        } else {
            before
        },
        Call::Retire { digest } => if before.slots.dom().contains(digest) && before.slots[digest].status == GenerationStatus::Draining
            && before.slots[digest].leases == 0 {
            SupervisorView { slots: before.slots.remove(digest), ..before }
        } else {
            before
        },
    }
}

/// What comes of the outcome of staging a candidate.
pub open spec fn switch_settled<H>(
    before: SupervisorView<H>,
    pending: PendingSwitch,
    staged: Result<H, ControlPlaneError>,
    after: SupervisorView<H>,
    r: Result<TransitionOutcome, ControlPlaneError>,
) -> bool {
    match staged {
        Err(error) => after == before && r == Err::<TransitionOutcome, ControlPlaneError>(error),
        Ok(handle) => after == called(
            before,
            Call::Install {
                candidate: pending.stages(),
                handle,
                stateful_instances: pending.stateful(),
                keeps_standby: pending.standby(),
            },
        ) && if before.routing_epoch == u64::MAX {
            failure(r) == Some(rejection("routing epoch exhausted"@))
        } else {
            r matches Ok(outcome) && switch_reported(outcome, before, after)
        },
    }
}

/// What a request for a lease is answered.
pub open spec fn lease_granted<H>(before: SupervisorView<H>, r: Result<GenerationLease, ControlPlaneError>) -> bool {
    match before.active {
        None => failure(r) == Some(rejection("no active App Generation"@)),
        Some(active) => if before.slots[active].leases == usize::MAX {
            failure(r) == Some(rejection("Generation lease count exhausted"@))
        } else {
            r matches Ok(lease) && lease.pinned() == active && lease.epoch() == before.routing_epoch && lease.installation()
                == before.slots[active].staged_at
        },
    }
}

/// What a rollback is answered.
pub open spec fn rollback_answered<H>(
    before: SupervisorView<H>,
    standby: Seq<char>,
    after: SupervisorView<H>,
    r: Result<TransitionOutcome, ControlPlaneError>,
) -> bool {
    if !before.slots.dom().contains(standby) {
        failure(r) == Some(rejection("Generation `"@ + standby + "` is not retained"@))
    } else if before.slots[standby].status != GenerationStatus::RollbackStandby {
        failure(r) == Some(rejection("rollback target is not in rollback standby"@))
    } else if before.routing_epoch == u64::MAX {
        failure(r) == Some(rejection("routing epoch exhausted"@))
    } else {
        r matches Ok(outcome) && switch_reported(outcome, before, after)
    }
}

/// What the end of a rollback window is answered.
pub open spec fn window_closed<H>(before: SupervisorView<H>, digest: Seq<char>, r: Result<(), ControlPlaneError>) -> bool {
    if !before.slots.dom().contains(digest) {
        failure(r) == Some(rejection(unknown(digest)))
    } else if before.slots[digest].status != GenerationStatus::RollbackStandby {
        failure(r) == Some(rejection("Generation is not in rollback standby"@))
    } else {
        r is Ok
    }
}

/// What a retirement is answered.
pub open spec fn retirement_answered<H>(before: SupervisorView<H>, digest: Seq<char>, r: Result<H, ControlPlaneError>) -> bool {
    if !before.slots.dom().contains(digest) {
        failure(r) == Some(rejection(unknown(digest)))
    } else if before.slots[digest].status != GenerationStatus::Draining || before.slots[digest].leases != 0 {
        failure(r) == Some(rejection("Generation is not drained or still has active leases"@))
    } else {
        r == Ok::<H, ControlPlaneError>(before.slots[digest].handle)
    }
}

impl<H> GenerationSupervisor<H> {
    /// The facts that the Supervisor decides by.
    pub closed spec fn view(self) -> SupervisorView<H> {
        SupervisorView {
            app_id: self.app_id@,
            routing_epoch: self.routing_epoch,
            active: opt_text(self.active),
            slots: self.slots.map(),
        }
    }

    /// The staged Generations in the order of their digests.
    pub closed spec fn slot_order(self) -> Seq<(Seq<char>, GenerationSlot<H>)> {
        self.slots.entries()
    }

    /// The staged Generations are kept in order.
    pub closed spec fn inv(self) -> bool {
        &&& self.slots.wf()
        &&& forall|digest: Seq<char>| #[trigger] self.slots.map().dom().contains(digest) ==> self.slots.map()[digest].stateful_instances.wf()
    }

    /// The Generation with the route is staged.
    pub open spec fn active_is_staged(self) -> bool {
        self.view().active matches Some(active) ==> self.view().slots.dom().contains(active)
    }

    /// Creates an empty Supervisor for one exact App identity.
    pub fn new(app_id: String) -> (r: Self)
        ensures
            r.inv(),
            r.active_is_staged(),
            r.view() == (SupervisorView::<H> {
                app_id: app_id@,
                routing_epoch: 0,
                active: None,
                slots: Map::empty(),
            }),
    {
        GenerationSupervisor { app_id, routing_epoch: 0, active: None, slots: TextMap::new() }
    }

    /// Sets the status of one staged Generation.
    fn set_status(&mut self, digest: &str, status: GenerationStatus)
        requires
            old(self).inv(),
            old(self).view().slots.dom().contains(digest@),
        ensures
            final(self).inv(),
            final(self).view() == (SupervisorView::<H> {
                slots: old(self).view().slots.insert(digest@, GenerationSlot { status, ..old(self).view().slots[digest@] }),
                ..old(self).view()
            }),
    {
        let ghost before = self.slots.map();
        proof {
            self.slots.map_of_entries(digest@);
        }
        let slot = self.slots.remove(digest).unwrap();
        self.slots.insert(
            digest.to_owned(),
            GenerationSlot {
                handle: slot.handle,
                stateful_instances: slot.stateful_instances,
                leases: slot.leases,
                status,
                staged_at: slot.staged_at,
            },
        );
        proof {
            assert(self.slots.map() =~= before.insert(digest@, GenerationSlot { status, ..before[digest@] }));
        }
    }

    /// Begins one exact transition: validates it and says what is to be done first.
    pub fn begin_transition_with_receipts(
        &mut self,
        transition: &CanonicalDocument<AppGenerationTransitionSpec>,
        candidate: &ResolvedGeneration,
        receipts: &Receipts,
    ) -> (r: Result<(PendingSwitch, SwitchStep<H>), ControlPlaneError>)
        requires
            old(self).inv(),
            edge_fault(old(self).view().app_id, old(self).view().active, transition.typed(), *candidate) is None ==> old(self).active_is_staged(),
            candidate.wf(),
            receipts.wf(),
        ensures
            final(self).inv(),
            old(self).active_is_staged() ==> final(self).active_is_staged(),
            switch_begun(old(self).view(), transition.typed(), *candidate, *receipts, final(self).view(), r),
    {
        let ghost before = self.view();
        let edge = transition.value();
        let active: Option<&str> = match &self.active {
            Some(active) => Some(active.as_str()),
            None => None,
        };
        match validate_edge(self.app_id.as_str(), active, edge, candidate) {
            Ok(_) => {},
            Err(error) => return Err(error),
        }
        let previous: Option<&TextMap<StatefulRuntimeIdentity>> = match active {
            Some(active) => match self.slots.get(active) {
                Some(slot) => Some(&slot.stateful_instances),
                None => None,
            },
            None => None,
        };
        proof {
            if before.active is Some {
                assert(self.slots.map().dom().contains(before.active->Some_0));
            }
        }
        match validate_state_compatibility(self.app_id.as_str(), previous, candidate, edge, receipts) {
            Ok(_) => {},
            Err(error) => return Err(error),
        }
        let ready_timeout_nanos = match parse_nanos(edge.rollout_policy.ready_timeout_nanos.as_str(), "ready timeout") {
            Ok(timeout) => timeout,
            Err(error) => return Err(error),
        };
        let drain_timeout_nanos = match parse_nanos(edge.rollout_policy.drain_timeout_nanos.as_str(), "drain timeout") {
            Ok(timeout) => timeout,
            Err(error) => return Err(error),
        };
        let keeps_standby = !text::same(edge.rollout_policy.rollback_window_nanos.as_str(), "0");
        let pending = PendingSwitch {
            candidate: candidate.spec.digest().to_owned(),
            ready_timeout_nanos,
            keeps_standby,
            stateful_instances: copy_identities(&candidate.stateful_instances),
        };
        if edge.replacement_mode == ReplacementMode::Maintenance {
            if keeps_standby || edge.rollout_policy.automatic_rollback_on_generation_failure {
                return Err(rejected("maintenance replacement cannot retain automatic rollback"));
            }
            let stopped = text::copy_opt(&self.active).unwrap();
            let leases = self.slots.get(stopped.as_str()).unwrap().leases;
            if leases != 0 {
                return Err(rejected("maintenance replacement cannot stop a leased Generation"));
            }
            let slot = self.slots.remove(stopped.as_str()).unwrap();
            self.active = None;
            return Ok((pending, SwitchStep::StopActive { handle: slot.handle, drain_timeout_nanos }));
        }
        if self.slots.contains_key(pending.candidate.as_str()) {
            return Err(rejected("candidate Generation is already staged"));
        }
        Ok((pending, SwitchStep::Stage { ready_timeout_nanos }))
    }

    /// Takes what came of stopping the predecessor and says how long staging may take.
    pub fn active_stopped(&self, pending: &PendingSwitch, shutdown: Result<(), ControlPlaneError>) -> (r: Result<u64, ControlPlaneError>)
        requires
            self.inv(),
        ensures
            match shutdown {
                Err(error) => r == Err::<u64, ControlPlaneError>(error),
                Ok(_) => if self.view().slots.dom().contains(pending.stages()) {
                    failure(r) == Some(rejection("candidate Generation is already staged"@))
                } else {
                    r == Ok::<u64, ControlPlaneError>(pending.ready_timeout())
                },
            },
    {
        match shutdown {
            Ok(_) => {},
            Err(error) => return Err(error),
        }
        if self.slots.contains_key(pending.candidate.as_str()) {
            return Err(rejected("candidate Generation is already staged"));
        }
        Ok(pending.ready_timeout_nanos)
    }

    /// Takes what came of staging the candidate and switches the route to it.
    pub fn candidate_staged(&mut self, pending: PendingSwitch, staged: Result<H, ControlPlaneError>) -> (r: Result<TransitionOutcome, ControlPlaneError>)
        requires
            old(self).inv(),
            old(self).active_is_staged(),
            pending.stateful().wf(),
        ensures
            final(self).inv(),
            r is Ok ==> final(self).active_is_staged(),
            switch_settled(old(self).view(), pending, staged, final(self).view(), r),
    {
        let handle = match staged {
            Ok(handle) => handle,
            Err(error) => return Err(error),
        };
        let ghost before = self.view();
        let previous = text::copy_opt(&self.active);
        self.active = Some(pending.candidate.clone());
        if self.routing_epoch == u64::MAX {
            return Err(rejected("routing epoch exhausted"));
        }
        self.routing_epoch = self.routing_epoch + 1;
        let digest = pending.candidate.clone();
        self.slots.insert(
            pending.candidate,
            GenerationSlot {
                handle,
                stateful_instances: pending.stateful_instances,
                leases: 0,
                status: GenerationStatus::Active,
                staged_at: self.routing_epoch,
            },
        );
        match &previous {
            Some(previous) => {
                self.set_status(
                    previous.as_str(),
                    if pending.keeps_standby {
                        GenerationStatus::RollbackStandby
                    } else {
                        GenerationStatus::Draining
                    },
                );
            },
            None => {},
        }
        Ok(
            TransitionOutcome {
                active_generation_spec_digest: digest,
                routing_epoch: self.routing_epoch,
                draining_generation_spec_digest: previous,
            },
        )
    }

    /// Pins the current active Generation and routing epoch for one complete operation.
    pub fn lease(&mut self) -> (r: Result<GenerationLease, ControlPlaneError>)
        requires
            old(self).inv(),
            old(self).active_is_staged(),
        ensures
            final(self).inv(),
            final(self).active_is_staged(),
            final(self).view() == called(old(self).view(), Call::Lease),
            lease_granted(old(self).view(), r),
    {
        let digest = match &self.active {
            Some(active) => active.clone(),
            None => return Err(rejected("no active App Generation")),
        };
        proof {
            self.slots.map_of_entries(digest@);
        }
        if self.slots.get(digest.as_str()).unwrap().leases == usize::MAX {
            return Err(rejected("Generation lease count exhausted"));
        }
        let ghost before = self.slots.map();
        let slot = self.slots.remove(digest.as_str()).unwrap();
        let staged_at = slot.staged_at;
        self.slots.insert(
            digest.clone(),
            GenerationSlot {
                handle: slot.handle,
                stateful_instances: slot.stateful_instances,
                leases: slot.leases + 1,
                status: slot.status,
                staged_at,
            },
        );
        proof {
            assert(self.slots.map() =~= before.insert(
                digest@,
                GenerationSlot { leases: (before[digest@].leases + 1) as usize, ..before[digest@] },
            ));
        }
        Ok(GenerationLease { generation_spec_digest: digest, routing_epoch: self.routing_epoch, staged_at })
    }

    /// Gives a lease back. A lease on a Generation that is gone counts against nothing.
    pub fn release(&mut self, lease: GenerationLease)
        requires
            old(self).inv(),
        ensures
            final(self).inv(),
            old(self).active_is_staged() ==> final(self).active_is_staged(),
            final(self).view() == called(
                old(self).view(),
                Call::Release { pinned: lease.pinned(), installation: lease.installation() },
            ),
    {
        let pinned = match self.slots.get(lease.generation_spec_digest.as_str()) {
            Some(slot) => slot.staged_at == lease.staged_at,
            None => false,
        };
        if !pinned {
            return ;
        }
        let ghost before = self.slots.map();
        let slot = self.slots.remove(lease.generation_spec_digest.as_str()).unwrap();
        let leases: usize = if slot.leases > 0 {
            slot.leases - 1
        } else {
            0
        };
        self.slots.insert(
            lease.generation_spec_digest,
            GenerationSlot {
                handle: slot.handle,
                stateful_instances: slot.stateful_instances,
                leases,
                status: slot.status,
                staged_at: slot.staged_at,
            },
        );
        proof {
            assert(self.slots.map() =~= before.insert(lease.pinned(), GenerationSlot { leases, ..before[lease.pinned()] }));
        }
    }

    /// Rolls the route back to an explicitly retained standby Generation.
    pub fn rollback(&mut self, standby_digest: &str) -> (r: Result<TransitionOutcome, ControlPlaneError>)
        requires
            old(self).inv(),
            old(self).active_is_staged(),
        ensures
            final(self).inv(),
            final(self).active_is_staged(),
            final(self).view() == called(old(self).view(), Call::Rollback { standby: standby_digest@ }),
            rollback_answered(old(self).view(), standby_digest@, final(self).view(), r),
    {
        let ghost before = self.view();
        match self.slots.get(standby_digest) {
            Some(slot) => {
                if slot.status != GenerationStatus::RollbackStandby {
                    return Err(rejected("rollback target is not in rollback standby"));
                }
            },
            None => return Err(rejected_about("Generation `", standby_digest, "` is not retained")),
        }
        let failed = text::copy_opt(&self.active);
        self.active = Some(standby_digest.to_owned());
        if self.routing_epoch == u64::MAX {
            return Err(rejected("routing epoch exhausted"));
        }
        self.routing_epoch = self.routing_epoch + 1;
        self.set_status(standby_digest, GenerationStatus::Active);
        match &failed {
            Some(failed) => {
                self.set_status(failed.as_str(), GenerationStatus::Draining);
            },
            None => {},
        }
        Ok(
            TransitionOutcome {
                active_generation_spec_digest: standby_digest.to_owned(),
                routing_epoch: self.routing_epoch,
                draining_generation_spec_digest: failed,
            },
        )
    }

    /// Ends a rollback window and marks one standby Generation ready to drain.
    pub fn close_rollback_window(&mut self, digest: &str) -> (r: Result<(), ControlPlaneError>)
        requires
            old(self).inv(),
        ensures
            final(self).inv(),
            old(self).active_is_staged() ==> final(self).active_is_staged(),
            final(self).view() == called(old(self).view(), Call::CloseWindow { digest: digest@ }),
            window_closed(old(self).view(), digest@, r),
    {
        match self.slots.get(digest) {
            Some(slot) => {
                if slot.status != GenerationStatus::RollbackStandby {
                    return Err(rejected("Generation is not in rollback standby"));
                }
            },
            None => return Err(unknown_generation(digest)),
        }
        self.set_status(digest, GenerationStatus::Draining);
        Ok(())
    }

    /// Retires one drained Generation only after all route leases are released: hands out its
    /// resources to be released.
    pub fn retire(&mut self, digest: &str) -> (r: Result<H, ControlPlaneError>)
        requires
            old(self).inv(),
        ensures
            final(self).inv(),
            final(self).view() == called(old(self).view(), Call::Retire { digest: digest@ }),
            retirement_answered(old(self).view(), digest@, r),
    {
        match self.slots.get(digest) {
            Some(slot) => {
                if slot.status != GenerationStatus::Draining || slot.leases != 0 {
                    return Err(rejected("Generation is not drained or still has active leases"));
                }
            },
            None => return Err(unknown_generation(digest)),
        }
        let slot = self.slots.remove(digest).unwrap();
        Ok(slot.handle)
    }

    /// Returns current lifecycle state and lease count for operator UX.
    pub fn generations(&self) -> (r: Vec<(String, GenerationStatus, usize)>)
        ensures
            r@.len() == self.slot_order().len(),
            forall|i: int| 0 <= i < r@.len() ==> (#[trigger] r@[i]).0@ == self.slot_order()[i].0 && r@[i].1 == self.slot_order()[i].1.status
                && r@[i].2 == self.slot_order()[i].1.leases,
    {
        let mut r: Vec<(String, GenerationStatus, usize)> = Vec::new();
        let mut i: usize = 0;
        while i < self.slots.len()
            invariant
                i <= self.slots.entries().len(),
                r@.len() == i,
                forall|k: int| 0 <= k < i ==> (#[trigger] r@[k]).0@ == self.slots.entries()[k].0 && r@[k].1 == self.slots.entries()[k].1.status
                    && r@[k].2 == self.slots.entries()[k].1.leases,
            decreases self.slots.entries().len() - i,
        {
            let slot = self.slots.value_at(i);
            r.push((self.slots.key_at(i).to_owned(), slot.status, slot.leases));
            i = i + 1;
        }
        r
    }
}

/// A switch of the route moves to a later routing epoch, and the Generation that loses the route
/// keeps its leases.
pub proof fn switch_advances_and_keeps_leases<H>(before: SupervisorView<H>, to: Seq<char>, slot: GenerationSlot<H>, previous: GenerationStatus)
    requires
        before.routing_epoch < u64::MAX,
        before.active matches Some(active) ==> before.slots.dom().contains(active) && active != to,
    ensures
        switched(before, to, slot, previous).routing_epoch == before.routing_epoch + 1,
        switched(before, to, slot, previous).active == Some(to),
        before.active matches Some(active) ==> switched(before, to, slot, previous).slots[active].leases == before.slots[active].leases
            && switched(before, to, slot, previous).slots[active].status == previous,
{
}

/// What a Supervisor decides by after a series of calls.
pub open spec fn run<H>(before: SupervisorView<H>, calls: Seq<Call<H>>) -> SupervisorView<H>
    decreases calls.len(),
{
    if calls.len() == 0 {
        before
    } else {
        called(run(before, calls.drop_last()), calls.last())
    }
}

/// The leases on a Generation that a series of calls grants.
pub open spec fn granted<H>(before: SupervisorView<H>, calls: Seq<Call<H>>, digest: Seq<char>) -> nat
    decreases calls.len(),
{
    if calls.len() == 0 {
        0
    } else {
        let view = run(before, calls.drop_last());
        granted(before, calls.drop_last(), digest) + (if calls.last() is Lease && view.active == Some(digest) && view.slots[digest].leases
            < usize::MAX {
            1nat
        } else {
            0
        })
    }
}

/// The leases on an installation of a Generation that a series of calls gives back.
pub open spec fn returned<H>(calls: Seq<Call<H>>, digest: Seq<char>, installation: u64) -> nat
    decreases calls.len(),
{
    if calls.len() == 0 {
        0
    } else {
        returned(calls.drop_last(), digest, installation) + (if calls.last() == (Call::<H>::Release { pinned: digest, installation }) {
            1nat
        } else {
            0
        })
    }
}

/// A lease pins its Generation: whatever is called while at least one lease on it is held, however
/// the route moves, the Generation stays installed with its resources and cannot be retired.
///
/// Before the calls there are `held` leases. At every point fewer were given back than there were
/// and were granted, and a candidate is staged only where it is not staged already.
pub proof fn a_lease_pins_its_generation<H>(before: SupervisorView<H>, calls: Seq<Call<H>>, digest: Seq<char>, held: nat)
    requires
        before.slots.dom().contains(digest),
        before.slots[digest].leases == held,
        forall|n: int| 0 <= n <= calls.len() ==> returned(#[trigger] calls.take(n), digest, before.slots[digest].staged_at) < held + granted(
            before,
            calls.take(n),
            digest,
        ),
        forall|n: int|
            0 <= n < calls.len() ==> (#[trigger] calls[n] matches Call::Install { candidate, .. } ==> !run(before, calls.take(n)).slots.dom().contains(
                candidate,
            )),
    ensures
        ({
            let after = run(before, calls);
            &&& after.slots.dom().contains(digest)
            &&& after.slots[digest].handle == before.slots[digest].handle
            &&& after.slots[digest].staged_at == before.slots[digest].staged_at
            &&& after.slots[digest].leases == held + granted(before, calls, digest) - returned(
                calls,
                digest,
                before.slots[digest].staged_at,
            )
            &&& after.slots[digest].leases > 0
            &&& called(after, Call::Retire { digest }) == after
        }),
    decreases calls.len(),
{
    assert(calls.take(calls.len() as int) =~= calls);
    if calls.len() > 0 {
        let rest = calls.drop_last();
        assert forall|n: int| 0 <= n <= rest.len() implies returned(#[trigger] rest.take(n), digest, before.slots[digest].staged_at) < held
            + granted(before, rest.take(n), digest) by {
            assert(rest.take(n) =~= calls.take(n));
        }
        assert forall|n: int| 0 <= n < rest.len() implies (#[trigger] rest[n] matches Call::Install { candidate, .. } ==> !run(
            before,
            rest.take(n),
        ).slots.dom().contains(candidate)) by {
            assert(rest.take(n) =~= calls.take(n));
            assert(rest[n] == calls[n]);
        }
        a_lease_pins_its_generation(before, rest, digest, held);
        assert(calls.take(calls.len() - 1) =~= rest);
        assert(calls[calls.len() - 1] == calls.last());
    }
}

/// An overlap that changes one stateful Instance of the active Generation goes through with exactly the
/// one receipt that it declares: without it, or with any further one, it is refused and changes nothing;
/// with it, and once its candidate is staged, the candidate has the route under the next epoch.
pub proof fn an_overlap_needs_exactly_its_receipt<H>(
    before: SupervisorView<H>,
    edge: AppGenerationTransitionSpec,
    candidate: ResolvedGeneration,
    receipt: CanonicalDocument<StateCompatibilityReceipt>,
    key: Seq<char>,
    receipts: Receipts,
    begun: SupervisorView<H>,
    r: Result<(PendingSwitch, SwitchStep<H>), ControlPlaneError>,
    handle: H,
)
    requires
        edge_fault(before.app_id, before.active, edge, candidate) is None,
        switch_fault(before, edge, candidate) is None,
        edge.replacement_mode == ReplacementMode::Overlap,
        before.routing_epoch < u64::MAX,
        receipts.wf(),
        before.slots[before.active->Some_0].stateful_instances.has(key),
        candidate.stateful_instances.has(key),
        forall|other: Seq<char>| #[trigger]
            unchanged(before.slots[before.active->Some_0].stateful_instances, candidate.stateful_instances, other) <==> other != key,
        texts(edge.state_compatibility_receipt_digests@) == seq![receipt.identity()],
        receipt.typed().module_instance_key@ == key,
        authorizes(
            receipt.typed(),
            before.app_id,
            edge,
            before.slots[before.active->Some_0].stateful_instances.at(key),
            candidate.stateful_instances.at(key),
        ),
        switch_begun(before, edge, candidate, receipts, begun, r),
    ensures
        begun == before,
        receipts.entries().len() == 0 ==> r is Err,
        receipts.entries().len() > 1 ==> r is Err,
        receipts.entries() == seq![(receipt.identity(), receipt)] ==> {
            &&& r matches Ok((pending, step)) && pending.stages() == candidate.digest() && step is Stage
            &&& ({
                let pending = r->Ok_0.0;
                let after = called(
                    begun,
                    Call::Install {
                        candidate: pending.stages(),
                        handle,
                        stateful_instances: pending.stateful(),
                        keeps_standby: pending.standby(),
                    },
                );
                after.active == Some(candidate.digest()) && after.routing_epoch == before.routing_epoch + 1
            })
        },
{
    one_changed_instance_needs_its_one_receipt(
        before.app_id,
        before.slots[before.active->Some_0].stateful_instances,
        candidate,
        edge,
        receipt,
        key,
        receipts,
    );
}

/// A lease pins the Generation that holds the route and counts once against it; giving it back undoes
/// that, and a lease on resources that are gone counts against nothing.
pub proof fn a_lease_is_undone_by_its_release<H>(before: SupervisorView<H>, r: Result<GenerationLease, ControlPlaneError>, held: SupervisorView<H>)
    requires
        before.active matches Some(active) ==> before.slots.dom().contains(active),
        lease_granted(before, r),
    ensures
        r is Ok <==> before.active is Some && before.slots[before.active->Some_0].leases < usize::MAX,
        r is Err ==> called(before, Call::Lease) == before,
        r matches Ok(lease) ==> {
            let leased = called(before, Call::Lease);
            let release = Call::<H>::Release { pinned: lease.pinned(), installation: lease.installation() };
            let after = called(leased, release);
            &&& Some(lease.pinned()) == before.active
            &&& lease.epoch() == before.routing_epoch
            &&& lease.installation() == before.slots[lease.pinned()].staged_at
            &&& leased.slots[lease.pinned()].leases == before.slots[lease.pinned()].leases + 1
            &&& leased.slots[lease.pinned()].handle == before.slots[lease.pinned()].handle
            &&& leased.slots[lease.pinned()].status == before.slots[lease.pinned()].status
            &&& leased.active == before.active && leased.routing_epoch == before.routing_epoch
            &&& after.slots =~= before.slots
            &&& after.active == before.active && after.routing_epoch == before.routing_epoch
            &&& !held.slots.dom().contains(lease.pinned()) || held.slots[lease.pinned()].staged_at != before.slots[lease.pinned()].staged_at
                ==> called(held, release) == held
        },
{
}

/// A staged candidate takes the route under the next epoch, and its predecessor is kept for a rollback
/// exactly where the edge has a rollback window; else it drains. Only a Generation that is kept so can
/// take the route back, and then the other one drains. The outcome names both.
pub proof fn the_route_goes_forth_and_back<H>(
    before: SupervisorView<H>,
    edge: AppGenerationTransitionSpec,
    candidate: ResolvedGeneration,
    pending: PendingSwitch,
    handle: H,
    after: SupervisorView<H>,
    r: Result<TransitionOutcome, ControlPlaneError>,
    back: Result<TransitionOutcome, ControlPlaneError>,
    previous: Seq<char>,
)
    requires
        pending.is_for(edge, candidate),
        before.active == Some(previous),
        before.slots.dom().contains(previous),
        candidate.digest() != previous,
        before.routing_epoch < u64::MAX - 1,
        switch_settled(before, pending, Ok(handle), after, r),
        rollback_answered(after, previous, called(after, Call::Rollback { standby: previous }), back),
    ensures
        after.active == Some(candidate.digest()),
        after.routing_epoch == before.routing_epoch + 1,
        after.slots.dom().contains(candidate.digest()),
        after.slots[candidate.digest()].handle == handle,
        after.slots[candidate.digest()].leases == 0,
        after.slots[candidate.digest()].staged_at == after.routing_epoch,
        after.slots[candidate.digest()].status == GenerationStatus::Active,
        after.slots[previous].handle == before.slots[previous].handle,
        after.slots[previous].leases == before.slots[previous].leases,
        edge.rollout_policy.rollback_window_nanos@ != "0"@ ==> after.slots[previous].status == GenerationStatus::RollbackStandby,
        edge.rollout_policy.rollback_window_nanos@ == "0"@ ==> after.slots[previous].status == GenerationStatus::Draining,
        r matches Ok(outcome) && outcome.active_generation_spec_digest@ == candidate.digest() && outcome.routing_epoch == after.routing_epoch
            && opt_text(outcome.draining_generation_spec_digest) == Some(previous),
        back is Ok <==> edge.rollout_policy.rollback_window_nanos@ != "0"@,
        back is Err ==> called(after, Call::Rollback { standby: previous }) == after,
        back matches Ok(outcome) ==> {
            let last = called(after, Call::<H>::Rollback { standby: previous });
            &&& last.active == Some(previous)
            &&& last.routing_epoch == before.routing_epoch + 2
            &&& last.slots[previous].status == GenerationStatus::Active
            &&& last.slots[previous].handle == before.slots[previous].handle
            &&& last.slots[candidate.digest()].status == GenerationStatus::Draining
            &&& last.slots[candidate.digest()].handle == handle
            &&& outcome.active_generation_spec_digest@ == previous
            &&& outcome.routing_epoch == last.routing_epoch
            &&& opt_text(outcome.draining_generation_spec_digest) == Some(candidate.digest())
        },
{
}

/// A Generation retires only once it drains and its last lease was given back; it then gives up its
/// resources, and nothing else changes. A closed window sets a kept Generation draining, and no other.
pub proof fn only_a_drained_generation_retires<H>(
    before: SupervisorView<H>,
    digest: Seq<char>,
    r: Result<H, ControlPlaneError>,
    closed: Result<(), ControlPlaneError>,
)
    requires
        retirement_answered(before, digest, r),
        window_closed(before, digest, closed),
    ensures
        r is Ok <==> before.slots.dom().contains(digest) && before.slots[digest].status == GenerationStatus::Draining
            && before.slots[digest].leases == 0,
        r matches Ok(handle) ==> handle == before.slots[digest].handle && called(before, Call::Retire { digest }).slots == before.slots.remove(digest),
        r is Err ==> called(before, Call::Retire { digest }) == before,
        called(before, Call::Retire { digest }).active == before.active,
        called(before, Call::Retire { digest }).routing_epoch == before.routing_epoch,
        closed is Ok <==> before.slots.dom().contains(digest) && before.slots[digest].status == GenerationStatus::RollbackStandby,
        closed is Err ==> called(before, Call::CloseWindow { digest }) == before,
        closed is Ok ==> {
            let after = called(before, Call::<H>::CloseWindow { digest });
            &&& after.slots.dom() =~= before.slots.dom()
            &&& after.slots[digest].status == GenerationStatus::Draining
            &&& after.slots[digest].leases == before.slots[digest].leases
            &&& after.slots[digest].handle == before.slots[digest].handle
            &&& after.active == before.active
        },
{
}

/// Beginning a transition is refused without a change, or it stages the candidate beside the active
/// Generation; a maintenance replacement first stops that one, which it does only without leases, and it
/// keeps no way back. A candidate that is already staged is not staged again.
pub proof fn a_begun_switch_stages_its_candidate<H>(
    before: SupervisorView<H>,
    edge: AppGenerationTransitionSpec,
    candidate: ResolvedGeneration,
    receipts: Receipts,
    after: SupervisorView<H>,
    r: Result<(PendingSwitch, SwitchStep<H>), ControlPlaneError>,
)
    requires
        switch_begun(before, edge, candidate, receipts, after, r),
    ensures
        r is Err ==> after == before,
        r matches Ok((pending, step)) ==> {
            &&& pending.stages() == candidate.digest()
            &&& crate::text::parsed(edge.rollout_policy.ready_timeout_nanos@, u64::MAX as nat) == Some(pending.ready_timeout() as nat)
            &&& pending.standby() == (edge.rollout_policy.rollback_window_nanos@ != "0"@)
            &&& edge.app_id@ == before.app_id && edge.to_generation_spec_digest@ == candidate.digest()
            &&& opt_text(edge.from_generation_spec_digest) == before.active
            &&& if edge.replacement_mode == ReplacementMode::Maintenance {
                let active = before.active->Some_0;
                &&& before.slots[active].leases == 0
                &&& edge.rollout_policy.rollback_window_nanos@ == "0"@
                &&& !edge.rollout_policy.automatic_rollback_on_generation_failure
                &&& after.active is None
                &&& after.slots == before.slots.remove(active)
                &&& after.routing_epoch == before.routing_epoch
                &&& step matches SwitchStep::StopActive { handle, drain_timeout_nanos } && handle == before.slots[active].handle
                    && crate::text::parsed(edge.rollout_policy.drain_timeout_nanos@, u64::MAX as nat) == Some(drain_timeout_nanos as nat)
            } else {
                &&& after == before
                &&& !before.slots.dom().contains(candidate.digest())
                &&& step matches SwitchStep::Stage { ready_timeout_nanos } && ready_timeout_nanos == pending.ready_timeout()
            }
        },
{
}

} // verus!
