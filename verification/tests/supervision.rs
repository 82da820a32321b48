use std::cell::{Cell, RefCell};
use std::collections::{BTreeMap, BTreeSet};
use std::rc::Rc;

use lenso_runtime::canonical::CanonicalDocument;
use lenso_runtime::controller::{
    join_suspension, request_suspension, settle_suspend, stopped, GenerationController, GenerationControllerEvent, LoopDecision, SuspendReply, SuspensionRequest,
};
use lenso_runtime::digest::sha256_digest;
use lenso_runtime::durable::{
    swap, ActivationDirection, ControlHealth, ControlLifecycle, ControlStateStore, DurableControlState, GenerationControlRecord,
    MemoryControlStateStore, RetirementReason,
};
use lenso_runtime::durable_supervisor::maintenance::{MaintenancePass, PassStep};
use lenso_runtime::durable_supervisor::recovery::{Authorities, Leftover, Recovery, RecoveryStep};
use lenso_runtime::durable_supervisor::retirement::{MaintenanceStep, StopOrder};
use lenso_runtime::durable_supervisor::suspension::{unconfirmed, HostSuspension, StopReport, SuspensionStep};
use lenso_runtime::durable_supervisor::{
    DurableGenerationLease, DurableGenerationRoute, DurableGenerationSupervisor, DurableTransitionOutcome, GenerationFailureOutcome,
    GenerationMaintenanceOutcome, StagedOutcome, TransitionStep,
};
use lenso_runtime::edge::Receipts;
use lenso_runtime::error::ControlPlaneError;
use lenso_runtime::generation::ResolvedGeneration;
use lenso_runtime::model::{
    AppGenerationSpec, AppGenerationTransitionSpec, EffectiveHostGrantSet, ReplacementMode, ResolvedArtifactSet, RolloutPolicy,
    StateCompatibility, StateCompatibilityReceipt, StatefulRuntimeIdentity,
};
use lenso_runtime::plan::AppPlan;
use lenso_runtime::supervisor::{GenerationSupervisor, SwitchStep, TransitionOutcome};
use lenso_runtime::text_map::TextMap;

type Outcome<T> = Result<T, ControlPlaneError>;

#[derive(Clone, Debug, Eq, PartialEq)]
enum RuntimeEvent {
    Staged(String),
    Shutdown(String, u64),
}

/// A runtime whose handles are the digests of what it staged, over a clock that only it moves.
#[derive(Clone, Debug, Default)]
struct Runtime {
    events: Rc<RefCell<Vec<RuntimeEvent>>>,
    shutdown_fails: bool,
    shutdown_takes: u128,
    clock: Rc<Cell<u128>>,
    failures: Rc<RefCell<BTreeMap<String, ControlPlaneError>>>,
    stage_failures: Rc<RefCell<BTreeSet<String>>>,
}

impl Runtime {
    fn stage(&self, digest: &str) -> Outcome<String> {
        if self.stage_failures.borrow().contains(digest) {
            return Err(ControlPlaneError::HostFailure { detail: "configured staging failure".to_owned() });
        }
        self.events.borrow_mut().push(RuntimeEvent::Staged(digest.to_owned()));
        Ok(digest.to_owned())
    }

    fn shutdown(&self, handle: String, timeout: u64) -> Outcome<()> {
        self.events.borrow_mut().push(RuntimeEvent::Shutdown(handle, timeout));
        self.clock.set(self.clock.get() + self.shutdown_takes);
        if self.shutdown_fails {
            Err(ControlPlaneError::HostFailure { detail: "injected shutdown failure".to_owned() })
        } else {
            Ok(())
        }
    }

    fn terminal_failure(&self, handle: &String) -> Option<ControlPlaneError> {
        self.failures.borrow().get(handle).cloned()
    }

    fn fail(&self, digest: &str, detail: &str) {
        self.failures.borrow_mut().insert(digest.to_owned(), ControlPlaneError::HostFailure { detail: detail.to_owned() });
    }
}

/// A store that several Hosts share and that can be told to fail.
#[derive(Clone, Debug, Default)]
struct SharedStore {
    state: Rc<RefCell<Option<DurableControlState>>>,
    calls: Rc<Cell<usize>>,
    fail_on: Rc<Cell<Option<usize>>>,
}

impl SharedStore {
    fn with_state(state: DurableControlState) -> Self {
        let store = Self::default();
        *store.state.borrow_mut() = Some(state);
        store
    }

    fn fail_on(&self, call: usize) {
        self.fail_on.set(Some(call));
    }
}

impl ControlStateStore for SharedStore {
    fn load(&self, app_id: &str) -> Outcome<DurableControlState> {
        let state = self.state.borrow().clone().unwrap_or_else(|| DurableControlState::initial(app_id));
        state.validate(app_id)?;
        Ok(state)
    }

    fn compare_and_swap(&mut self, app_id: &str, expected_revision: u64, next: DurableControlState) -> Outcome<DurableControlState> {
        let call = self.calls.get() + 1;
        self.calls.set(call);
        if self.fail_on.get() == Some(call) {
            return Err(ControlPlaneError::StoreFailure { detail: "injected CAS failure".to_owned() });
        }
        let recorded = swap(&self.load(app_id)?, app_id, expected_revision, next)?;
        *self.state.borrow_mut() = Some(recorded.clone());
        Ok(recorded)
    }
}

/// A Supervisor together with the runtime that carries out what it orders.
#[derive(Debug)]
struct Host<S: ControlStateStore> {
    supervisor: DurableGenerationSupervisor<String, S>,
    runtime: Runtime,
}

impl<S: ControlStateStore> Host<S> {
    fn open(app_id: &str, runtime: Runtime, store: S) -> Outcome<Self> {
        Ok(Host { supervisor: DurableGenerationSupervisor::open(app_id.to_owned(), store)?, runtime })
    }

    fn replace_suspended(app_id: &str, runtime: Runtime, store: S) -> Outcome<Self> {
        Ok(Host { supervisor: DurableGenerationSupervisor::replace_suspended_host(app_id.to_owned(), store)?, runtime })
    }

    fn recover(app_id: &str, runtime: Runtime, store: S, authorities: &Authorities, now: u128) -> Outcome<Self> {
        let mut recovery: Recovery<String, S> = Recovery::begin(app_id.to_owned(), store, now)?;
        loop {
            match recovery.step(authorities) {
                RecoveryStep::Settled => break,
                RecoveryStep::Stage { generation_spec_digest, .. } => {
                    let outcome = runtime.stage(&generation_spec_digest);
                    if let Err(error) = recovery.staged(authorities, outcome) {
                        release(&runtime, recovery.abandon());
                        return Err(error);
                    }
                }
                RecoveryStep::Failed(error) => {
                    release(&runtime, recovery.abandon());
                    return Err(error);
                }
            }
        }
        match recovery.finish() {
            Ok(supervisor) => Ok(Host { supervisor, runtime }),
            Err((error, leftovers)) => {
                release(&runtime, leftovers);
                Err(error)
            }
        }
    }

    fn transition(
        &mut self,
        transition: &CanonicalDocument<AppGenerationTransitionSpec>,
        candidate: &ResolvedGeneration,
        now: u128,
    ) -> Outcome<DurableTransitionOutcome> {
        assert!(self.supervisor.has_live_active());
        let (pending, step) = self.supervisor.begin_transition(transition, candidate, &Receipts::new(), now)?;
        if let TransitionStep::StopActive { handle, drain_timeout_nanos } = step {
            let shutdown = self.runtime.shutdown(handle, drain_timeout_nanos);
            self.supervisor.active_stopped(&pending, shutdown)?;
        }
        let staged = self.runtime.stage(candidate.spec.digest());
        match self.supervisor.candidate_staged(pending, staged) {
            StagedOutcome::Activated(outcome) => Ok(outcome),
            StagedOutcome::Discarded { handle, drain_timeout_nanos, error } => {
                let _ = self.runtime.shutdown(handle, drain_timeout_nanos);
                Err(error)
            }
            StagedOutcome::Failed(error) => Err(error),
        }
    }

    fn route(&mut self) -> Outcome<DurableGenerationRoute<String>> {
        self.supervisor.route(|handle: &String| handle.clone())
    }

    fn route_at_epoch(&mut self, epoch: u64) -> Outcome<DurableGenerationRoute<String>> {
        self.supervisor.route_at_epoch(epoch, |handle: &String| handle.clone())
    }

    fn drop_route(&mut self, route: DurableGenerationRoute<String>) {
        let (_, lease) = route.into_parts();
        self.supervisor.release(lease);
    }

    fn retire(&mut self, order: StopOrder<String>) -> Outcome<()> {
        let shutdown = self.runtime.shutdown(order.handle, order.drain_timeout_nanos);
        self.supervisor.finish_retirement(&order.generation_spec_digest, order.reason, shutdown)
    }

    fn complete_drain(&mut self, digest: &str, now: u128) -> Outcome<()> {
        match self.supervisor.complete_drain(digest, now)? {
            MaintenanceStep::Stop(order) => self.retire(order),
            _ => Ok(()),
        }
    }

    fn expire_rollback_window(&mut self, digest: &str, now: u128) -> Outcome<()> {
        let order = self.supervisor.expire_rollback_window(digest, now)?;
        self.retire(order)
    }

    fn observe(&self) -> Option<ControlPlaneError> {
        assert!(self.supervisor.can_probe_active());
        self.supervisor.probe_active().and_then(|handle| self.runtime.terminal_failure(handle))
    }

    fn reconcile(&mut self, now: u128) -> Outcome<Option<GenerationFailureOutcome>> {
        let observed = self.observe();
        self.supervisor.reconcile_active_generation(observed, now)
    }

    fn maintain(&mut self, now: u128) -> Outcome<Vec<GenerationMaintenanceOutcome>> {
        let observed = self.observe();
        let (mut pass, probes) = MaintenancePass::begin(&mut self.supervisor, observed, now)?;
        for digest in probes {
            if let Some(failure) = self.supervisor.handle(&digest).and_then(|handle| self.runtime.terminal_failure(handle)) {
                pass.note_failed(digest, failure);
            }
        }
        loop {
            match pass.next(&mut self.supervisor)? {
                PassStep::Advanced => {}
                PassStep::Stop { handle, drain_timeout_nanos, stopping } => {
                    let shutdown = self.runtime.shutdown(handle, drain_timeout_nanos);
                    pass.stopped(&mut self.supervisor, stopping, shutdown)?;
                }
                PassStep::Finished => return Ok(pass.finish()),
            }
        }
    }

    fn suspend(&mut self) -> Outcome<DurableControlState> {
        let live = self.supervisor.begin_suspension()?;
        let mut failures = Vec::new();
        for slot in live {
            if let Err(error) = self.runtime.shutdown(slot.handle, slot.drain_timeout_nanos) {
                failures.push(format!("Generation `{}`: {error:?}", slot.generation_spec_digest));
            }
        }
        self.supervisor.finish_suspension(&failures)
    }

    /// Stops every Generation by the deadline; nobody gives a lease back meanwhile.
    fn drain_and_suspend(&mut self, deadline: u128) -> Outcome<DurableControlState> {
        if self.supervisor.has_leases() {
            self.runtime.clock.set(deadline);
            return Err(unconfirmed("waiting for active leases"));
        }
        let mut suspension = HostSuspension::new();
        loop {
            let remaining = deadline.saturating_sub(self.runtime.clock.get());
            match self.supervisor.next_suspension_step(remaining) {
                SuspensionStep::Unconfirmed(error) => return Err(error),
                SuspensionStep::AllStopped => break,
                SuspensionStep::Stop { generation_spec_digest, handle, budget_nanos } => {
                    if let Some(failure) = self.runtime.terminal_failure(&handle) {
                        suspension.note_failed(&generation_spec_digest, &failure);
                    }
                    let outcome = self.runtime.shutdown(handle, budget_nanos);
                    let report = if self.runtime.clock.get() > deadline {
                        StopReport::TimedOut
                    } else {
                        match outcome {
                            Ok(()) => StopReport::Stopped,
                            Err(error) => StopReport::Failed(error),
                        }
                    };
                    suspension.note_stop(&generation_spec_digest, report)?;
                }
            }
        }
        let expired = self.runtime.clock.get() >= deadline;
        self.supervisor.finish_host_suspension(suspension, expired)
    }

    fn record(&self, generation: &ResolvedGeneration) -> &GenerationControlRecord {
        let state = self.supervisor.state();
        state.generations.iter().find(|record| record.generation_spec_digest == generation.spec.digest()).unwrap()
    }
}

fn release(runtime: &Runtime, leftovers: Vec<Leftover<String>>) {
    for leftover in leftovers {
        let _ = runtime.shutdown(leftover.handle, leftover.drain_timeout_nanos);
    }
}

fn authorities(generations: Vec<ResolvedGeneration>) -> Authorities {
    let mut map = TextMap::new();
    for generation in generations {
        map.insert(generation.spec.digest().to_owned(), generation);
    }
    map
}

fn generation_for(app_id: &str, marker: &str) -> ResolvedGeneration {
    let artifact_set = CanonicalDocument::from_value(
        "artifacts",
        ResolvedArtifactSet {
            schema_version: 3,
            resolution_authority_digest: format!("authority-{marker}"),
            host_execution_policy_digest: "policy".to_owned(),
            artifacts: Vec::new(),
            instance_resources: Vec::new(),
        },
    )
    .unwrap();
    let grants = CanonicalDocument::from_value(
        "grants",
        EffectiveHostGrantSet {
            schema_version: 2,
            resolution_authority_digest: format!("authority-{marker}"),
            grants: Vec::new(),
        },
    )
    .unwrap();
    let spec = CanonicalDocument::from_value(
        "generation",
        AppGenerationSpec {
            schema_version: 2,
            app_id: app_id.to_owned(),
            host_build_manifest_digest: format!("host-{marker}"),
            host_execution_policy_digest: "policy".to_owned(),
            resolved_plan_digest: "plan".to_owned(),
            resolution_authority_digest: format!("authority-{marker}"),
            resolved_artifact_set_digest: artifact_set.digest().to_owned(),
            effective_host_grant_set_digest: grants.digest().to_owned(),
        },
    )
    .unwrap();
    ResolvedGeneration {
        plan: AppPlan { instances: Vec::new(), bindings: Vec::new(), bytes: Vec::new() },
        artifact_set,
        grants,
        spec,
        artifacts: TextMap::new(),
        resources: TextMap::new(),
        stateful_instances: TextMap::new(),
    }
}

fn generation(marker: &str) -> ResolvedGeneration {
    generation_for("example.app", marker)
}

fn empty_generation(marker: &str) -> ResolvedGeneration {
    generation_for("app", marker)
}

fn initial_transition(candidate: &ResolvedGeneration) -> CanonicalDocument<AppGenerationTransitionSpec> {
    CanonicalDocument::from_value(
        "transition",
        AppGenerationTransitionSpec {
            schema_version: 1,
            app_id: "example.app".to_owned(),
            from_generation_spec_digest: None,
            to_generation_spec_digest: candidate.spec.digest().to_owned(),
            replacement_mode: ReplacementMode::Initial,
            state_compatibility_receipt_digests: Vec::new(),
            rollout_policy: RolloutPolicy {
                ready_timeout_nanos: "10".to_owned(),
                drain_timeout_nanos: "20".to_owned(),
                rollback_window_nanos: "0".to_owned(),
                automatic_rollback_on_generation_failure: false,
            },
        },
    )
    .unwrap()
}

fn transition(
    from: Option<&ResolvedGeneration>,
    to: &ResolvedGeneration,
    replacement_mode: ReplacementMode,
    rollback_window_nanos: &str,
) -> CanonicalDocument<AppGenerationTransitionSpec> {
    transition_with_receipts(from, to, replacement_mode, rollback_window_nanos, false, Vec::new())
}

fn transition_with_receipts(
    from: Option<&ResolvedGeneration>,
    to: &ResolvedGeneration,
    replacement_mode: ReplacementMode,
    rollback_window_nanos: &str,
    automatic_rollback_on_generation_failure: bool,
    state_compatibility_receipt_digests: Vec<String>,
) -> CanonicalDocument<AppGenerationTransitionSpec> {
    CanonicalDocument::from_value(
        "transition",
        AppGenerationTransitionSpec {
            schema_version: 1,
            app_id: "app".to_owned(),
            from_generation_spec_digest: from.map(|generation| generation.spec.digest().to_owned()),
            to_generation_spec_digest: to.spec.digest().to_owned(),
            replacement_mode,
            state_compatibility_receipt_digests,
            rollout_policy: RolloutPolicy {
                ready_timeout_nanos: "1000000000".to_owned(),
                drain_timeout_nanos: "1000000000".to_owned(),
                rollback_window_nanos: rollback_window_nanos.to_owned(),
                automatic_rollback_on_generation_failure,
            },
        },
    )
    .unwrap()
}

fn record(generation: &ResolvedGeneration, lifecycle: ControlLifecycle) -> GenerationControlRecord {
    GenerationControlRecord {
        generation_spec_digest: generation.spec.digest().to_owned(),
        transition_spec_digest: "transition".to_owned(),
        lifecycle,
        health: ControlHealth::Healthy,
        activation_direction: ActivationDirection::Forward,
        ready_timeout_nanos: "10".to_owned(),
        drain_timeout_nanos: "20".to_owned(),
        drain_deadline_unix_nanos: None,
        rollback_deadline_unix_nanos: (lifecycle == ControlLifecycle::Standby).then_some("1000".to_owned()),
        automatic_rollback_on_generation_failure: false,
        state_compatibility_receipt_digests: Vec::new(),
        retirement_reason: None,
    }
}

fn recovery_state(active: &ResolvedGeneration, standby: Option<&ResolvedGeneration>) -> DurableControlState {
    let mut generations = vec![record(active, ControlLifecycle::Active)];
    if let Some(standby) = standby {
        generations.push(record(standby, ControlLifecycle::Standby));
    }
    DurableControlState {
        schema_version: 1,
        app_id: "example.app".to_owned(),
        revision: 0,
        supervisor_epoch: 1,
        routing_epoch: 1,
        host_suspended: false,
        active_generation_spec_digest: Some(active.spec.digest().to_owned()),
        generations,
    }
}

fn staged_then_stopped(generation: &ResolvedGeneration) -> Vec<RuntimeEvent> {
    vec![
        RuntimeEvent::Staged(generation.spec.digest().to_owned()),
        RuntimeEvent::Shutdown(generation.spec.digest().to_owned(), 20),
    ]
}

#[test]
fn ready_record_failure_shuts_down_the_staged_generation_and_preserves_store_error() {
    let runtime = Runtime { shutdown_fails: true, ..Runtime::default() };
    let store = SharedStore::default();
    store.fail_on(3);
    let mut host = Host::open("example.app", runtime.clone(), store).unwrap();
    let candidate = generation("candidate");

    let error = host.transition(&initial_transition(&candidate), &candidate, 0).unwrap_err();

    assert_eq!(error, ControlPlaneError::StoreFailure { detail: "injected CAS failure".to_owned() });
    assert_eq!(*runtime.events.borrow(), staged_then_stopped(&candidate));
}

#[test]
fn active_record_failure_shuts_down_the_ready_generation_and_preserves_store_error() {
    let runtime = Runtime { shutdown_fails: true, ..Runtime::default() };
    let store = SharedStore::default();
    store.fail_on(4);
    let mut host = Host::open("example.app", runtime.clone(), store).unwrap();
    let candidate = generation("candidate-active");

    let error = host.transition(&initial_transition(&candidate), &candidate, 0).unwrap_err();

    assert_eq!(error, ControlPlaneError::StoreFailure { detail: "injected CAS failure".to_owned() });
    assert_eq!(*runtime.events.borrow(), staged_then_stopped(&candidate));
}

#[test]
fn routing_epoch_overflow_after_stage_shuts_down_the_candidate() {
    let runtime = Runtime { shutdown_fails: true, ..Runtime::default() };
    let mut exhausted = DurableControlState::initial("example.app");
    exhausted.routing_epoch = u64::MAX;
    let mut host = Host::open("example.app", runtime.clone(), SharedStore::with_state(exhausted)).unwrap();
    let candidate = generation("overflow");

    let error = host.transition(&initial_transition(&candidate), &candidate, 0).unwrap_err();

    assert!(matches!(error, ControlPlaneError::TransitionRejected { detail } if detail.contains("Routing Epoch exhausted")));
    assert_eq!(*runtime.events.borrow(), staged_then_stopped(&candidate));
}

#[test]
fn recovery_authority_error_after_one_stage_cleans_up_the_first_handle() {
    let active = generation("active");
    let missing = generation("missing");
    let store = SharedStore::with_state(recovery_state(&active, Some(&missing)));
    let runtime = Runtime::default();
    let events = staged_then_stopped(&active);

    let error = Host::recover("example.app", runtime.clone(), store, &authorities(vec![active]), 0).unwrap_err();

    assert!(matches!(error, ControlPlaneError::TransitionRejected { detail } if detail.contains("lacks exact Generation")));
    assert_eq!(*runtime.events.borrow(), events);
}

#[test]
fn recovery_parse_error_after_one_stage_cleans_up_the_first_handle() {
    let active = generation("active-parse");
    let standby = generation("standby-parse");
    let mut state = recovery_state(&active, Some(&standby));
    state.generations[1].ready_timeout_nanos = "invalid".to_owned();
    let runtime = Runtime::default();
    let events = staged_then_stopped(&active);

    let error = Host::recover("example.app", runtime.clone(), SharedStore::with_state(state), &authorities(vec![active, standby]), 0).unwrap_err();

    assert!(matches!(error, ControlPlaneError::TransitionRejected { detail } if detail.contains("ready timeout")));
    assert_eq!(*runtime.events.borrow(), events);
}

#[test]
fn final_recovery_cas_failure_shuts_down_every_recovered_handle() {
    let active = generation("active");
    let store = SharedStore::with_state(recovery_state(&active, None));
    store.fail_on(2);
    let runtime = Runtime { shutdown_fails: true, ..Runtime::default() };
    let events = staged_then_stopped(&active);

    let error = Host::recover("example.app", runtime.clone(), store, &authorities(vec![active]), 0).unwrap_err();

    assert_eq!(error, ControlPlaneError::StoreFailure { detail: "injected CAS failure".to_owned() });
    assert_eq!(*runtime.events.borrow(), events);
}

fn active_host(fails: bool) -> (Host<SharedStore>, SharedStore, Runtime, ResolvedGeneration) {
    let runtime = Runtime { shutdown_fails: fails, ..Runtime::default() };
    let store = SharedStore::default();
    let mut host = Host::open("example.app", runtime.clone(), store.clone()).unwrap();
    let candidate = generation("suspension");
    host.transition(&initial_transition(&candidate), &candidate, 0).unwrap();
    (host, store, runtime, candidate)
}

const SECOND: u128 = 1_000_000_000;

#[test]
fn suspension_fences_routes_joins_callers_and_recovers_exact_active_generation() {
    let (mut host, store, runtime, candidate) = active_host(false);
    let lease = host.supervisor.lease().unwrap();
    let first = request_suspension(None, 0, 2 * SECOND, u128::MAX).unwrap();
    assert_eq!(first, 2 * SECOND);
    assert!(host.supervisor.has_leases());
    assert_eq!(runtime.events.borrow().len(), 1, "lease must hold execution alive");
    host.supervisor.release(lease);
    let joined = request_suspension(Some(first), SECOND, 10 * SECOND, u128::MAX).unwrap();
    assert_eq!(joined, first);
    let state = host.drain_and_suspend(joined).unwrap();
    assert_eq!(host.supervisor.state(), &state);
    assert!(host.route().is_err());
    assert!(state.host_suspended);
    assert_eq!(state.active_generation_spec_digest.as_deref(), Some(candidate.spec.digest()));
    assert_eq!(state.generations[0].lifecycle, ControlLifecycle::Active);
    assert_eq!(runtime.events.borrow().len(), 2, "cleanup happens once");
    let digest = candidate.spec.digest().to_owned();
    let mut recovered = Host::recover("example.app", Runtime::default(), store, &authorities(vec![candidate]), 0).unwrap();
    let route = recovered.route().unwrap();
    assert_eq!(route.generation_spec_digest(), digest);
    recovered.drop_route(route);
    recovered.suspend().unwrap();
}

#[test]
fn repeated_stop_does_not_extend_deadline_or_record_clean_suspension() {
    let (mut host, store, runtime, _) = active_host(false);
    let lease = host.supervisor.lease().unwrap();
    let first = request_suspension(None, 0, 20_000_000, u128::MAX).unwrap();
    let second = request_suspension(Some(first), 0, 60 * SECOND, u128::MAX).unwrap();
    assert_eq!(first, second, "second request must not extend the first deadline");
    let outcome = host.drain_and_suspend(first);
    assert_eq!(runtime.clock.get(), first);
    assert!(outcome.unwrap_err().message().contains("termination is unconfirmed"));
    assert!(!store.load("example.app").unwrap().host_suspended);
    assert_eq!(runtime.events.borrow().len(), 1);
    assert_eq!(stopped().message(), "Generation Controller is stopped");
    host.supervisor.release(lease);
}

#[test]
fn cleanup_and_persistence_failures_never_claim_clean_suspension() {
    for cleanup_fails in [false, true] {
        let (mut host, store, _, _) = active_host(cleanup_fails);
        if !cleanup_fails {
            store.fail_on(store.calls.get() + 1);
        }
        let result = host.drain_and_suspend(SECOND);
        assert!(result.is_err());
        assert!(!store.load("example.app").unwrap().host_suspended);
    }
}

#[test]
fn cleanup_of_multiple_generations_shares_one_budget() {
    let active = generation("active-budget");
    let standby = generation("standby-budget");
    let store = SharedStore::with_state(recovery_state(&active, Some(&standby)));
    let runtime = Runtime { shutdown_takes: 100_000_000, ..Runtime::default() };
    let mut host = Host::recover("example.app", runtime.clone(), store.clone(), &authorities(vec![active, standby]), 0).unwrap();
    let error = host.drain_and_suspend(150_000_000).unwrap_err();
    assert!(error.message().contains("termination is unconfirmed"));
    assert!(!store.load("example.app").unwrap().host_suspended);
    let budgets: Vec<u64> = runtime
        .events
        .borrow()
        .iter()
        .filter_map(|event| match event {
            RuntimeEvent::Shutdown(_, budget) => Some(*budget),
            RuntimeEvent::Staged(_) => None,
        })
        .collect();
    assert_eq!(budgets, [150_000_000, 50_000_000]);
}

/// A Supervisor without durable state, together with its runtime.
struct LocalHost {
    supervisor: GenerationSupervisor<String>,
    runtime: Runtime,
}

impl LocalHost {
    fn new(app_id: &str) -> Self {
        LocalHost { supervisor: GenerationSupervisor::new(app_id.to_owned()), runtime: Runtime::default() }
    }

    fn transition(
        &mut self,
        transition: &CanonicalDocument<AppGenerationTransitionSpec>,
        candidate: &ResolvedGeneration,
        receipts: &Receipts,
    ) -> Outcome<TransitionOutcome> {
        let (pending, step) = self.supervisor.begin_transition_with_receipts(transition, candidate, receipts)?;
        if let SwitchStep::StopActive { handle, drain_timeout_nanos } = step {
            let shutdown = self.runtime.shutdown(handle, drain_timeout_nanos);
            self.supervisor.active_stopped(&pending, shutdown)?;
        }
        let staged = self.runtime.stage(candidate.spec.digest());
        self.supervisor.candidate_staged(pending, staged)
    }
}

#[test]
fn supervisor_fences_switches_pins_and_retires_generations() {
    let first = empty_generation("first");
    let second = empty_generation("second");
    let mut host = LocalHost::new("app");
    let first_outcome = host.transition(&transition(None, &first, ReplacementMode::Initial, "0"), &first, &Receipts::new()).unwrap();
    assert_eq!(first_outcome.routing_epoch, 1);
    let lease = host.supervisor.lease().unwrap();
    assert_eq!(lease.generation_spec_digest(), first.spec.digest());

    let overlap = transition(Some(&first), &second, ReplacementMode::Overlap, "100");
    let second_outcome = host.transition(&overlap, &second, &Receipts::new()).unwrap();
    assert_eq!(second_outcome.routing_epoch, 2);
    assert_eq!(host.supervisor.generations().len(), 2);
    assert!(host.supervisor.retire(first.spec.digest()).is_err());
    host.supervisor.release(lease);
    host.supervisor.close_rollback_window(first.spec.digest()).unwrap();
    let handle = host.supervisor.retire(first.spec.digest()).unwrap();
    host.runtime.shutdown(handle, 100).unwrap();
    assert_eq!(host.supervisor.generations().len(), 1);
}

fn digest(bytes: &[u8]) -> String {
    sha256_digest(bytes)
}

#[test]
fn overlap_requires_exact_state_compatibility_receipt_closure() {
    let mut first = empty_generation("stateful-first");
    first.stateful_instances.insert(
        "stateful".to_owned(),
        StatefulRuntimeIdentity {
            runtime_identity: "plugin:manifest-v1:artifact-v1".to_owned(),
            state_schema_id: "example.state@1".to_owned(),
            state_schema_digest: digest(b"state-v1"),
        },
    );
    let mut second = empty_generation("stateful-second");
    second.stateful_instances.insert(
        "stateful".to_owned(),
        StatefulRuntimeIdentity {
            runtime_identity: "plugin:manifest-v2:artifact-v2".to_owned(),
            state_schema_id: "example.state@1".to_owned(),
            state_schema_digest: digest(b"state-v2"),
        },
    );
    let receipt = CanonicalDocument::from_value(
        "state compatibility receipt",
        StateCompatibilityReceipt {
            schema_version: 1,
            app_id: "app".to_owned(),
            module_instance_key: "stateful".to_owned(),
            old_runtime_identity: "plugin:manifest-v1:artifact-v1".to_owned(),
            new_runtime_identity: "plugin:manifest-v2:artifact-v2".to_owned(),
            state_schema_id: "example.state@1".to_owned(),
            old_state_schema_digest: digest(b"state-v1"),
            new_state_schema_digest: digest(b"state-v2"),
            compatibility: StateCompatibility { concurrent_read: true, concurrent_write: true, old_code_reads_new_writes: true },
            policy_digest: digest(b"state-policy"),
            evidence_digest: digest(b"state-evidence"),
            decision_authority: "product.release-review".to_owned(),
        },
    )
    .unwrap();
    let overlap = transition_with_receipts(Some(&first), &second, ReplacementMode::Overlap, "100", true, vec![receipt.digest().to_owned()]);
    let mut host = LocalHost::new("app");
    host.transition(&transition(None, &first, ReplacementMode::Initial, "0"), &first, &Receipts::new()).unwrap();
    assert!(host.transition(&overlap, &second, &Receipts::new()).is_err());

    let mut receipts = Receipts::new();
    receipts.insert(receipt.digest().to_owned(), receipt);
    host.transition(&overlap, &second, &receipts).unwrap();
}

#[test]
fn durable_supervisor_recovers_fences_drains_and_rolls_back() {
    let store = SharedStore::default();
    let first = empty_generation("durable-first");
    let second = empty_generation("durable-second");
    let runtime = Runtime::default();
    let mut host = Host::open("app", runtime.clone(), store.clone()).unwrap();
    host.transition(&transition(None, &first, ReplacementMode::Initial, "0"), &first, 0).unwrap();
    let first_lease = host.supervisor.lease().unwrap();
    let old_epoch = first_lease.routing_epoch();
    let overlap = transition_with_receipts(Some(&first), &second, ReplacementMode::Overlap, "100", true, Vec::new());
    let outcome = host.transition(&overlap, &second, 100).unwrap();
    assert!(host.supervisor.lease_at_epoch(old_epoch).is_err());
    assert_eq!(outcome.routing_epoch, old_epoch + 1);
    host.supervisor.release(first_lease);
    host.complete_drain(first.spec.digest(), 150).unwrap();
    assert_eq!(host.record(&first).lifecycle, ControlLifecycle::Standby);

    runtime.fail(second.spec.digest(), "Generation task failed");
    let failure = host.reconcile(160).unwrap().expect("the runtime failure should be observed exactly once");
    assert_eq!(failure.generation_spec_digest, second.spec.digest());
    assert!(host.reconcile(160).unwrap().is_none());
    let rollback = failure.automatic_rollback.expect("automatic rollback should activate exact standby");
    assert_eq!(rollback.activation_direction, ActivationDirection::Rollback);
    assert_eq!(rollback.active_generation_spec_digest, first.spec.digest());
    host.complete_drain(second.spec.digest(), 160).unwrap();
    let before_recovery = host.supervisor.state().clone();
    drop(host);

    let expected = first.spec.digest().to_owned();
    let mut recovered = Host::recover("app", Runtime::default(), store, &authorities(vec![first]), 170).unwrap();
    assert_eq!(recovered.supervisor.state().active_generation_spec_digest.as_deref(), Some(expected.as_str()));
    assert!(recovered.supervisor.state().supervisor_epoch > before_recovery.supervisor_epoch);
    assert!(recovered.supervisor.state().routing_epoch > before_recovery.routing_epoch);
    assert!(recovered.supervisor.lease().is_ok());
}

#[test]
fn maintenance_can_reactivate_an_exact_retired_generation() {
    let first = empty_generation("reactivate-first");
    let second = empty_generation("reactivate-second");
    let mut host = Host::open("app", Runtime::default(), MemoryControlStateStore::default()).unwrap();
    host.transition(&transition(None, &first, ReplacementMode::Initial, "0"), &first, 0).unwrap();
    host.transition(&transition(Some(&first), &second, ReplacementMode::Maintenance, "0"), &second, 1).unwrap();
    host.transition(&transition(Some(&second), &first, ReplacementMode::Maintenance, "0"), &first, 2).unwrap();

    assert_eq!(host.supervisor.state().active_generation_spec_digest.as_deref(), Some(first.spec.digest()));
    assert_eq!(host.supervisor.state().generations.len(), 2);
    assert_eq!(host.record(&first).lifecycle, ControlLifecycle::Active);
    assert_eq!(host.record(&second).lifecycle, ControlLifecycle::Retired);
    assert!(host.route().is_ok());
}

#[test]
fn recovery_fences_the_old_supervisor_and_rolls_back_failed_active_staging() {
    let store = SharedStore::default();
    let first = empty_generation("recovery-first");
    let second = empty_generation("recovery-second");
    let mut old = Host::open("app", Runtime::default(), store.clone()).unwrap();
    old.transition(&transition(None, &first, ReplacementMode::Initial, "0"), &first, 0).unwrap();
    let overlap = transition_with_receipts(Some(&first), &second, ReplacementMode::Overlap, "10000000000", true, Vec::new());
    old.transition(&overlap, &second, 100).unwrap();
    old.complete_drain(first.spec.digest(), 150).unwrap();

    let runtime = Runtime::default();
    runtime.stage_failures.borrow_mut().insert(second.spec.digest().to_owned());
    let mut recovered = Host::recover(
        "app",
        runtime,
        store,
        &authorities(vec![empty_generation("recovery-first"), empty_generation("recovery-second")]),
        200,
    )
    .unwrap();

    assert!(old.supervisor.lease().is_err());
    assert_eq!(recovered.supervisor.state().active_generation_spec_digest.as_deref(), Some(first.spec.digest()));
    assert_eq!(recovered.record(&first).lifecycle, ControlLifecycle::Active);
    assert_eq!(recovered.record(&first).activation_direction, ActivationDirection::Rollback);
    assert_eq!(recovered.record(&second).lifecycle, ControlLifecycle::Retired);
    assert_eq!(recovered.record(&second).health, ControlHealth::Failed);
    assert!(recovered.supervisor.lease().is_ok());
}

/// The controller loop over a host, driven one step at a time.
struct Loop<S: ControlStateStore> {
    controller: GenerationController<String, S>,
    runtime: Runtime,
    events: Vec<GenerationControllerEvent>,
}

impl<S: ControlStateStore> Loop<S> {
    fn new(host: Host<S>, interval: u128) -> Outcome<Self> {
        Ok(Loop { controller: GenerationController::new(host.supervisor, interval)?, runtime: host.runtime, events: Vec::new() })
    }

    /// One command of the loop.
    fn command<T>(&mut self, now: u128, act: impl FnOnce(&mut Commands<'_, S>, u128) -> T) -> T {
        assert!(self.controller.admits_commands());
        let mut commands = Commands { supervisor: self.controller.supervisor(), runtime: &self.runtime };
        act(&mut commands, now)
    }

    /// One tick of the loop.
    fn tick(&mut self, now: u128) -> LoopDecision {
        let step = {
            let mut commands = Commands { supervisor: self.controller.supervisor(), runtime: &self.runtime };
            commands.maintain(now)
        };
        match step {
            Ok(outcomes) => {
                for outcome in outcomes {
                    self.events.push(GenerationControllerEvent::Maintained(outcome));
                }
                self.controller.after_step(Ok(None))
            }
            Err(error) => self.controller.after_step(Err(error)),
        }
    }
}

struct Commands<'a, S: ControlStateStore> {
    supervisor: &'a mut DurableGenerationSupervisor<String, S>,
    runtime: &'a Runtime,
}

impl<S: ControlStateStore> Commands<'_, S> {
    fn transition(
        &mut self,
        transition: &CanonicalDocument<AppGenerationTransitionSpec>,
        candidate: &ResolvedGeneration,
        now: u128,
    ) -> Outcome<DurableTransitionOutcome> {
        let (pending, step) = self.supervisor.begin_transition(transition, candidate, &Receipts::new(), now)?;
        assert!(matches!(step, TransitionStep::Stage { ready_timeout_nanos: 1_000_000_000 }));
        let staged = self.runtime.stage(candidate.spec.digest());
        match self.supervisor.candidate_staged(pending, staged) {
            StagedOutcome::Activated(outcome) => Ok(outcome),
            StagedOutcome::Discarded { error, .. } | StagedOutcome::Failed(error) => Err(error),
        }
    }

    fn route(&mut self) -> Outcome<DurableGenerationRoute<String>> {
        self.supervisor.route(|handle: &String| handle.clone())
    }

    fn release(&mut self, lease: DurableGenerationLease) {
        self.supervisor.release(lease);
    }

    fn suspend(&mut self) -> Outcome<DurableControlState> {
        let live = self.supervisor.begin_suspension()?;
        for slot in live {
            self.runtime.shutdown(slot.handle, slot.drain_timeout_nanos)?;
        }
        self.supervisor.finish_suspension(&Vec::new())
    }

    fn maintain(&mut self, now: u128) -> Outcome<Vec<GenerationMaintenanceOutcome>> {
        assert!(self.supervisor.has_live_active());
        let observed = self.supervisor.probe_active().and_then(|handle| self.runtime.terminal_failure(handle));
        let (mut pass, probes) = MaintenancePass::begin(self.supervisor, observed, now)?;
        for digest in probes {
            if let Some(failure) = self.supervisor.handle(&digest).and_then(|handle| self.runtime.terminal_failure(handle)) {
                pass.note_failed(digest, failure);
            }
        }
        loop {
            match pass.next(self.supervisor)? {
                PassStep::Advanced => {}
                PassStep::Stop { handle, drain_timeout_nanos, stopping } => {
                    let shutdown = self.runtime.shutdown(handle, drain_timeout_nanos);
                    pass.stopped(self.supervisor, stopping, shutdown)?;
                }
                PassStep::Finished => return Ok(pass.finish()),
            }
        }
    }
}

#[test]
fn controller_routes_rolls_back_during_drain_and_shuts_down_after_leases() {
    let runtime = Runtime::default();
    let host = Host::open("app", runtime.clone(), MemoryControlStateStore::default()).unwrap();
    let mut controller = Loop::new(host, 2_000_000).unwrap();
    assert_eq!(controller.controller.maintenance_interval(), 2_000_000);
    let first = empty_generation("controller-first");
    let second = empty_generation("controller-second");
    let initial = controller
        .command(0, |host, now| host.transition(&transition(None, &first, ReplacementMode::Initial, "0"), &first, now))
        .unwrap();
    let first_route = controller.command(0, |host, _| host.route()).unwrap();
    assert_eq!(first_route.target(), first.spec.digest());

    let overlap = transition_with_receipts(Some(&first), &second, ReplacementMode::Overlap, "10000000000", true, Vec::new());
    let switched = controller.command(1, |host, now| host.transition(&overlap, &second, now)).unwrap();
    assert!(controller
        .command(1, |host, _| host.supervisor.route_at_epoch(initial.routing_epoch, |handle: &String| handle.clone()))
        .is_err());
    let second_route = controller.command(1, |host, _| host.route()).unwrap();
    assert_eq!(second_route.target(), second.spec.digest());
    controller.command(1, |host, _| host.release(second_route.into_parts().1));

    runtime.fail(second.spec.digest(), "terminal candidate");
    assert!(matches!(controller.tick(2), LoopDecision::Continue));
    let rollback = controller
        .events
        .iter()
        .find_map(|event| match event {
            GenerationControllerEvent::Maintained(GenerationMaintenanceOutcome::Failed(failure)) => Some(failure.clone()),
            _ => None,
        })
        .unwrap()
        .automatic_rollback
        .expect("the draining predecessor should remain rollback-capable");
    assert_eq!(rollback.routing_epoch, switched.routing_epoch + 1);
    assert_eq!(rollback.active_generation_spec_digest, first.spec.digest());

    assert!(controller.controller.start_shutdown(Ok(3)).unwrap());
    assert!(!controller.controller.start_shutdown(Ok(3)).unwrap());
    assert!(!controller.controller.admits_commands());
    assert!(matches!(controller.tick(4), LoopDecision::Continue));
    controller.controller.supervisor().release(first_route.into_parts().1);
    let state = match controller.tick(5) {
        LoopDecision::Finish(state) => state,
        other => panic!("{other:?}"),
    };
    assert!(state.generations.iter().all(|record| record.lifecycle == ControlLifecycle::Retired));
}

#[test]
fn controller_suspends_and_recovers_the_same_active_generation() {
    let store = SharedStore::default();
    let generation = empty_generation("suspend-recover");
    let host = Host::open("app", Runtime::default(), store.clone()).unwrap();
    let mut controller = Loop::new(host, 2_000_000).unwrap();
    controller
        .command(0, |host, now| host.transition(&transition(None, &generation, ReplacementMode::Initial, "0"), &generation, now))
        .unwrap();
    let route = controller.command(0, |host, _| host.route()).unwrap();
    let refused = controller.command(0, |host, _| host.suspend());
    assert!(matches!(settle_suspend(refused), SuspendReply::Refused(_)));
    controller.command(0, |host, _| host.release(route.into_parts().1));
    let suspended = match settle_suspend(controller.command(0, |host, _| host.suspend())) {
        SuspendReply::Suspended(state) => state,
        other => panic!("{other:?}"),
    };
    assert_eq!(suspended.active_generation_spec_digest.as_deref(), Some(generation.spec.digest()));
    assert_eq!(suspended.generations[0].lifecycle, ControlLifecycle::Active);
    assert!(suspended.host_suspended);
    match controller.controller.after_step(Ok(Some(suspended.clone()))) {
        LoopDecision::Stop(state) => assert_eq!(state, suspended),
        other => panic!("{other:?}"),
    }

    let mut recovered = Host::recover("app", Runtime::default(), store, &authorities(vec![generation]), 10).unwrap();
    assert!(!recovered.supervisor.state().host_suspended);
    assert!(recovered.route().is_ok());
}

#[test]
fn cleanly_suspended_host_can_be_replaced_without_restaging_the_old_build() {
    let store = SharedStore::default();
    let old_generation = empty_generation("old-host-build");
    let mut old_host = Host::open("app", Runtime::default(), store.clone()).unwrap();
    old_host.transition(&transition(None, &old_generation, ReplacementMode::Initial, "0"), &old_generation, 0).unwrap();
    old_host.suspend().unwrap();

    let mut replacement = Host::replace_suspended("app", Runtime::default(), store).unwrap();
    assert!(!replacement.supervisor.state().host_suspended);
    assert!(replacement.supervisor.state().active_generation_spec_digest.is_none());
    assert_eq!(replacement.supervisor.state().generations[0].retirement_reason, Some(RetirementReason::HostBuildReplaced));

    let new_generation = empty_generation("new-host-build");
    replacement.transition(&transition(None, &new_generation, ReplacementMode::Initial, "0"), &new_generation, 1).unwrap();
    assert_eq!(replacement.route().unwrap().target(), new_generation.spec.digest());
}

#[test]
fn host_replacement_rejects_live_or_unclean_control_state() {
    let store = SharedStore::default();
    let generation = empty_generation("still-live-host");
    let mut live = Host::open("app", Runtime::default(), store.clone()).unwrap();
    live.transition(&transition(None, &generation, ReplacementMode::Initial, "0"), &generation, 0).unwrap();

    let error = Host::replace_suspended("app", Runtime::default(), store).unwrap_err();
    assert!(matches!(error, ControlPlaneError::TransitionRejected { detail } if detail.contains("clean durable suspension")));
    assert!(live.route().is_ok());
}

#[test]
fn maintenance_forces_retirement_after_the_durable_drain_deadline() {
    let first = empty_generation("deadline-first");
    let second = empty_generation("deadline-second");
    let mut host = Host::open("app", Runtime::default(), MemoryControlStateStore::default()).unwrap();
    host.transition(&transition(None, &first, ReplacementMode::Initial, "0"), &first, 0).unwrap();
    let route = host.route().unwrap();
    host.transition(&transition(Some(&first), &second, ReplacementMode::Overlap, "0"), &second, 0).unwrap();

    let outcomes = host.maintain(1_000_000_000).unwrap();
    assert!(outcomes.iter().any(|outcome| matches!(
        outcome,
        GenerationMaintenanceOutcome::Retired { generation_spec_digest, reason: RetirementReason::DrainDeadlineExceeded }
            if generation_spec_digest == first.spec.digest()
    )));
    assert_eq!(route.target(), first.spec.digest());
    assert_eq!(host.record(&first).lifecycle, ControlLifecycle::Retired);
    assert_eq!(host.record(&first).retirement_reason, Some(RetirementReason::DrainDeadlineExceeded));
}

#[test]
fn terminal_active_without_a_live_rollback_target_is_fenced_and_retired() {
    let runtime = Runtime::default();
    let generation = empty_generation("terminal-no-rollback");
    let mut host = Host::open("app", runtime.clone(), MemoryControlStateStore::default()).unwrap();
    let activation = host.transition(&transition(None, &generation, ReplacementMode::Initial, "0"), &generation, 0).unwrap();
    let route = host.route().unwrap();
    runtime.fail(generation.spec.digest(), "terminal active");

    let outcomes = host.maintain(1).unwrap();
    assert!(outcomes.iter().any(|outcome| matches!(
        outcome,
        GenerationMaintenanceOutcome::Failed(failure)
            if failure.generation_spec_digest == generation.spec.digest() && failure.automatic_rollback.is_none()
    )));
    assert!(host.supervisor.state().active_generation_spec_digest.is_none());
    assert_eq!(host.supervisor.state().routing_epoch, activation.routing_epoch + 1);
    assert!(host.route_at_epoch(activation.routing_epoch).is_err());
    assert_eq!(route.target(), generation.spec.digest());
    assert_eq!(host.record(&generation).lifecycle, ControlLifecycle::Retired);
    assert_eq!(host.record(&generation).health, ControlHealth::Failed);
    assert_eq!(host.record(&generation).retirement_reason, Some(RetirementReason::TerminalFailure));
}

#[test]
fn terminal_standby_is_retired_and_cannot_receive_automatic_rollback() {
    let runtime = Runtime::default();
    let first = empty_generation("failed-standby-first");
    let second = empty_generation("failed-standby-second");
    let mut host = Host::open("app", runtime.clone(), MemoryControlStateStore::default()).unwrap();
    host.transition(&transition(None, &first, ReplacementMode::Initial, "0"), &first, 0).unwrap();
    let overlap = transition_with_receipts(Some(&first), &second, ReplacementMode::Overlap, "10000000000", true, Vec::new());
    host.transition(&overlap, &second, 1).unwrap();
    host.maintain(2).unwrap();
    runtime.fail(first.spec.digest(), "terminal standby");
    host.maintain(3).unwrap();
    runtime.fail(second.spec.digest(), "terminal active");
    let outcomes = host.maintain(4).unwrap();
    assert!(outcomes.iter().any(|outcome| matches!(
        outcome,
        GenerationMaintenanceOutcome::Failed(failure)
            if failure.generation_spec_digest == second.spec.digest() && failure.automatic_rollback.is_none()
    )));
    assert!(host.supervisor.state().active_generation_spec_digest.is_none());
    assert!(host
        .supervisor
        .state()
        .generations
        .iter()
        .all(|record| record.lifecycle == ControlLifecycle::Retired && record.health == ControlHealth::Failed));
}

#[test]
fn shutdown_does_not_return_an_existing_drain_to_standby() {
    let first = empty_generation("shutdown-drain-first");
    let second = empty_generation("shutdown-drain-second");
    let mut host = Host::open("app", Runtime::default(), MemoryControlStateStore::default()).unwrap();
    host.transition(&transition(None, &first, ReplacementMode::Initial, "0"), &first, 0).unwrap();
    let route = host.route().unwrap();
    host.transition(&transition(Some(&first), &second, ReplacementMode::Overlap, "10000000000"), &second, 1).unwrap();
    host.supervisor.begin_shutdown(2).unwrap();
    host.drop_route(route);
    host.maintain(3).unwrap();
    assert!(host.supervisor.is_retired());
    assert!(host.supervisor.state().generations.iter().all(|record| record.lifecycle == ControlLifecycle::Retired));
}

#[test]
fn a_rollback_returns_to_the_retained_predecessor_only_in_time() {
    let first = empty_generation("window-first");
    let second = empty_generation("window-second");
    let mut host = Host::open("app", Runtime::default(), MemoryControlStateStore::default()).unwrap();
    host.transition(&transition(None, &first, ReplacementMode::Initial, "0"), &first, 0).unwrap();
    host.transition(&transition(Some(&first), &second, ReplacementMode::Overlap, "100"), &second, 0).unwrap();
    let late = host.supervisor.rollback(first.spec.digest(), 100).unwrap_err();
    assert_eq!(late.message(), "rollback target is not a retained predecessor");
    let outcome = host.supervisor.rollback(first.spec.digest(), 99).unwrap();
    assert_eq!(outcome.activation_direction, ActivationDirection::Rollback);
    assert_eq!(outcome.draining_generation_spec_digest.as_deref(), Some(second.spec.digest()));
    assert_eq!(host.record(&second).drain_deadline_unix_nanos.as_deref(), Some("1000000099"));
    let unknown = host.supervisor.rollback("sha256:absent", 0).unwrap_err();
    assert_eq!(unknown.message(), "unknown Generation `sha256:absent`");
}

#[test]
fn a_standby_window_expires_exactly_at_its_deadline() {
    let first = empty_generation("expiry-first");
    let second = empty_generation("expiry-second");
    let mut host = Host::open("app", Runtime::default(), MemoryControlStateStore::default()).unwrap();
    host.transition(&transition(None, &first, ReplacementMode::Initial, "0"), &first, 0).unwrap();
    host.transition(&transition(Some(&first), &second, ReplacementMode::Overlap, "100"), &second, 0).unwrap();
    host.complete_drain(first.spec.digest(), 50).unwrap();
    assert!(host.expire_rollback_window(first.spec.digest(), 99).is_err());
    host.expire_rollback_window(first.spec.digest(), 100).unwrap();
    assert_eq!(host.record(&first).retirement_reason, Some(RetirementReason::RollbackWindowExpired));
}

#[test]
fn a_leased_generation_is_not_stopped_for_maintenance() {
    let first = empty_generation("leased-first");
    let second = empty_generation("leased-second");
    let mut host = Host::open("app", Runtime::default(), MemoryControlStateStore::default()).unwrap();
    host.transition(&transition(None, &first, ReplacementMode::Initial, "0"), &first, 0).unwrap();
    let route = host.route().unwrap();
    let edge = transition(Some(&first), &second, ReplacementMode::Maintenance, "0");
    let error = host.transition(&edge, &second, 1).unwrap_err();
    assert_eq!(error.message(), "maintenance replacement cannot stop a leased Generation");
    assert_eq!(host.record(&second).retirement_reason, Some(RetirementReason::StagingFailed));
    assert_eq!(host.record(&second).health, ControlHealth::Failed);
    assert_eq!(route.target(), first.spec.digest());
}

#[test]
fn a_failed_staging_keeps_the_route_with_the_predecessor() {
    let first = empty_generation("staging-first");
    let second = empty_generation("staging-second");
    let runtime = Runtime::default();
    let mut host = Host::open("app", runtime.clone(), MemoryControlStateStore::default()).unwrap();
    host.transition(&transition(None, &first, ReplacementMode::Initial, "0"), &first, 0).unwrap();
    runtime.stage_failures.borrow_mut().insert(second.spec.digest().to_owned());
    let edge = transition(Some(&first), &second, ReplacementMode::Overlap, "0");
    let error = host.transition(&edge, &second, 1).unwrap_err();
    assert_eq!(error.message(), "configured staging failure");
    assert_eq!(host.record(&second).retirement_reason, Some(RetirementReason::StagingFailed));
    assert_eq!(host.route().unwrap().target(), first.spec.digest());
}

#[test]
fn edges_that_do_not_fit_the_active_generation_are_rejected() {
    let first = empty_generation("edge-first");
    let second = empty_generation("edge-second");
    let mut host = Host::open("app", Runtime::default(), MemoryControlStateStore::default()).unwrap();
    host.transition(&transition(None, &first, ReplacementMode::Initial, "0"), &first, 0).unwrap();
    for edge in [
        transition(None, &second, ReplacementMode::Initial, "0"),
        transition(Some(&second), &second, ReplacementMode::Overlap, "0"),
        transition(Some(&first), &first, ReplacementMode::Overlap, "0"),
    ] {
        assert!(matches!(host.transition(&edge, &second, 1), Err(ControlPlaneError::TransitionRejected { .. })));
    }
    assert_eq!(host.supervisor.state().generations.len(), 1);
}

#[test]
fn a_lost_compare_and_swap_names_both_revisions() {
    let mut state = DurableControlState::initial("app");
    state.revision = 7;
    let error = swap(&state, "app", 6, state.clone()).unwrap_err();
    assert_eq!(error.message(), "control-state compare-and-swap fenced: expected revision 6, current 7");
    assert_eq!(swap(&state, "app", 7, state.clone()).unwrap().revision, 8);
    assert!(swap(&state, "other", 7, state.clone()).is_err());
}

#[test]
fn a_taken_over_supervisor_admits_no_route() {
    let store = SharedStore::default();
    let mut first = Host::open("app", Runtime::default(), store.clone()).unwrap();
    let generation = empty_generation("taken-over");
    first.transition(&transition(None, &generation, ReplacementMode::Initial, "0"), &generation, 0).unwrap();
    let live = Host::open("app", Runtime::default(), store.clone()).unwrap_err();
    assert_eq!(live.message(), "live durable control state requires explicit recovery");
    let recovered = Host::recover("app", Runtime::default(), store, &authorities(vec![empty_generation("taken-over")]), 0).unwrap();
    assert_eq!(first.route().unwrap_err().message(), "Generation Supervisor was fenced by newer durable authority");
    assert_eq!(recovered.supervisor.state().supervisor_epoch, 2);
}

#[test]
fn a_route_is_admitted_after_every_uncontested_commit() {
    let mut host = Host::open("app", Runtime::default(), MemoryControlStateStore::default()).unwrap();
    let first = empty_generation("first");
    host.transition(&transition(None, &first, ReplacementMode::Initial, "0"), &first, 0).unwrap();
    assert_eq!(host.supervisor.lease().map(|lease| lease.generation_spec_digest().to_owned()).unwrap(), first.spec.digest());
    assert_eq!(host.supervisor.lease_at_epoch(7).unwrap_err().message(), "router presented an obsolete Routing Epoch");
    host.supervisor.begin_shutdown(1).unwrap();
    assert_eq!(host.supervisor.lease().unwrap_err().message(), "no active App Generation");
}

#[test]
fn a_refusal_of_the_store_is_handed_on_unchanged() {
    let refused = ControlPlaneError::StoreFailure { detail: "injected CAS failure".to_owned() };
    let store = SharedStore::default();
    store.fail_on(1);
    assert_eq!(Host::open("app", Runtime::default(), store.clone()).unwrap_err(), refused);
    assert_eq!(*store.state.borrow(), None);

    let mut suspended = DurableControlState::initial("app");
    suspended.host_suspended = true;
    let store = SharedStore::with_state(suspended.clone());
    store.fail_on(1);
    let error = DurableGenerationSupervisor::<String, SharedStore>::replace_suspended_host("app".to_owned(), store.clone()).unwrap_err();
    assert_eq!(error, refused);
    store.fail_on(2);
    let error = Recovery::<String, SharedStore>::begin("app".to_owned(), store.clone(), 0).unwrap_err();
    assert_eq!(error, refused);
    assert_eq!(*store.state.borrow(), Some(suspended));

    let mut host = Host::open("app", Runtime::default(), SharedStore::default()).unwrap();
    let store = SharedStore::default();
    let mut other = Host::open("app", Runtime::default(), store.clone()).unwrap();
    store.state.borrow_mut().as_mut().unwrap().app_id = "other".to_owned();
    assert_eq!(host.supervisor.lease().unwrap_err().message(), "no active App Generation");
    assert_eq!(
        other.supervisor.lease().unwrap_err().message(),
        "durable control state violates App, uniqueness, or active-route closure"
    );
}

#[test]
fn a_suspension_needs_time_and_a_controller_needs_an_interval() {
    assert!(request_suspension(None, 0, 0, u128::MAX).is_err());
    assert!(request_suspension(None, 5, 6, 10).is_err());
    assert_eq!(request_suspension(None, 5, 5, 10).unwrap(), 10);
    let host = Host::open("app", Runtime::default(), MemoryControlStateStore::default()).unwrap();
    assert!(Loop::new(host, 0).is_err());
}

#[test]
fn a_candidate_that_is_not_staged_leaves_the_route_where_it_was() {
    let runtime = Runtime::default();
    let mut host = Host::open("app", runtime.clone(), SharedStore::default()).unwrap();
    let first = empty_generation("kept-first");
    let second = empty_generation("kept-second");
    host.transition(&transition(None, &first, ReplacementMode::Initial, "0"), &first, 0).unwrap();
    let epoch = host.supervisor.state().routing_epoch;
    runtime.stage_failures.borrow_mut().insert(second.spec.digest().to_owned());

    let overlap = transition_with_receipts(Some(&first), &second, ReplacementMode::Overlap, "0", false, Vec::new());
    assert!(host.transition(&overlap, &second, 100).is_err());
    let state = host.supervisor.state();
    assert_eq!(state.active_generation_spec_digest.as_deref(), Some(first.spec.digest()));
    assert_eq!(state.routing_epoch, epoch);
    assert_eq!(host.record(&second).retirement_reason, Some(RetirementReason::StagingFailed));

    runtime.stage_failures.borrow_mut().clear();
    let outcome = host.transition(&overlap, &second, 200).unwrap();
    assert_eq!(outcome.active_generation_spec_digest, second.spec.digest());
    assert_eq!(outcome.routing_epoch, epoch + 1);
}

#[test]
fn a_recorded_suspension_answers_every_request() {
    let ended = || Some(Ok(DurableControlState::initial("app")));
    assert!(matches!(join_suspension(ended(), None, 0, 0, u128::MAX), Ok(SuspensionRequest::Ended(Ok(state))) if state.app_id == "app"));
    assert!(matches!(join_suspension(ended(), Some(5), 9, 1, u128::MAX), Ok(SuspensionRequest::Ended(Ok(_)))));
    assert!(join_suspension(None, Some(5), 0, 0, u128::MAX).is_err());
    assert!(matches!(join_suspension(None, Some(5), 1, 60, u128::MAX), Ok(SuspensionRequest::Running(5))));
    assert!(matches!(join_suspension(None, None, 1, 60, u128::MAX), Ok(SuspensionRequest::Running(61))));
}

#[test]
fn a_rollback_is_admitted_until_its_window_ends() {
    for (now, admitted) in [(109, true), (110, false)] {
        let mut host = Host::open("app", Runtime::default(), MemoryControlStateStore::default()).unwrap();
        let (first, second) = (empty_generation("window-first"), empty_generation("window-second"));
        host.transition(&transition(None, &first, ReplacementMode::Initial, "0"), &first, 0).unwrap();
        let overlap = transition(Some(&first), &second, ReplacementMode::Overlap, "100");
        let switched = host.transition(&overlap, &second, 10).unwrap();
        let before = host.supervisor.state().clone();
        let rolled = host.supervisor.rollback(first.spec.digest(), now);
        assert_eq!(rolled.is_ok(), admitted);
        if let Ok(outcome) = rolled {
            assert_eq!(outcome.routing_epoch, switched.routing_epoch + 1);
            assert_eq!(outcome.active_generation_spec_digest, first.spec.digest());
        } else {
            assert_eq!(host.supervisor.state(), &before);
        }
    }
}

#[test]
fn a_bad_edge_is_refused_before_the_active_generation_is_looked_at() {
    let host = Host::open("app", Runtime::default(), MemoryControlStateStore::default()).unwrap();
    let first = empty_generation("edge-first");
    let edge = transition(None, &first, ReplacementMode::Overlap, "0");
    assert!(host.supervisor.is_prepared_for(&edge, &first));
}
