//! Durable control state of one App: its model, its validity and its persistence seam.
use vstd::prelude::*;
use vstd::string::*;

use crate::canonical::{list_json, opt_json, opt_text_json, opt_text_tree, opt_tree, text_list_json, text_list_tree, trees, Document};
use crate::error::{rejected, rejection, ControlPlaneError, ErrorView};
use crate::json::{entry_models, object_model, Json, JsonView};
use crate::text;
use crate::text::{opt_text, texts};

verus! {

/// Durable lifecycle of one complete App Generation.
#[derive(Clone, Copy, Debug, PartialEq, Eq, Structural)]
pub enum ControlLifecycle {
    Staged,
    Ready,
    Active,
    Draining,
    Standby,
    Retired,
}

/// Durable health is orthogonal to lifecycle.
#[derive(Clone, Copy, Debug, PartialEq, Eq, Structural)]
pub enum ControlHealth {
    Healthy,
    Failed,
}

/// Direction which most recently activated a Generation.
#[derive(Clone, Copy, Debug, PartialEq, Eq, Structural)]
pub enum ActivationDirection {
    Forward,
    Rollback,
}

/// Durable reason why a Generation released all Host-owned resources.
#[derive(Clone, Copy, Debug, PartialEq, Eq, Structural)]
pub enum RetirementReason {
    StagingFailed,
    Replaced,
    Drained,
    DrainDeadlineExceeded,
    RollbackWindowExpired,
    TerminalFailure,
    SupervisorShutdown,
    RecoveryCleanup,
    HostBuildReplaced,
}

/// Durable authority and recovery facts for one Generation.
#[derive(Debug, PartialEq, Eq)]
pub struct GenerationControlRecord {
    pub generation_spec_digest: String,
    pub transition_spec_digest: String,
    pub lifecycle: ControlLifecycle,
    pub health: ControlHealth,
    pub activation_direction: ActivationDirection,
    pub ready_timeout_nanos: String,
    pub drain_timeout_nanos: String,
    pub drain_deadline_unix_nanos: Option<String>,
    pub rollback_deadline_unix_nanos: Option<String>,
    pub automatic_rollback_on_generation_failure: bool,
    pub state_compatibility_receipt_digests: Vec<String>,
    pub retirement_reason: Option<RetirementReason>,
}

/// Compare-and-swap state read before route admission or recovery.
#[derive(Debug, PartialEq, Eq)]
pub struct DurableControlState {
    pub schema_version: u32,
    pub app_id: String,
    pub revision: u64,
    pub supervisor_epoch: u64,
    pub routing_epoch: u64,
    pub host_suspended: bool,
    pub active_generation_spec_digest: Option<String>,
    pub generations: Vec<GenerationControlRecord>,
}

/// The facts of one record, with text as sequences of characters.
pub struct RecordView {
    pub generation_spec_digest: Seq<char>,
    pub transition_spec_digest: Seq<char>,
    pub lifecycle: ControlLifecycle,
    pub health: ControlHealth,
    pub activation_direction: ActivationDirection,
    pub ready_timeout_nanos: Seq<char>,
    pub drain_timeout_nanos: Seq<char>,
    pub drain_deadline_unix_nanos: Option<Seq<char>>,
    pub rollback_deadline_unix_nanos: Option<Seq<char>>,
    pub automatic_rollback_on_generation_failure: bool,
    pub state_compatibility_receipt_digests: Seq<Seq<char>>,
    pub retirement_reason: Option<RetirementReason>,
}

/// The facts of one control state, with text as sequences of characters.
pub struct StateView {
    pub schema_version: u32,
    pub app_id: Seq<char>,
    pub revision: u64,
    pub supervisor_epoch: u64,
    pub routing_epoch: u64,
    pub host_suspended: bool,
    pub active_generation_spec_digest: Option<Seq<char>>,
    pub generations: Seq<RecordView>,
}

impl View for GenerationControlRecord {
    type V = RecordView;

    open spec fn view(&self) -> RecordView {
        RecordView {
            generation_spec_digest: self.generation_spec_digest@,
            transition_spec_digest: self.transition_spec_digest@,
            lifecycle: self.lifecycle,
            health: self.health,
            activation_direction: self.activation_direction,
            ready_timeout_nanos: self.ready_timeout_nanos@,
            drain_timeout_nanos: self.drain_timeout_nanos@,
            drain_deadline_unix_nanos: opt_text(self.drain_deadline_unix_nanos),
            rollback_deadline_unix_nanos: opt_text(self.rollback_deadline_unix_nanos),
            automatic_rollback_on_generation_failure: self.automatic_rollback_on_generation_failure,
            state_compatibility_receipt_digests: texts(self.state_compatibility_receipt_digests@),
            retirement_reason: self.retirement_reason,
        }
    }
}

/// The facts of a list of records.
pub open spec fn records(items: Seq<GenerationControlRecord>) -> Seq<RecordView> {
    items.map_values(|item: GenerationControlRecord| item@)
}

impl View for DurableControlState {
    type V = StateView;

    open spec fn view(&self) -> StateView {
        StateView {
            schema_version: self.schema_version,
            app_id: self.app_id@,
            revision: self.revision,
            supervisor_epoch: self.supervisor_epoch,
            routing_epoch: self.routing_epoch,
            host_suspended: self.host_suspended,
            active_generation_spec_digest: opt_text(self.active_generation_spec_digest),
            generations: records(self.generations@),
        }
    }
}

impl StateView {
    /// Some record is about the Generation with this digest.
    pub open spec fn has(self, digest: Seq<char>) -> bool {
        exists|i: int| 0 <= i < self.generations.len()
            && (#[trigger] self.generations[i]).generation_spec_digest == digest
    }

    /// The position of the record about the Generation with this digest.
    pub open spec fn position(self, digest: Seq<char>) -> int {
        choose|i: int| 0 <= i < self.generations.len()
            && (#[trigger] self.generations[i]).generation_spec_digest == digest
    }

    /// The record about the Generation with this digest.
    pub open spec fn record(self, digest: Seq<char>) -> RecordView {
        self.generations[self.position(digest)]
    }

    /// No two records are about the same Generation.
    pub open spec fn unique(self) -> bool {
        forall|i: int, j: int| 0 <= i < j < self.generations.len() ==>
            (#[trigger] self.generations[i]).generation_spec_digest
                != (#[trigger] self.generations[j]).generation_spec_digest
    }

    /// The state belongs to the App, names each Generation once, and has an Active record
    /// exactly for the Generation that it routes to.
    pub open spec fn valid(self, app_id: Seq<char>) -> bool {
        &&& self.schema_version == 1
        &&& self.app_id == app_id
        &&& self.unique()
        &&& self.active_generation_spec_digest matches Some(active) ==> self.has(active)
            && self.record(active).lifecycle == ControlLifecycle::Active
        &&& forall|i: int| 0 <= i < self.generations.len()
            && (#[trigger] self.generations[i]).lifecycle == ControlLifecycle::Active
            ==> self.active_generation_spec_digest == Some(self.generations[i].generation_spec_digest)
    }

    /// The state in which `record` takes the place of the record about the same Generation.
    pub open spec fn with_record(self, record: RecordView) -> StateView {
        StateView {
            generations: self.generations.map_values(
                |other: RecordView|
                    if other.generation_spec_digest == record.generation_spec_digest {
                        record
                    } else {
                        other
                    },
            ),
            ..self
        }
    }

    /// The state as the store hands it back after it was committed over revision `expected`.
    pub open spec fn committed(self, expected: u64) -> StateView {
        StateView { revision: (expected + 1) as u64, ..self }
    }

    /// With unique digests, a record is found at its own position.
    pub proof fn found(self, i: int)
        requires
            self.unique(),
            0 <= i < self.generations.len(),
        ensures
            self.has(self.generations[i].generation_spec_digest),
            self.position(self.generations[i].generation_spec_digest) == i,
            self.record(self.generations[i].generation_spec_digest) == self.generations[i],
    {
        let digest = self.generations[i].generation_spec_digest;
        assert(self.generations[i].generation_spec_digest == digest);
        let p = self.position(digest);
        assert(0 <= p < self.generations.len() && self.generations[p].generation_spec_digest == digest);
    }

    /// Replacing a record that is there changes that position and no other.
    pub proof fn replaced(self, i: int, record: RecordView)
        requires
            self.unique(),
            0 <= i < self.generations.len(),
            self.generations[i].generation_spec_digest == record.generation_spec_digest,
        ensures
            self.with_record(record).generations == self.generations.update(i, record),
            self.with_record(record).unique(),
    {
        assert(self.with_record(record).generations =~= self.generations.update(i, record));
        let after = self.with_record(record);
        assert forall|a: int, b: int| 0 <= a < b < after.generations.len() implies
            (#[trigger] after.generations[a]).generation_spec_digest
                != (#[trigger] after.generations[b]).generation_spec_digest by {
            assert(self.generations[a].generation_spec_digest != self.generations[b].generation_spec_digest);
        }
    }

    /// A valid state routes to at most one Generation: the number of Active records is one
    /// where a route is set and zero where none is.
    pub proof fn active_records_match_the_route(self, app_id: Seq<char>)
        requires
            self.valid(app_id),
        ensures
            self.generations.filter(|r: RecordView| r.lifecycle == ControlLifecycle::Active).len()
                == (if self.active_generation_spec_digest is Some { 1nat } else { 0nat }),
    {
        let test = |r: RecordView| r.lifecycle == ControlLifecycle::Active;
        match self.active_generation_spec_digest {
            Some(active) => {
                let p = self.position(active);
                assert(0 <= p < self.generations.len());
                assert forall|i: int| 0 <= i < self.generations.len() && i != p implies !test(self.generations[i]) by {
                    if self.generations[i].lifecycle == ControlLifecycle::Active {
                        assert(self.generations[i].generation_spec_digest == active);
                        if i < p {
                            assert(self.generations[i].generation_spec_digest != self.generations[p].generation_spec_digest);
                        } else {
                            assert(self.generations[p].generation_spec_digest != self.generations[i].generation_spec_digest);
                        }
                    }
                }
                lemma_filter_one(self.generations, test, p);
            },
            None => {
                lemma_filter_none(self.generations, test);
            },
        }
    }
}

proof fn lemma_filter_none(s: Seq<RecordView>, test: spec_fn(RecordView) -> bool)
    requires
        forall|i: int| 0 <= i < s.len() ==> !test(#[trigger] s[i]),
    ensures
        s.filter(test).len() == 0,
    decreases s.len(),
{
    reveal(Seq::filter);
    if s.len() > 0 {
        lemma_filter_none(s.drop_last(), test);
    }
}

proof fn lemma_filter_one(s: Seq<RecordView>, test: spec_fn(RecordView) -> bool, p: int)
    requires
        0 <= p < s.len(),
        test(s[p]),
        forall|i: int| 0 <= i < s.len() && i != p ==> !test(#[trigger] s[i]),
    ensures
        s.filter(test).len() == 1,
    decreases s.len(),
{
    reveal(Seq::filter);
    if p == s.len() - 1 {
        lemma_filter_none(s.drop_last(), test);
    } else {
        lemma_filter_one(s.drop_last(), test, p);
    }
}

impl Clone for GenerationControlRecord {
    fn clone(&self) -> (r: Self)
        ensures
            r@ == self@,
    {
        GenerationControlRecord {
            generation_spec_digest: self.generation_spec_digest.clone(),
            transition_spec_digest: self.transition_spec_digest.clone(),
            lifecycle: self.lifecycle,
            health: self.health,
            activation_direction: self.activation_direction,
            ready_timeout_nanos: self.ready_timeout_nanos.clone(),
            drain_timeout_nanos: self.drain_timeout_nanos.clone(),
            drain_deadline_unix_nanos: text::copy_opt(&self.drain_deadline_unix_nanos),
            rollback_deadline_unix_nanos: text::copy_opt(&self.rollback_deadline_unix_nanos),
            automatic_rollback_on_generation_failure: self.automatic_rollback_on_generation_failure,
            state_compatibility_receipt_digests: text::copy_all(&self.state_compatibility_receipt_digests),
            retirement_reason: self.retirement_reason,
        }
    }
}

impl Clone for DurableControlState {
    fn clone(&self) -> (r: Self)
        ensures
            r@ == self@,
    {
        let mut generations: Vec<GenerationControlRecord> = Vec::new();
        let mut i: usize = 0;
        while i < self.generations.len()
            invariant
                i <= self.generations.len(),
                generations@.len() == i,
                forall|k: int| 0 <= k < i ==> generations@[k]@ == self.generations@[k]@,
            decreases self.generations.len() - i,
        {
            generations.push(self.generations[i].clone());
            i = i + 1;
        }
        assert(records(generations@) =~= records(self.generations@));
        DurableControlState {
            schema_version: self.schema_version,
            app_id: self.app_id.clone(),
            revision: self.revision,
            supervisor_epoch: self.supervisor_epoch,
            routing_epoch: self.routing_epoch,
            host_suspended: self.host_suspended,
            active_generation_spec_digest: text::copy_opt(&self.active_generation_spec_digest),
            generations,
        }
    }
}

/// The state of an App that never ran.
pub open spec fn initial_state(app_id: Seq<char>) -> StateView {
    StateView {
        schema_version: 1,
        app_id,
        revision: 0,
        supervisor_epoch: 0,
        routing_epoch: 0,
        host_suspended: false,
        active_generation_spec_digest: None,
        generations: Seq::empty(),
    }
}

impl DurableControlState {
    /// The state of an App that never ran.
    pub fn initial(app_id: &str) -> (r: Self)
        ensures
            r@ == initial_state(app_id@),
            r@.valid(app_id@),
    {
        let r = DurableControlState {
            schema_version: 1,
            app_id: app_id.to_owned(),
            revision: 0,
            supervisor_epoch: 0,
            routing_epoch: 0,
            host_suspended: false,
            active_generation_spec_digest: None,
            generations: Vec::new(),
        };
        assert(r@.generations =~= Seq::empty());
        r
    }

    /// The position of the record about one Generation.
    pub fn find(&self, digest: &str) -> (r: Option<usize>)
        ensures
            match r {
                Some(i) => i < self.generations.len() && self@.generations[i as int].generation_spec_digest == digest@
                    && self@.has(digest@) && (self@.unique() ==> self@.position(digest@) == i),
                None => !self@.has(digest@),
            },
    {
        let mut i: usize = 0;
        while i < self.generations.len()
            invariant
                i <= self.generations.len(),
                self@.generations.len() == self.generations.len(),
                forall|k: int| 0 <= k < i ==> (#[trigger] self@.generations[k]).generation_spec_digest != digest@,
            decreases self.generations.len() - i,
        {
            if text::same(self.generations[i].generation_spec_digest.as_str(), digest) {
                assert(self@.generations[i as int].generation_spec_digest == digest@);
                proof {
                    if self@.unique() {
                        self@.found(i as int);
                    }
                }
                return Some(i);
            }
            assert(self@.generations[i as int].generation_spec_digest != digest@);
            i = i + 1;
        }
        None
    }

    /// Checks App identity, uniqueness of records and the closure of the active route.
    pub fn validate(&self, app_id: &str) -> (r: Result<(), ControlPlaneError>)
        ensures
            match r {
                Ok(_) => self@.valid(app_id@),
                Err(error) => !self@.valid(app_id@) && error@ == rejection(
                    "durable control state violates App, uniqueness, or active-route closure"@,
                ),
            },
    {
        if self.closed(app_id) {
            Ok(())
        } else {
            Err(rejected("durable control state violates App, uniqueness, or active-route closure"))
        }
    }

    fn closed(&self, app_id: &str) -> (r: bool)
        ensures
            r == self@.valid(app_id@),
    {
        if self.schema_version != 1 || !text::same(self.app_id.as_str(), app_id) {
            return false;
        }
        let mut i: usize = 0;
        while i < self.generations.len()
            invariant
                i <= self.generations.len(),
                self@.generations.len() == self.generations.len(),
                forall|a: int, b: int| 0 <= a < b < i ==>
                    (#[trigger] self@.generations[a]).generation_spec_digest
                        != (#[trigger] self@.generations[b]).generation_spec_digest,
                forall|k: int| 0 <= k < i && (#[trigger] self@.generations[k]).lifecycle == ControlLifecycle::Active
                    ==> self@.active_generation_spec_digest == Some(self@.generations[k].generation_spec_digest),
            decreases self.generations.len() - i,
        {
            assert(self@.generations[i as int] == self.generations@[i as int]@);
            let mut j: usize = 0;
            while j < i
                invariant
                    j <= i,
                    i < self.generations.len(),
                    self@.generations.len() == self.generations.len(),
                    forall|k: int| 0 <= k < j ==>
                        (#[trigger] self@.generations[k]).generation_spec_digest
                            != self@.generations[i as int].generation_spec_digest,
                decreases i - j,
            {
                if text::same(
                    self.generations[j].generation_spec_digest.as_str(),
                    self.generations[i].generation_spec_digest.as_str(),
                ) {
                    assert(self@.generations[j as int].generation_spec_digest == self@.generations[i as int].generation_spec_digest);
                    return false;
                }
                assert(self@.generations[j as int].generation_spec_digest != self@.generations[i as int].generation_spec_digest);
                j = j + 1;
            }
            if self.generations[i].lifecycle == ControlLifecycle::Active && !text::is_text(
                &self.active_generation_spec_digest,
                self.generations[i].generation_spec_digest.as_str(),
            ) {
                return false;
            }
            i = i + 1;
        }
        assert(self@.unique());
        match &self.active_generation_spec_digest {
            Some(active) => match self.find(active.as_str()) {
                Some(p) => {
                    assert(self@.record(active@) == self.generations@[p as int]@);
                    self.generations[p].lifecycle == ControlLifecycle::Active
                },
                None => false,
            },
            None => true,
        }
    }
}

impl Document for ControlLifecycle {
    open spec fn tree(&self) -> JsonView {
        JsonView::Text(
            match *self {
                ControlLifecycle::Staged => "staged"@,
                ControlLifecycle::Ready => "ready"@,
                ControlLifecycle::Active => "active"@,
                ControlLifecycle::Draining => "draining"@,
                ControlLifecycle::Standby => "standby"@,
                ControlLifecycle::Retired => "retired"@,
            },
        )
    }

    fn to_json(&self) -> (r: Json) {
        Json::Text(
            match self {
                ControlLifecycle::Staged => "staged".to_owned(),
                ControlLifecycle::Ready => "ready".to_owned(),
                ControlLifecycle::Active => "active".to_owned(),
                ControlLifecycle::Draining => "draining".to_owned(),
                ControlLifecycle::Standby => "standby".to_owned(),
                ControlLifecycle::Retired => "retired".to_owned(),
            },
        )
    }
}

impl Document for ControlHealth {
    open spec fn tree(&self) -> JsonView {
        JsonView::Text(
            match *self {
                ControlHealth::Healthy => "healthy"@,
                ControlHealth::Failed => "failed"@,
            },
        )
    }

    fn to_json(&self) -> (r: Json) {
        Json::Text(
            match self {
                ControlHealth::Healthy => "healthy".to_owned(),
                ControlHealth::Failed => "failed".to_owned(),
            },
        )
    }
}

impl Document for ActivationDirection {
    open spec fn tree(&self) -> JsonView {
        JsonView::Text(
            match *self {
                ActivationDirection::Forward => "forward"@,
                ActivationDirection::Rollback => "rollback"@,
            },
        )
    }

    fn to_json(&self) -> (r: Json) {
        Json::Text(
            match self {
                ActivationDirection::Forward => "forward".to_owned(),
                ActivationDirection::Rollback => "rollback".to_owned(),
            },
        )
    }
}

impl Document for RetirementReason {
    open spec fn tree(&self) -> JsonView {
        JsonView::Text(
            match *self {
                RetirementReason::StagingFailed => "staging_failed"@,
                RetirementReason::Replaced => "replaced"@,
                RetirementReason::Drained => "drained"@,
                RetirementReason::DrainDeadlineExceeded => "drain_deadline_exceeded"@,
                RetirementReason::RollbackWindowExpired => "rollback_window_expired"@,
                RetirementReason::TerminalFailure => "terminal_failure"@,
                RetirementReason::SupervisorShutdown => "supervisor_shutdown"@,
                RetirementReason::RecoveryCleanup => "recovery_cleanup"@,
                RetirementReason::HostBuildReplaced => "host_build_replaced"@,
            },
        )
    }

    fn to_json(&self) -> (r: Json) {
        Json::Text(
            match self {
                RetirementReason::StagingFailed => "staging_failed".to_owned(),
                RetirementReason::Replaced => "replaced".to_owned(),
                RetirementReason::Drained => "drained".to_owned(),
                RetirementReason::DrainDeadlineExceeded => "drain_deadline_exceeded".to_owned(),
                RetirementReason::RollbackWindowExpired => "rollback_window_expired".to_owned(),
                RetirementReason::TerminalFailure => "terminal_failure".to_owned(),
                RetirementReason::SupervisorShutdown => "supervisor_shutdown".to_owned(),
                RetirementReason::RecoveryCleanup => "recovery_cleanup".to_owned(),
                RetirementReason::HostBuildReplaced => "host_build_replaced".to_owned(),
            },
        )
    }
}

impl Document for GenerationControlRecord {
    open spec fn tree(&self) -> JsonView {
        JsonView::Object(
            seq![
                ("generation_spec_digest"@, JsonView::Text(self.generation_spec_digest@)),
                ("transition_spec_digest"@, JsonView::Text(self.transition_spec_digest@)),
                ("lifecycle"@, self.lifecycle.tree()),
                ("health"@, self.health.tree()),
                ("activation_direction"@, self.activation_direction.tree()),
                ("ready_timeout_nanos"@, JsonView::Text(self.ready_timeout_nanos@)),
                ("drain_timeout_nanos"@, JsonView::Text(self.drain_timeout_nanos@)),
                ("drain_deadline_unix_nanos"@, opt_text_tree(opt_text(self.drain_deadline_unix_nanos))),
                ("rollback_deadline_unix_nanos"@, opt_text_tree(opt_text(self.rollback_deadline_unix_nanos))),
                ("automatic_rollback_on_generation_failure"@, JsonView::Bool(self.automatic_rollback_on_generation_failure)),
                ("state_compatibility_receipt_digests"@, text_list_tree(texts(self.state_compatibility_receipt_digests@))),
                ("retirement_reason"@, opt_tree(self.retirement_reason)),
            ],
        )
    }

    fn to_json(&self) -> (r: Json) {
        let mut entries: Vec<(String, Json)> = Vec::new();
        entries.push(("generation_spec_digest".to_owned(), Json::Text(self.generation_spec_digest.clone())));
        entries.push(("transition_spec_digest".to_owned(), Json::Text(self.transition_spec_digest.clone())));
        entries.push(("lifecycle".to_owned(), self.lifecycle.to_json()));
        entries.push(("health".to_owned(), self.health.to_json()));
        entries.push(("activation_direction".to_owned(), self.activation_direction.to_json()));
        entries.push(("ready_timeout_nanos".to_owned(), Json::Text(self.ready_timeout_nanos.clone())));
        entries.push(("drain_timeout_nanos".to_owned(), Json::Text(self.drain_timeout_nanos.clone())));
        entries.push(("drain_deadline_unix_nanos".to_owned(), opt_text_json(&self.drain_deadline_unix_nanos)));
        entries.push(("rollback_deadline_unix_nanos".to_owned(), opt_text_json(&self.rollback_deadline_unix_nanos)));
        entries.push(("automatic_rollback_on_generation_failure".to_owned(), Json::Bool(self.automatic_rollback_on_generation_failure)));
        entries.push(("state_compatibility_receipt_digests".to_owned(), text_list_json(&self.state_compatibility_receipt_digests)));
        entries.push(("retirement_reason".to_owned(), opt_json(&self.retirement_reason)));
        proof {
            object_model(entries);
            assert(entry_models(entries@) =~= self.tree()->Object_0);
        }
        Json::Object(entries)
    }
}

impl Document for DurableControlState {
    open spec fn tree(&self) -> JsonView {
        JsonView::Object(
            seq![
                ("schema_version"@, JsonView::Unsigned(self.schema_version as u64)),
                ("app_id"@, JsonView::Text(self.app_id@)),
                ("revision"@, JsonView::Unsigned(self.revision)),
                ("supervisor_epoch"@, JsonView::Unsigned(self.supervisor_epoch)),
                ("routing_epoch"@, JsonView::Unsigned(self.routing_epoch)),
                ("host_suspended"@, JsonView::Bool(self.host_suspended)),
                ("active_generation_spec_digest"@, opt_text_tree(opt_text(self.active_generation_spec_digest))),
                ("generations"@, JsonView::List(trees(self.generations@))),
            ],
        )
    }

    fn to_json(&self) -> (r: Json) {
        let mut entries: Vec<(String, Json)> = Vec::new();
        entries.push(("schema_version".to_owned(), Json::Unsigned(self.schema_version as u64)));
        entries.push(("app_id".to_owned(), Json::Text(self.app_id.clone())));
        entries.push(("revision".to_owned(), Json::Unsigned(self.revision)));
        entries.push(("supervisor_epoch".to_owned(), Json::Unsigned(self.supervisor_epoch)));
        entries.push(("routing_epoch".to_owned(), Json::Unsigned(self.routing_epoch)));
        entries.push(("host_suspended".to_owned(), Json::Bool(self.host_suspended)));
        entries.push(("active_generation_spec_digest".to_owned(), opt_text_json(&self.active_generation_spec_digest)));
        entries.push(("generations".to_owned(), list_json(&self.generations)));
        proof {
            object_model(entries);
            assert(entry_models(entries@) =~= self.tree()->Object_0);
        }
        Json::Object(entries)
    }
}

/// Linearizable persistence seam for fenced supervisor state.
///
/// A store hands out only states that are valid for the App, and a swap that succeeds has
/// recorded the offered state under the revision after the expected one. Whether a call
/// succeeds is the store's decision.
pub trait ControlStateStore: Sized {
    /// What a swap of the next state over the expected revision may answer, and the store that it
    /// leaves behind. A store that says no more of itself promises what every store does.
    open spec fn swaps(
        self,
        app_id: Seq<char>,
        expected_revision: u64,
        next: StateView,
        answer: Result<DurableControlState, ControlPlaneError>,
        after: Self,
    ) -> bool {
        answer matches Ok(state) ==> expected_revision < u64::MAX && state@ == next.committed(expected_revision) && state@.valid(app_id)
    }

    fn load(&self, app_id: &str) -> (r: Result<DurableControlState, ControlPlaneError>)
        ensures
            r matches Ok(state) ==> state@.valid(app_id@),
    ;

    fn compare_and_swap(
        &mut self,
        app_id: &str,
        expected_revision: u64,
        next: DurableControlState,
    ) -> (r: Result<DurableControlState, ControlPlaneError>)
        ensures
            old(self).swaps(app_id@, expected_revision, next@, r, *final(self)),
            r matches Ok(state) ==> expected_revision < u64::MAX && state@ == next@.committed(expected_revision)
                && state@.valid(app_id@),
    ;
}

/// What a store may answer when it loads the control state of the App.
pub open spec fn load_answers<S: ControlStateStore>(store: S, app_id: Seq<char>, answer: Result<DurableControlState, ControlPlaneError>) -> bool {
    exists|name: &str| name@ == app_id && #[trigger] call_ensures(S::load, (&store, name), answer)
}

/// Loads the control state of the App.
pub(crate) fn load_from<S: ControlStateStore>(store: &S, app_id: &str) -> (r: Result<DurableControlState, ControlPlaneError>)
    ensures
        load_answers(*store, app_id@, r),
        r matches Ok(state) ==> state@.valid(app_id@),
{
    let answer = store.load(app_id);
    assert(call_ensures(S::load, (store, app_id), answer));
    answer
}

/// In-memory CAS backend for embedding and deterministic tests.
#[derive(Debug)]
pub struct MemoryControlStateStore {
    state: Option<DurableControlState>,
}

/// The state that a backend holds for an App, given what it recorded last.
pub open spec fn held(recorded: Option<StateView>, app_id: Seq<char>) -> StateView {
    match recorded {
        Some(state) => state,
        None => initial_state(app_id),
    }
}

/// The text of a swap that lost against a newer revision.
pub open spec fn fenced_detail(current: u64, expected: u64) -> Seq<char> {
    "control-state compare-and-swap fenced: expected revision "@ + text::decimal(expected as nat) + ", current "@
        + text::decimal(current as nat)
}

/// What a swap records over `current`: the offered state under the next revision, or a refusal.
pub open spec fn swapped(current: StateView, app_id: Seq<char>, expected: u64, next: StateView) -> Result<StateView, ErrorView> {
    if !current.valid(app_id) {
        Err(rejection("durable control state violates App, uniqueness, or active-route closure"@))
    } else if current.revision != expected {
        Err(rejection(fenced_detail(current.revision, expected)))
    } else if expected == u64::MAX {
        Err(rejection("control-state revision exhausted"@))
    } else if !next.committed(expected).valid(app_id) {
        Err(rejection("durable control state violates App, uniqueness, or active-route closure"@))
    } else {
        Ok(next.committed(expected))
    }
}

/// The refusal of a swap that lost against a newer revision.
fn fenced(current: u64, expected: u64) -> (r: ControlPlaneError)
    ensures
        r@ == rejection(fenced_detail(current, expected)),
{
    let mut detail = "control-state compare-and-swap fenced: expected revision ".to_owned();
    detail.append(text::print_u128(expected as u128).as_str());
    detail.append(", current ");
    detail.append(text::print_u128(current as u128).as_str());
    ControlPlaneError::TransitionRejected { detail }
}

/// Decides a compare-and-swap over the state that a backend holds.
pub fn swap(current: &DurableControlState, app_id: &str, expected_revision: u64, next: DurableControlState) -> (r: Result<DurableControlState, ControlPlaneError>)
    ensures
        match swapped(current@, app_id@, expected_revision, next@) {
            Ok(state) => r matches Ok(result) && result@ == state,
            Err(error) => r matches Err(result) && result@ == error,
        },
{
    match current.validate(app_id) {
        Ok(_) => {},
        Err(error) => return Err(error),
    }
    if current.revision != expected_revision {
        return Err(fenced(current.revision, expected_revision));
    }
    if expected_revision == u64::MAX {
        return Err(rejected("control-state revision exhausted"));
    }
    let mut next = next;
    next.revision = expected_revision + 1;
    match next.validate(app_id) {
        Ok(_) => Ok(next),
        Err(error) => Err(error),
    }
}

impl MemoryControlStateStore {
    /// What the store recorded last.
    pub closed spec fn recorded(self) -> Option<StateView> {
        match self.state {
            Some(state) => Some(state@),
            None => None,
        }
    }
}

impl Default for MemoryControlStateStore {
    fn default() -> (r: Self)
        ensures
            r.recorded() is None,
    {
        MemoryControlStateStore { state: None }
    }
}

impl ControlStateStore for MemoryControlStateStore {
    open spec fn swaps(
        self,
        app_id: Seq<char>,
        expected_revision: u64,
        next: StateView,
        answer: Result<DurableControlState, ControlPlaneError>,
        after: Self,
    ) -> bool {
        match swapped(held(self.recorded(), app_id), app_id, expected_revision, next) {
            Ok(state) => answer matches Ok(result) && result@ == state && after.recorded() == Some(state),
            Err(error) => answer matches Err(result) && result@ == error && after.recorded() == self.recorded(),
        }
    }

    fn load(&self, app_id: &str) -> (r: Result<DurableControlState, ControlPlaneError>)
        ensures
            match r {
                Ok(state) => state@ == held(self.recorded(), app_id@),
                Err(error) => !held(self.recorded(), app_id@).valid(app_id@) && error@ == rejection(
                    "durable control state violates App, uniqueness, or active-route closure"@,
                ),
            },
    {
        let state = match &self.state {
            Some(state) => state.clone(),
            None => DurableControlState::initial(app_id),
        };
        match state.validate(app_id) {
            Ok(_) => Ok(state),
            Err(error) => Err(error),
        }
    }

    fn compare_and_swap(
        &mut self,
        app_id: &str,
        expected_revision: u64,
        next: DurableControlState,
    ) -> (r: Result<DurableControlState, ControlPlaneError>)
    {
        let current = self.load(app_id)?;
        match swap(&current, app_id, expected_revision, next) {
            Ok(state) => {
                self.state = Some(state.clone());
                Ok(state)
            },
            Err(error) => Err(error),
        }
    }
}

/// A swap records exactly what it was offered, under the next revision, where the offered state is valid
/// for its App and nobody committed since the expected revision; else it records nothing. An App that
/// never ran has a valid state without a route, at revision zero.
pub proof fn a_swap_records_what_it_was_offered(current: StateView, app_id: Seq<char>, expected: u64, next: StateView)
    requires
        current.valid(app_id),
    ensures
        swapped(current, app_id, expected, next) is Ok <==> current.revision == expected && expected < u64::MAX && next.valid(app_id),
        swapped(current, app_id, expected, next) matches Ok(state) ==> {
            &&& state.revision == expected + 1
            &&& state.generations == next.generations
            &&& state.active_generation_spec_digest == next.active_generation_spec_digest
            &&& state.routing_epoch == next.routing_epoch
            &&& state.supervisor_epoch == next.supervisor_epoch
            &&& state.host_suspended == next.host_suspended
            &&& state.app_id == app_id
        },
        held(None, app_id).valid(app_id),
        held(None, app_id).generations.len() == 0,
        held(None, app_id).active_generation_spec_digest is None,
        held(None, app_id).revision == 0,
        held(Some(current), app_id) == current,
{
    let shown = next.committed(expected);
    assert(shown.generations == next.generations);
    if next.active_generation_spec_digest is Some {
        let active = next.active_generation_spec_digest->Some_0;
        assert(shown.has(active) == next.has(active) && shown.record(active) == next.record(active));
    }
}


/// A state is valid exactly where it is of the known schema and of its App, names each Generation once,
/// and routes to the one Generation whose record is Active, or to none where no record is.
pub proof fn a_valid_state_routes_to_its_active_record(state: StateView, app_id: Seq<char>)
    ensures
        state.valid(app_id) <==> {
            &&& state.schema_version == 1
            &&& state.app_id == app_id
            &&& forall|i: int, j: int|
                0 <= i < j < state.generations.len() ==> (#[trigger] state.generations[i]).generation_spec_digest != (
                #[trigger] state.generations[j]).generation_spec_digest
            &&& forall|i: int|
                0 <= i < state.generations.len() ==> ((#[trigger] state.generations[i]).lifecycle == ControlLifecycle::Active
                    <==> state.active_generation_spec_digest == Some(state.generations[i].generation_spec_digest))
            &&& state.active_generation_spec_digest matches Some(active) ==> exists|i: int|
                0 <= i < state.generations.len() && (#[trigger] state.generations[i]).generation_spec_digest == active
        },
{
    if state.unique() {
        assert forall|i: int| 0 <= i < state.generations.len() implies state.has(#[trigger] state.generations[i].generation_spec_digest)
            && state.record(state.generations[i].generation_spec_digest) == state.generations[i] by {
            state.found(i);
        }
        if let Some(active) = state.active_generation_spec_digest {
            if exists|i: int| 0 <= i < state.generations.len() && (#[trigger] state.generations[i]).generation_spec_digest == active {
                let i = choose|i: int| 0 <= i < state.generations.len() && (#[trigger] state.generations[i]).generation_spec_digest == active;
                state.found(i);
            }
        }
    }
}

/// A state that was never recorded is empty: it is at its first revision and routes nowhere.
pub proof fn an_app_begins_with_nothing(app_id: Seq<char>)
    ensures
        held(None, app_id).valid(app_id),
        held(None, app_id).generations.len() == 0,
        held(None, app_id).active_generation_spec_digest is None,
        held(None, app_id).revision == 0,
        held(None, app_id).supervisor_epoch == 0,
        held(None, app_id).routing_epoch == 0,
        !held(None, app_id).host_suspended,
{
}
} // verus!
