//! Suspension of a Host: every Generation is stopped while its durable authority stays.
use vstd::prelude::*;
use vstd::string::*;

use super::{attempted, failure, DurableGenerationSupervisor, LiveSlot};
use crate::durable::{ControlStateStore, DurableControlState, StateView};
use crate::error::{rejected, rejection, ControlPlaneError, ErrorView};
use crate::lifecycle::{live, nanos, parse_nanos, suspended};
use crate::text;
use crate::text::{parsed, texts};

verus! {

/// One Generation that suspension stops.
#[derive(Debug)]
pub struct SuspendedSlot<H> {
    pub generation_spec_digest: String,
    pub handle: H,
    pub drain_timeout_nanos: u64,
}

/// Some route is still pinned.
pub open spec fn any_leased<H>(slots: Seq<(Seq<char>, LiveSlot<H>)>) -> bool {
    exists|i: int| 0 <= i < slots.len() && (#[trigger] slots[i]).1.leases != 0
}

/// The drain timeouts of the Generations in order; the first unreadable one is named.
pub open spec fn drain_timeouts<H>(state: StateView, slots: Seq<(Seq<char>, LiveSlot<H>)>) -> Result<Seq<nat>, Seq<char>>
    decreases slots.len(),
{
    if slots.len() == 0 {
        Ok(Seq::empty())
    } else {
        match drain_timeouts(state, slots.drop_last()) {
            Err(detail) => Err(detail),
            Ok(done) => match nanos(state.record(slots.last().0).drain_timeout_nanos, "drain timeout"@) {
                Err(detail) => Err(detail),
                Ok(timeout) => Ok(done.push(timeout)),
            },
        }
    }
}

/// The Generations that are to be stopped, each with its resources and its timeout.
pub open spec fn handed_out<H>(slots: Seq<(Seq<char>, LiveSlot<H>)>, timeouts: Seq<nat>, r: Seq<SuspendedSlot<H>>) -> bool {
    &&& r.len() == slots.len()
    &&& forall|i: int| 0 <= i < r.len() ==> (#[trigger] r[i]).generation_spec_digest@ == slots[i].0 && r[i].handle == slots[i].1.handle
        && r[i].drain_timeout_nanos == timeouts[i]
}

/// Texts joined by a separator.
pub open spec fn joined(items: Seq<Seq<char>>, separator: Seq<char>) -> Seq<char>
    decreases items.len(),
{
    if items.len() == 0 {
        Seq::empty()
    } else if items.len() == 1 {
        items[0]
    } else {
        joined(items.drop_last(), separator) + separator + items.last()
    }
}

/// Joins texts by a separator.
pub fn join(items: &Vec<String>, separator: &str) -> (r: String)
    ensures
        r@ == joined(texts(items@), separator@),
{
    let ghost all = texts(items@);
    let mut r = String::new();
    let mut i: usize = 0;
    assert(all.take(0) =~= Seq::empty());
    while i < items.len()
        invariant
            i <= items.len(),
            all == texts(items@),
            r@ == joined(all.take(i as int), separator@),
        decreases items.len() - i,
    {
        proof {
            let part = all.take(i + 1);
            assert(part.drop_last() =~= all.take(i as int));
            assert(part.last() == items@[i as int]@);
        }
        if i > 0 {
            r.append(separator);
        } else {
            assert(r@ =~= Seq::empty());
            assert(r@ + items@[i as int]@ =~= items@[i as int]@);
        }
        r.append(items[i].as_str());
        i = i + 1;
    }
    assert(all.take(i as int) =~= all);
    r
}

/// The failure of a suspension that outlived its deadline.
pub open spec fn unconfirmed_detail(phase: Seq<char>) -> Seq<char> {
    "Host suspension deadline exceeded while "@ + phase
        + "; execution termination is unconfirmed; native process ownership must settle execution before recovery"@
}

/// The failure of a suspension that outlived its deadline.
pub fn unconfirmed(phase: &str) -> (r: ControlPlaneError)
    ensures
        r@ == (ErrorView::HostFailure { detail: unconfirmed_detail(phase@) }),
{
    ControlPlaneError::HostFailure {
        detail: text::around(
            "Host suspension deadline exceeded while ",
            phase,
            "; execution termination is unconfirmed; native process ownership must settle execution before recovery",
        ),
    }
}

/// What beginning a suspension comes to.
pub open spec fn suspension_begun<H>(
    state: StateView,
    order: Seq<(Seq<char>, LiveSlot<H>)>,
    slots: Map<Seq<char>, LiveSlot<H>>,
    slots_after: Map<Seq<char>, LiveSlot<H>>,
    r: Result<Vec<SuspendedSlot<H>>, ControlPlaneError>,
) -> bool {
    if any_leased(order) {
        slots_after == slots && failure(r) == Some(rejection("cannot suspend Host while a Generation lease is active"@))
    } else {
        match drain_timeouts(state, order) {
            Err(detail) => slots_after == slots && failure(r) == Some(rejection(detail)),
            Ok(timeouts) => slots_after == Map::<Seq<char>, LiveSlot<H>>::empty() && (r matches Ok(live) && handed_out(order, timeouts, live@)),
        }
    }
}

/// Why a suspension under a deadline is not recorded as clean.
pub open spec fn unclean(faults: Seq<Seq<char>>, expired: bool) -> Option<Seq<char>> {
    if faults.len() > 0 {
        Some("Host suspension failed; no clean suspension recorded: "@ + joined(faults, "; "@))
    } else if expired {
        Some(unconfirmed_detail("before persisting suspension"@))
    } else {
        None
    }
}

/// A suspension was recorded, unless something kept it from being clean.
pub open spec fn suspension_recorded<S: ControlStateStore>(
    store: S,
    store_after: S,
    app: Seq<char>,
    before: StateView,
    obstacle: Option<Seq<char>>,
    after: StateView,
    r: Result<DurableControlState, ControlPlaneError>,
) -> bool {
    match obstacle {
        Some(detail) => store_after == store && after == before && failure(r) == Some(ErrorView::HostFailure { detail }),
        None => attempted(store, store_after, app, before, Ok(suspended(before)), after, failure(r)) && (r matches Ok(state) ==> state@ == after),
    }
}

/// What the next step of a suspension under a deadline comes to, given the time that is left.
pub open spec fn suspension_stepped<H>(
    order: Seq<(Seq<char>, LiveSlot<H>)>,
    slots: Map<Seq<char>, LiveSlot<H>>,
    remaining_nanos: u128,
    order_after: Seq<(Seq<char>, LiveSlot<H>)>,
    slots_after: Map<Seq<char>, LiveSlot<H>>,
    r: SuspensionStep<H>,
) -> bool {
    if order.len() == 0 {
        slots_after == slots && r == SuspensionStep::<H>::AllStopped
    } else if remaining_nanos == 0 {
        slots_after == slots && (r matches SuspensionStep::Unconfirmed(error) && error@ == (ErrorView::HostFailure {
            detail: unconfirmed_detail("stopping Generations"@),
        }))
    } else {
        let first = order[0];
        slots_after == slots.remove(first.0) && order_after == order.drop_first() && (r matches SuspensionStep::Stop {
            generation_spec_digest,
            handle,
            budget_nanos,
        } && generation_spec_digest@ == first.0 && handle == first.1.handle && budget_nanos == (if remaining_nanos <= u64::MAX {
            remaining_nanos as int
        } else {
            u64::MAX as int
        }))
    }
}

/// A Host is suspended only while no route is pinned. Then every Generation is handed out to be stopped,
/// once, with its own resources and the time that its record allows; else none is.
pub proof fn a_suspension_stops_every_generation<H>(
    state: StateView,
    order: Seq<(Seq<char>, LiveSlot<H>)>,
    slots: Map<Seq<char>, LiveSlot<H>>,
    slots_after: Map<Seq<char>, LiveSlot<H>>,
    r: Result<Vec<SuspendedSlot<H>>, ControlPlaneError>,
    i: int,
)
    requires
        suspension_begun(state, order, slots, slots_after, r),
        0 <= i < order.len(),
    ensures
        order[i].1.leases > 0 ==> r is Err,
        parsed(state.record(order[i].0).drain_timeout_nanos, u64::MAX as nat) is None ==> r is Err,
        r is Err ==> slots_after == slots,
        r matches Ok(live) ==> {
            &&& live@.len() == order.len()
            &&& live@[i].generation_spec_digest@ == order[i].0
            &&& live@[i].handle == order[i].1.handle
            &&& parsed(state.record(order[i].0).drain_timeout_nanos, u64::MAX as nat) == Some(live@[i].drain_timeout_nanos as nat)
            &&& slots_after.dom() =~= Set::empty()
        },
        (forall|k: int|
            0 <= k < order.len() ==> (#[trigger] order[k]).1.leases == 0 && parsed(state.record(order[k].0).drain_timeout_nanos, u64::MAX as nat) is Some)
            ==> r is Ok,
{
    lemma_timeouts_each(state, order, i);
    if forall|k: int|
        0 <= k < order.len() ==> (#[trigger] order[k]).1.leases == 0 && parsed(state.record(order[k].0).drain_timeout_nanos, u64::MAX as nat) is Some {
        lemma_timeouts_all(state, order);
    }
}

proof fn lemma_timeouts_each<H>(state: StateView, slots: Seq<(Seq<char>, LiveSlot<H>)>, i: int)
    requires
        0 <= i < slots.len(),
    ensures
        drain_timeouts(state, slots) matches Ok(timeouts) ==> timeouts.len() == slots.len() && parsed(
            state.record(slots[i].0).drain_timeout_nanos,
            u64::MAX as nat,
        ) == Some(timeouts[i]),
    decreases slots.len(),
{
    if i < slots.len() - 1 {
        lemma_timeouts_each(state, slots.drop_last(), i);
    } else if slots.len() > 1 {
        lemma_timeouts_each(state, slots.drop_last(), 0);
    }
}

proof fn lemma_timeouts_all<H>(state: StateView, slots: Seq<(Seq<char>, LiveSlot<H>)>)
    requires
        forall|k: int| 0 <= k < slots.len() ==> parsed(state.record((#[trigger] slots[k]).0).drain_timeout_nanos, u64::MAX as nat) is Some,
    ensures
        drain_timeouts(state, slots) is Ok,
    decreases slots.len(),
{
    if slots.len() > 0 {
        assert forall|k: int| 0 <= k < slots.drop_last().len() implies parsed(
            state.record((#[trigger] slots.drop_last()[k]).0).drain_timeout_nanos,
            u64::MAX as nat,
        ) is Some by {
            assert(slots.drop_last()[k] == slots[k]);
        }
        lemma_timeouts_all(state, slots.drop_last());
        assert(slots[slots.len() - 1] == slots.last());
    }
}

/// A suspension counts as clean only where nothing went wrong and its time was not over: only then does
/// the state say that the Host is suspended, and it says nothing else that is new.
pub proof fn only_a_clean_suspension_is_recorded<S: ControlStateStore>(
    store: S,
    store_after: S,
    app: Seq<char>,
    before: StateView,
    faults: Seq<Seq<char>>,
    expired: bool,
    after: StateView,
    r: Result<DurableControlState, ControlPlaneError>,
)
    requires
        suspension_recorded(store, store_after, app, before, unclean(faults, expired), after, r),
    ensures
        faults.len() > 0 || expired ==> r is Err && after == before && store_after == store,
        r matches Ok(state) ==> {
            &&& faults.len() == 0 && !expired
            &&& state@ == after
            &&& after.host_suspended
            &&& after.generations == before.generations
            &&& after.active_generation_spec_digest == before.active_generation_spec_digest
            &&& after.routing_epoch == before.routing_epoch
            &&& after.supervisor_epoch == before.supervisor_epoch
            &&& after.revision == before.revision + 1
        },
        r is Err ==> after == before,
{
}

/// Under a deadline each Generation is stopped within the time that is left and none is skipped; with no
/// time left nothing more is stopped and the end is left unconfirmed. It says that all are stopped only
/// where none is left.
pub proof fn a_suspension_keeps_its_deadline<H>(
    order: Seq<(Seq<char>, LiveSlot<H>)>,
    slots: Map<Seq<char>, LiveSlot<H>>,
    remaining_nanos: u128,
    order_after: Seq<(Seq<char>, LiveSlot<H>)>,
    slots_after: Map<Seq<char>, LiveSlot<H>>,
    r: SuspensionStep<H>,
)
    requires
        suspension_stepped(order, slots, remaining_nanos, order_after, slots_after, r),
    ensures
        r is AllStopped <==> order.len() == 0,
        r is Unconfirmed <==> order.len() > 0 && remaining_nanos == 0,
        r matches SuspensionStep::Stop { generation_spec_digest, handle, budget_nanos } ==> {
            &&& order.len() > 0
            &&& generation_spec_digest@ == order[0].0
            &&& handle == order[0].1.handle
            &&& 0 < budget_nanos <= remaining_nanos
            &&& remaining_nanos <= u64::MAX ==> budget_nanos == remaining_nanos
            &&& order_after == order.drop_first()
            &&& slots_after == slots.remove(order[0].0)
        },
        !(r is Stop) ==> slots_after == slots,
{
}

/// How stopping one Generation went.
#[derive(Debug)]
pub enum StopReport {
    Stopped,
    Failed(ControlPlaneError),
    TimedOut,
}

/// A suspension under one monotonic deadline.
#[derive(Debug)]
pub struct HostSuspension {
    failures: Vec<String>,
}

/// What a suspension needs next.
#[derive(Debug)]
pub enum SuspensionStep<H> {
    /// Stop the Generation within the budget.
    Stop { generation_spec_digest: String, handle: H, budget_nanos: u64 },
    /// Every Generation was stopped.
    AllStopped,
    /// The deadline passed first.
    Unconfirmed(ControlPlaneError),
}

impl HostSuspension {
    /// What went wrong so far.
    pub closed spec fn faults(self) -> Seq<Seq<char>> {
        texts(self.failures@)
    }

    /// A suspension in which nothing went wrong yet.
    pub fn new() -> (r: Self)
        ensures
            r.faults() == Seq::<Seq<char>>::empty(),
    {
        let r = HostSuspension { failures: Vec::new() };
        assert(r.faults() =~= Seq::empty());
        r
    }

    /// Notes that a Generation had already failed when it was taken out of service.
    pub fn note_failed(&mut self, digest: &str, failure: &ControlPlaneError)
        ensures
            final(self).faults() == old(self).faults().push("Generation `"@ + digest@ + "` failed: "@ + crate::error::shown(failure@)),
    {
        let mut detail = text::around("Generation `", digest, "` failed: ");
        detail.append(failure.message().as_str());
        let ghost before = self.faults();
        self.failures.push(detail);
        assert(self.faults() =~= before.push(detail@));
    }

    /// Notes how stopping a Generation went; one that did not end in time ends the suspension.
    pub fn note_stop(&mut self, digest: &str, report: StopReport) -> (r: Result<(), ControlPlaneError>)
        ensures
            match report {
                StopReport::Stopped => r is Ok && final(self).faults() == old(self).faults(),
                StopReport::Failed(error) => r is Ok && final(self).faults() == old(self).faults().push(
                    "Generation `"@ + digest@ + "` cleanup: "@ + crate::error::shown(error@),
                ),
                StopReport::TimedOut => failure(r) == Some(
                    ErrorView::HostFailure { detail: unconfirmed_detail("stopping Generations"@) },
                ) && final(self).faults() == old(self).faults(),
            },
    {
        match report {
            StopReport::Stopped => Ok(()),
            StopReport::Failed(error) => {
                let mut detail = text::around("Generation `", digest, "` cleanup: ");
                detail.append(error.message().as_str());
                let ghost before = self.faults();
                self.failures.push(detail);
                assert(self.faults() =~= before.push(detail@));
                Ok(())
            },
            StopReport::TimedOut => Err(unconfirmed("stopping Generations")),
        }
    }
}

impl<H, S: ControlStateStore> DurableGenerationSupervisor<H, S> {
    /// Whether some route is still pinned.
    pub fn has_leases(&self) -> (r: bool)
        ensures
            r == any_leased(self.slot_order()),
    {
        let mut i: usize = 0;
        while i < self.slots.len()
            invariant
                i <= self.slots.entries().len(),
                forall|k: int| 0 <= k < i ==> (#[trigger] self.slots.entries()[k]).1.leases == 0,
            decreases self.slots.entries().len() - i,
        {
            if self.slots.value_at(i).leases != 0 {
                assert(self.slot_order()[i as int].1.leases != 0);
                return true;
            }
            i = i + 1;
        }
        assert(!any_leased(self.slot_order()));
        false
    }

    /// Begins to stop this Host incarnation: hands out the resources of every Generation.
    pub fn begin_suspension(&mut self) -> (r: Result<Vec<SuspendedSlot<H>>, ControlPlaneError>)
        requires
            old(self).inv(),
        ensures
            final(self).inv(),
            final(self).app() == old(self).app(),
            final(self).backend() == old(self).backend(),
            final(self).current() == old(self).current(),
            suspension_begun(old(self).current(), old(self).slot_order(), old(self).slots(), final(self).slots(), r),
    {
        if self.has_leases() {
            return Err(rejected("cannot suspend Host while a Generation lease is active"));
        }
        let ghost order = self.slots.entries();
        let mut timeouts: Vec<u64> = Vec::new();
        let mut i: usize = 0;
        assert(order.take(0) =~= Seq::empty());
        assert(timeouts@.map_values(|t: u64| t as nat) =~= Seq::empty());
        while i < self.slots.len()
            invariant
                self.inv(),
                self.backend() == old(self).backend(),
                self.current() == old(self).current(),
                self.slots() == old(self).slots(),
                self.app() == old(self).app(),
                order == self.slots.entries(),
                order == old(self).slot_order(),
                !any_leased(order),
                i <= order.len(),
                timeouts@.len() == i,
                drain_timeouts(self.state@, order.take(i as int)) == Ok::<Seq<nat>, Seq<char>>(timeouts@.map_values(|t: u64| t as nat)),
            decreases order.len() - i,
        {
            let digest = self.slots.key_at(i);
            proof {
                self.slots.unique_position(i as int);
                assert(self.slots.map().dom().contains(digest@));
                let part = order.take(i + 1);
                assert(part.drop_last() =~= order.take(i as int));
                assert(part.last().0 == digest@);
            }
            let ghost before = timeouts@;
            match self.state.find(digest) {
                Some(p) => match parse_nanos(self.state.generations[p].drain_timeout_nanos.as_str(), "drain timeout") {
                    Ok(timeout) => {
                        timeouts.push(timeout);
                        assert(timeouts@.map_values(|t: u64| t as nat) =~= before.map_values(|t: u64| t as nat).push(timeout as nat));
                    },
                    Err(error) => {
                        proof {
                            lemma_timeouts_fail(self.state@, order, i + 1);
                        }
                        return Err(error);
                    },
                },
                None => return Err(rejected("every live slot has one durable record")),
            }
            i = i + 1;
        }
        assert(order.take(i as int) =~= order);
        let ghost all = timeouts@.map_values(|t: u64| t as nat);
        let mut live: Vec<SuspendedSlot<H>> = Vec::new();
        let mut n: usize = 0;
        while n < timeouts.len()
            invariant
                self.inv(),
                self.backend() == old(self).backend(),
                self.current() == old(self).current(),
                self.app() == old(self).app(),
                order == old(self).slot_order(),
                n <= order.len(),
                n == live@.len(),
                timeouts@.len() == order.len(),
                all == timeouts@.map_values(|t: u64| t as nat),
                self.slots.entries() == order.skip(n as int),
                forall|k: int| 0 <= k < n ==> (#[trigger] live@[k]).generation_spec_digest@ == order[k].0 && live@[k].handle == order[k].1.handle
                    && live@[k].drain_timeout_nanos == all[k],
            decreases order.len() - n,
        {
            let (digest, slot) = self.take_first();
            live.push(SuspendedSlot { generation_spec_digest: digest, handle: slot.handle, drain_timeout_nanos: timeouts[n] });
            assert(order.skip(n as int).drop_first() =~= order.skip(n + 1));
            n = n + 1;
        }
        proof {
            assert(self.slots.map() =~= Map::empty());
        }
        Ok(live)
    }

    /// Removes the first Generation in the order of digests.
    fn take_first(&mut self) -> (r: (String, LiveSlot<H>))
        requires
            old(self).inv(),
            old(self).slot_order().len() > 0,
        ensures
            final(self).inv(),
            final(self).app() == old(self).app(),
            final(self).backend() == old(self).backend(),
            final(self).current() == old(self).current(),
            final(self).slot_order() == old(self).slot_order().drop_first(),
            final(self).slots() == old(self).slots().remove(r.0@),
            r.0@ == old(self).slot_order()[0].0,
            r.1 == old(self).slot_order()[0].1,
    {
        let ghost before = self.slots;
        let digest = self.slots.key_at(0).to_owned();
        proof {
            before.unique_position(0);
        }
        let slot = self.slots.remove(digest.as_str()).unwrap();
        proof {
            assert(before.entries().remove(0) =~= before.entries().drop_first());
        }
        (digest, slot)
    }

    /// Records a suspension once every Generation was stopped without a failure.
    pub fn finish_suspension(&mut self, failures: &Vec<String>) -> (r: Result<DurableControlState, ControlPlaneError>)
        requires
            old(self).inv(),
        ensures
            final(self).inv(),
            final(self).app() == old(self).app(),
            final(self).slots() == old(self).slots(),
            suspension_recorded(
                old(self).backend(),
                final(self).backend(),
                old(self).app(),
                old(self).current(),
                if failures@.len() > 0 {
                    Some("Host suspension cleanup failed: "@ + joined(texts(failures@), "; "@))
                } else {
                    None
                },
                final(self).current(),
                r,
            ),
    {
        if failures.len() > 0 {
            let mut detail = "Host suspension cleanup failed: ".to_owned();
            detail.append(join(failures, "; ").as_str());
            return Err(ControlPlaneError::HostFailure { detail });
        }
        self.record_suspension()
    }

    /// Commits the suspended state.
    fn record_suspension(&mut self) -> (r: Result<DurableControlState, ControlPlaneError>)
        requires
            old(self).inv(),
        ensures
            final(self).inv(),
            final(self).app() == old(self).app(),
            final(self).slots() == old(self).slots(),
            attempted(
                old(self).backend(),
                final(self).backend(),
                old(self).app(),
                old(self).current(),
                Ok(suspended(old(self).current())),
                final(self).current(),
                failure(r),
            ),
            r matches Ok(state) ==> state@ == final(self).current(),
    {
        let next = self.state.suspend();
        proof {
            assert forall|other: Seq<char>| #[trigger] self.slots().dom().contains(other) implies next@.has(other) && live(next@.record(other).lifecycle) by {
                assert(self.slots.map().dom().contains(other));
                assert(next@.generations == self.state@.generations);
                assert(next@.position(other) == self.state@.position(other));
            }
        }
        match self.commit(next) {
            Ok(_) => Ok(self.state.clone()),
            Err(error) => Err(error),
        }
    }

    /// The next Generation that a suspension under a deadline stops, given the time that is left.
    pub fn next_suspension_step(&mut self, remaining_nanos: u128) -> (r: SuspensionStep<H>)
        requires
            old(self).inv(),
        ensures
            final(self).inv(),
            final(self).app() == old(self).app(),
            final(self).backend() == old(self).backend(),
            final(self).current() == old(self).current(),
            suspension_stepped(
                old(self).slot_order(),
                old(self).slots(),
                remaining_nanos,
                final(self).slot_order(),
                final(self).slots(),
                r,
            ),
    {
        if self.slots.is_empty() {
            return SuspensionStep::AllStopped;
        }
        if remaining_nanos == 0 {
            return SuspensionStep::Unconfirmed(unconfirmed("stopping Generations"));
        }
        let budget_nanos: u64 = if remaining_nanos <= u64::MAX as u128 {
            remaining_nanos as u64
        } else {
            u64::MAX
        };
        let (generation_spec_digest, slot) = self.take_first();
        SuspensionStep::Stop { generation_spec_digest, handle: slot.handle, budget_nanos }
    }

    /// Records a suspension under a deadline: only where nothing failed and time is left.
    pub fn finish_host_suspension(&mut self, suspension: HostSuspension, expired: bool) -> (r: Result<DurableControlState, ControlPlaneError>)
        requires
            old(self).inv(),
        ensures
            final(self).inv(),
            final(self).app() == old(self).app(),
            final(self).slots() == old(self).slots(),
            suspension_recorded(
                old(self).backend(),
                final(self).backend(),
                old(self).app(),
                old(self).current(),
                unclean(suspension.faults(), expired),
                final(self).current(),
                r,
            ),
    {
        if suspension.failures.len() > 0 {
            let mut detail = "Host suspension failed; no clean suspension recorded: ".to_owned();
            detail.append(join(&suspension.failures, "; ").as_str());
            return Err(ControlPlaneError::HostFailure { detail });
        }
        if expired {
            return Err(unconfirmed("before persisting suspension"));
        }
        self.record_suspension()
    }
}

proof fn lemma_timeouts_fail<H>(state: StateView, slots: Seq<(Seq<char>, LiveSlot<H>)>, n: int)
    requires
        0 <= n <= slots.len(),
        drain_timeouts(state, slots.take(n)) is Err,
    ensures
        drain_timeouts(state, slots) == drain_timeouts(state, slots.take(n)),
    decreases slots.len(),
{
    if n < slots.len() {
        assert(slots.drop_last().take(n) =~= slots.take(n));
        lemma_timeouts_fail(state, slots.drop_last(), n);
    } else {
        assert(slots.take(n) =~= slots);
    }
}

} // verus!
