//! Timers and jitter of the Runtime Driver for the browser's event loop.
use vstd::prelude::*;

verus! {

/// The longest delay, in milliseconds, that the browser's timer takes.
pub const MAX_DELAY_MILLIS: u32 = 2_147_483_647;

/// Nanoseconds in a millisecond.
pub const NANOS_PER_MILLI: u128 = 1_000_000;

/// The delay that a timer is armed with: what is left until the deadline, in whole milliseconds and at
/// most what the browser takes.
pub open spec fn delay(wait_for_turn: bool, deadline: u128, now: u128) -> int {
    if wait_for_turn || deadline <= now {
        0
    } else if (deadline - now) / 1_000_000 > 2_147_483_647 {
        2_147_483_647
    } else {
        (deadline - now) / 1_000_000
    }
}

/// What a timer asks of the browser when it is polled.
#[derive(Clone, Copy, Debug, PartialEq, Eq, Structural)]
pub enum TimerStep {
    /// Cancel what is armed: the timer is done.
    Finish,
    /// Arm a timer with a delay in milliseconds, and wait for it.
    Arm(u32),
    /// Wait for the timer that is armed.
    Wait,
}

/// A timer on the browser's event loop; its deadline is in nanoseconds.
#[derive(Clone, Copy, Debug, PartialEq, Eq, Structural)]
pub struct BrowserTimer {
    pub deadline: u128,
    /// The timer waits for one turn of the loop, whatever the time.
    pub wait_for_turn: bool,
    pub armed: bool,
}

impl BrowserTimer {
    /// A timer for a deadline.
    pub fn new(deadline: u128) -> (r: Self)
        ensures
            r == (BrowserTimer { deadline, wait_for_turn: false, armed: false }),
    {
        BrowserTimer { deadline, wait_for_turn: false, armed: false }
    }

    /// A timer for the next turn of the loop.
    pub fn next_turn() -> (r: Self)
        ensures
            r == (BrowserTimer { deadline: 0, wait_for_turn: true, armed: false }),
    {
        BrowserTimer { deadline: 0, wait_for_turn: true, armed: false }
    }

    /// Decides what to do when the timer is polled at a time.
    pub fn poll(&mut self, now: u128) -> (r: TimerStep)
        ensures
            polled(*old(self), now, *final(self), r),
    {
        if !self.wait_for_turn && self.deadline <= now {
            self.armed = false;
            return TimerStep::Finish;
        }
        if self.armed {
            return TimerStep::Wait;
        }
        self.armed = true;
        if self.wait_for_turn {
            return TimerStep::Arm(0);
        }
        let millis: u128 = (self.deadline - now) / NANOS_PER_MILLI;
        if millis > MAX_DELAY_MILLIS as u128 {
            TimerStep::Arm(MAX_DELAY_MILLIS)
        } else {
            TimerStep::Arm(millis as u32)
        }
    }

    /// Notes that the armed timer fired; tells whether the timer is done.
    pub fn fired(&mut self) -> (r: bool)
        ensures
            r == old(self).wait_for_turn,
            *final(self) == (BrowserTimer { armed: false, ..*old(self) }),
    {
        self.armed = false;
        self.wait_for_turn
    }
}

/// What polling a timer at a time comes to.
pub open spec fn polled(before: BrowserTimer, now: u128, after: BrowserTimer, r: TimerStep) -> bool {
    &&& r == if !before.wait_for_turn && before.deadline <= now {
        TimerStep::Finish
    } else if before.armed {
        TimerStep::Wait
    } else {
        TimerStep::Arm(delay(before.wait_for_turn, before.deadline, now) as u32)
    }
    &&& after == (BrowserTimer { armed: !(r is Finish), ..before })
}

/// A timer is done when it is polled at or after its deadline and not before; a timer for the next turn
/// is never done by the time. Until then exactly one timer of the browser is armed for it, with a delay
/// that ends by the deadline and, as far as the browser takes it, less than a millisecond before.
pub proof fn a_timer_ends_at_its_deadline(before: BrowserTimer, now: u128, after: BrowserTimer, r: TimerStep)
    requires
        polled(before, now, after, r),
    ensures
        r is Finish <==> !before.wait_for_turn && now >= before.deadline,
        after.armed == !(r is Finish),
        after.deadline == before.deadline,
        after.wait_for_turn == before.wait_for_turn,
        before.armed && !(r is Finish) ==> r is Wait,
        !before.armed && !(r is Finish) ==> r is Arm,
        r matches TimerStep::Arm(millis) ==> {
            &&& before.wait_for_turn ==> millis == 0
            &&& !before.wait_for_turn ==> now + millis * 1_000_000 <= before.deadline
            &&& !before.wait_for_turn && millis < 2_147_483_647 ==> before.deadline < now + (millis + 1) * 1_000_000
        },
{
}

/// A sleep is over at once when its deadline is not in the future.
pub fn is_due(deadline: u128, now: u128) -> (r: bool)
    ensures
        r == (deadline <= now),
{
    deadline <= now
}

/// A timer never waits beyond its deadline: the delay that it is armed with ends by then.
pub proof fn delay_ends_by_the_deadline(deadline: u128, now: u128)
    requires
        now < deadline,
    ensures
        0 <= delay(false, deadline, now) <= 2_147_483_647,
        now + delay(false, deadline, now) * 1_000_000 <= deadline,
{
}

/// The number behind a state of the jitter.
pub open spec fn next_state(state: u64) -> u64 {
    ((state * 6_364_136_223_846_793_005 + 1_442_695_040_888_963_407) % 0x1_0000_0000_0000_0000) as u64
}

/// The jitter that a number gives: at most the maximum, in nanoseconds.
pub open spec fn jitter_of(number: u64, maximum: u128) -> u64 {
    if maximum > u64::MAX {
        number
    } else {
        (number as int % (maximum + 1)) as u64
    }
}

/// The state from which a Driver draws its jitter.
#[derive(Clone, Copy, Debug, PartialEq, Eq, Structural)]
pub struct Jitter {
    pub state: u64,
}

impl Jitter {
    /// The first state of a Driver, from the bits of its starting time.
    pub fn seeded(bits: u64) -> (r: Self)
        ensures
            r.state == bits ^ 0x9e37_79b9_7f4a_7c15,
    {
        Jitter { state: bits ^ 0x9e37_79b9_7f4a_7c15 }
    }

    /// Draws a jitter of at most a maximum, in nanoseconds.
    pub fn draw(&mut self, maximum: u128) -> (r: u64)
        ensures
            maximum == 0 ==> r == 0 && *final(self) == *old(self),
            maximum > 0 ==> final(self).state == next_state(old(self).state) && r == jitter_of(next_state(old(self).state), maximum),
    {
        if maximum == 0 {
            return 0;
        }
        let product: u64 = self.state.wrapping_mul(6_364_136_223_846_793_005);
        let next: u64 = product.wrapping_add(1_442_695_040_888_963_407);
        proof {
            wrapped_twice(self.state as int);
        }
        self.state = next;
        if maximum > u64::MAX as u128 {
            return next;
        }
        let bound: u128 = maximum + 1;
        let jitter: u128 = (next as u128) % bound;
        jitter as u64
    }
}

proof fn wrapped_twice(state: int)
    requires
        0 <= state,
    ensures
        ((state * 6_364_136_223_846_793_005) % 0x1_0000_0000_0000_0000 + 1_442_695_040_888_963_407) % 0x1_0000_0000_0000_0000 == (state
            * 6_364_136_223_846_793_005 + 1_442_695_040_888_963_407) % 0x1_0000_0000_0000_0000,
{
    let a = state * 6_364_136_223_846_793_005;
    let b = 1_442_695_040_888_963_407int;
    let m = 0x1_0000_0000_0000_0000int;
    vstd::arithmetic::div_mod::lemma_add_mod_noop(a, b, m);
    vstd::arithmetic::div_mod::lemma_add_mod_noop(a % m, b, m);
    vstd::arithmetic::div_mod::lemma_mod_twice(a, m);
}

/// A jitter is at most its maximum.
pub proof fn jitter_is_bounded(number: u64, maximum: u128)
    ensures
        jitter_of(number, maximum) <= maximum,
{
}

/// Every jitter up to the maximum comes up: a number within it is its own jitter, and the numbers go
/// round by one more than the maximum.
pub proof fn every_jitter_comes_up(number: u64, maximum: u128, later: u64)
    ensures
        number <= maximum ==> jitter_of(number, maximum) == number,
        maximum <= u64::MAX && later == number + maximum + 1 ==> jitter_of(later, maximum) == jitter_of(number, maximum),
{
    if maximum <= u64::MAX {
        let m = maximum + 1;
        if number <= maximum {
            vstd::arithmetic::div_mod::lemma_small_mod(number as nat, m as nat);
        }
        if later == number + maximum + 1 {
            vstd::arithmetic::div_mod::lemma_mod_add_multiples_vanish(number as int, m as int);
        }
    }
}


/// A timer is armed with no more than is left until its deadline, and with less by under a millisecond,
/// unless the browser takes no longer delay. One whose deadline has come, or that only waits for its
/// turn, is armed with nothing.
pub proof fn a_timer_is_armed_with_what_is_left(wait_for_turn: bool, deadline: u128, now: u128)
    ensures
        0 <= delay(wait_for_turn, deadline, now) <= 2147483647,
        wait_for_turn || deadline <= now ==> delay(wait_for_turn, deadline, now) == 0,
        !wait_for_turn && deadline > now ==> delay(wait_for_turn, deadline, now) * 1000000 <= deadline - now,
        !wait_for_turn && deadline > now && delay(wait_for_turn, deadline, now) < 2147483647 ==> deadline - now < (delay(
            wait_for_turn,
            deadline,
            now,
        ) + 1) * 1000000,
{
}
} // verus!
