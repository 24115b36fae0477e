//! The timer that decides, once per tick, whether to attempt a format cycle.
//!
//! Time is an unsigned count of whatever unit the caller ticks in
//! (milliseconds, say), read from a clock that does not run backwards. The
//! timer starts idle. Its first tick arms it with the deadline `now + delay`
//! and never attempts a cycle. An armed timer attempts a cycle on the first
//! tick at or after its deadline. What follows is a matter of policy, fixed
//! when the timer is made:
//!
//! * [`Rearm::EveryTick`]: the timer stays ready, and every later tick
//!   attempts a cycle again. An attempt that finds nothing new to load costs
//!   one scan of the table.
//! * [`Rearm::AfterDelay`]: the timer is armed anew with `now + delay`, so
//!   attempts are at least `delay` apart.

use vstd::prelude::*;

verus! {

/// The delay between cycle attempts that goes with the standard table, for
/// a caller that ticks in milliseconds: three seconds.
pub const SWAP_DELAY_MILLIS: u64 = 3000;

/// What the timer does once it has fired.
#[derive(Clone, Copy, Debug, PartialEq, Eq, Structural)]
pub enum Rearm {
    /// Stay ready: attempt a cycle on every later tick.
    EveryTick,
    /// Wait for a full delay, counted from the tick that fired.
    AfterDelay,
}

/// The three phases of the timer, without the deadline.
#[derive(Clone, Copy, Debug, PartialEq, Eq, Structural)]
pub enum Phase {
    Idle,
    Armed,
    JustFired,
}

/// The state of the timer in specifications.
pub enum TimerState {
    /// No tick seen yet.
    Idle,
    /// Waiting for a tick at or after `deadline`.
    Armed { deadline: int },
    /// Fired, and ready to fire again on any tick.
    JustFired,
}

/// A timer in specifications: its two settings and its state.
pub struct TimerView {
    pub delay: int,
    pub rearm: Rearm,
    pub state: TimerState,
}

/// Whether a tick at `now` attempts a cycle, for a timer in `state`.
pub open spec fn fires(state: TimerState, now: int) -> bool {
    match state {
        TimerState::Idle => false,
        TimerState::Armed { deadline } => now >= deadline,
        TimerState::JustFired => true,
    }
}

/// The state that firing at `now` leaves behind.
pub open spec fn after_firing(rearm: Rearm, delay: int, now: int) -> TimerState {
    match rearm {
        Rearm::EveryTick => TimerState::JustFired,
        Rearm::AfterDelay => TimerState::Armed { deadline: now + delay },
    }
}

/// The state after a tick at `now`.
pub open spec fn next_state(state: TimerState, rearm: Rearm, delay: int, now: int) -> TimerState {
    match state {
        TimerState::Idle => TimerState::Armed { deadline: now + delay },
        TimerState::Armed { deadline } => if now < deadline {
            state
        } else {
            after_firing(rearm, delay, now)
        },
        TimerState::JustFired => after_firing(rearm, delay, now),
    }
}

/// The state of a timer that started idle and has seen the ticks `ticks`,
/// oldest first.
pub open spec fn state_after(rearm: Rearm, delay: int, ticks: Seq<int>) -> TimerState
    decreases ticks.len(),
{
    if ticks.len() == 0 {
        TimerState::Idle
    } else {
        next_state(state_after(rearm, delay, ticks.drop_last()), rearm, delay, ticks.last())
    }
}

/// Whether tick `i` of the run `ticks`, on a timer that started idle,
/// attempts a cycle.
pub open spec fn attempt_at(rearm: Rearm, delay: int, ticks: Seq<int>, i: int) -> bool {
    fires(state_after(rearm, delay, ticks.take(i)), ticks[i])
}

/// Whether the clock that produced `ticks` never ran backwards.
pub open spec fn non_decreasing(ticks: Seq<int>) -> bool {
    forall|i: int, j: int| 0 <= i <= j < ticks.len() ==> ticks[i] <= ticks[j]
}

enum Stage {
    Idle,
    Armed { since: u64 },
    JustFired,
}

/// The swap timer. An armed timer remembers the tick that armed it, so its
/// deadline, `since + delay`, needs no machine integer to fit in.
pub struct SwapTimer {
    delay: u64,
    rearm: Rearm,
    stage: Stage,
}

impl View for SwapTimer {
    type V = TimerView;

    closed spec fn view(&self) -> TimerView {
        TimerView {
            delay: self.delay as int,
            rearm: self.rearm,
            state: match self.stage {
                Stage::Idle => TimerState::Idle,
                Stage::Armed { since } => TimerState::Armed { deadline: since + self.delay },
                Stage::JustFired => TimerState::JustFired,
            },
        }
    }
}

impl SwapTimer {
    /// An idle timer with the given delay and policy.
    pub fn new(delay: u64, rearm: Rearm) -> (r: SwapTimer)
        ensures
            r@ == (TimerView { delay: delay as int, rearm, state: TimerState::Idle }),
    {
        SwapTimer { delay, rearm, stage: Stage::Idle }
    }

    /// One tick at time `now`. Returns whether to attempt a cycle now.
    pub fn tick(&mut self, now: u64) -> (attempt: bool)
        ensures
            attempt == fires(old(self)@.state, now as int),
            final(self)@.state == next_state(
                old(self)@.state,
                old(self)@.rearm,
                old(self)@.delay,
                now as int,
            ),
            final(self)@.delay == old(self)@.delay,
            final(self)@.rearm == old(self)@.rearm,
        no_unwind
    {
        let attempt = match self.stage {
            Stage::Idle => false,
            Stage::Armed { since } => now >= since && now - since >= self.delay,
            Stage::JustFired => true,
        };
        match self.stage {
            Stage::Idle => {
                self.stage = Stage::Armed { since: now };
            },
            _ => {
                if attempt {
                    match self.rearm {
                        Rearm::EveryTick => {
                            self.stage = Stage::JustFired;
                        },
                        Rearm::AfterDelay => {
                            self.stage = Stage::Armed { since: now };
                        },
                    }
                }
            },
        }
        attempt
    }

    /// The delay between arming and the first attempt.
    pub fn delay(&self) -> (d: u64)
        ensures
            d == self@.delay,
    {
        self.delay
    }

    /// The policy the timer was made with.
    pub fn rearm(&self) -> (r: Rearm)
        ensures
            r == self@.rearm,
    {
        self.rearm
    }

    /// The phase the timer is in.
    pub fn phase(&self) -> (p: Phase)
        ensures
            p == match self@.state {
                TimerState::Idle => Phase::Idle,
                TimerState::Armed { .. } => Phase::Armed,
                TimerState::JustFired => Phase::JustFired,
            },
    {
        match self.stage {
            Stage::Idle => Phase::Idle,
            Stage::Armed { .. } => Phase::Armed,
            Stage::JustFired => Phase::JustFired,
        }
    }
}

/// The first tick of a run never attempts a cycle, whatever the time.
pub proof fn lemma_first_tick_arms(rearm: Rearm, delay: int, ticks: Seq<int>)
    requires
        ticks.len() > 0,
    ensures
        !attempt_at(rearm, delay, ticks, 0),
        state_after(rearm, delay, ticks.take(1)) == (TimerState::Armed {
            deadline: ticks[0] + delay,
        }),
{
    assert(ticks.take(1).drop_last() =~= ticks.take(0));
}

/// What holds of the state once the first tick has been seen: an armed
/// timer's deadline is not before `ticks[0] + delay`, and a timer can only
/// have fired when some tick after the first had reached that time.
spec fn armed_or_reached(state: TimerState, delay: int, ticks: Seq<int>, seen: int) -> bool {
    match state {
        TimerState::Idle => false,
        TimerState::Armed { deadline } => deadline >= ticks[0] + delay || exists|j: int|
            1 <= j < seen && #[trigger] ticks[j] >= ticks[0] + delay,
        TimerState::JustFired => exists|j: int|
            1 <= j < seen && #[trigger] ticks[j] >= ticks[0] + delay,
    }
}

proof fn lemma_run_invariant(rearm: Rearm, delay: int, ticks: Seq<int>, seen: int)
    requires
        1 <= seen <= ticks.len(),
    ensures
        armed_or_reached(state_after(rearm, delay, ticks.take(seen)), delay, ticks, seen),
    decreases seen,
{
    assert(ticks.take(seen).drop_last() =~= ticks.take(seen - 1));
    if seen == 1 {
        lemma_first_tick_arms(rearm, delay, ticks);
    } else {
        lemma_run_invariant(rearm, delay, ticks, seen - 1);
        let before = state_after(rearm, delay, ticks.take(seen - 1));
        let now = ticks[seen - 1];
        assert(ticks.take(seen).last() == now);
        if fires(before, now) {
            match before {
                TimerState::Armed { deadline } => {
                    if deadline >= ticks[0] + delay {
                        assert(ticks[seen - 1] >= ticks[0] + delay);
                    } else {
                        let j = choose|j: int|
                            1 <= j < seen - 1 && #[trigger] ticks[j] >= ticks[0] + delay;
                        assert(ticks[j] >= ticks[0] + delay);
                    }
                },
                _ => {
                    let j = choose|j: int|
                        1 <= j < seen - 1 && #[trigger] ticks[j] >= ticks[0] + delay;
                    assert(ticks[j] >= ticks[0] + delay);
                },
            }
        } else {
            match before {
                TimerState::Armed { deadline } => {
                    if deadline < ticks[0] + delay {
                        let j = choose|j: int|
                            1 <= j < seen - 1 && #[trigger] ticks[j] >= ticks[0] + delay;
                        assert(ticks[j] >= ticks[0] + delay);
                    }
                },
                _ => {},
            }
        }
    }
}

/// Timer arming: a tick attempts a cycle only once the time has reached
/// `ticks[0] + delay`. The attempting tick is not the first one, and it or
/// a tick between the first and it was at or after that time.
pub proof fn lemma_attempt_only_after_delay(rearm: Rearm, delay: int, ticks: Seq<int>, i: int)
    requires
        0 <= i < ticks.len(),
        attempt_at(rearm, delay, ticks, i),
    ensures
        i >= 1,
        exists|j: int| 1 <= j <= i && #[trigger] ticks[j] >= ticks[0] + delay,
{
    if i == 0 {
        lemma_first_tick_arms(rearm, delay, ticks);
    } else {
        lemma_run_invariant(rearm, delay, ticks, i);
        match state_after(rearm, delay, ticks.take(i)) {
            TimerState::Armed { deadline } => {
                if deadline >= ticks[0] + delay {
                    assert(ticks[i] >= ticks[0] + delay);
                } else {
                    let j = choose|j: int| 1 <= j < i && #[trigger] ticks[j] >= ticks[0] + delay;
                    assert(ticks[j] >= ticks[0] + delay);
                }
            },
            _ => {
                let j = choose|j: int| 1 <= j < i && #[trigger] ticks[j] >= ticks[0] + delay;
                assert(ticks[j] >= ticks[0] + delay);
            },
        }
    }
}

/// Timer arming on a clock that does not run backwards: the tick that
/// attempts a cycle is itself at or after `ticks[0] + delay`.
pub proof fn lemma_attempt_time(rearm: Rearm, delay: int, ticks: Seq<int>, i: int)
    requires
        0 <= i < ticks.len(),
        non_decreasing(ticks),
        attempt_at(rearm, delay, ticks, i),
    ensures
        i >= 1,
        ticks[i] >= ticks[0] + delay,
{
    lemma_attempt_only_after_delay(rearm, delay, ticks, i);
    let j = choose|j: int| 1 <= j <= i && #[trigger] ticks[j] >= ticks[0] + delay;
    assert(ticks[j] <= ticks[i]);
}

/// The first tick after the arming one that is at or after
/// `ticks[0] + delay` does attempt a cycle.
pub proof fn lemma_first_attempt(rearm: Rearm, delay: int, ticks: Seq<int>, i: int)
    requires
        1 <= i < ticks.len(),
        ticks[i] >= ticks[0] + delay,
        forall|j: int| 1 <= j < i ==> #[trigger] ticks[j] < ticks[0] + delay,
    ensures
        attempt_at(rearm, delay, ticks, i),
{
    lemma_still_armed(rearm, delay, ticks, i);
}

proof fn lemma_still_armed(rearm: Rearm, delay: int, ticks: Seq<int>, seen: int)
    requires
        1 <= seen <= ticks.len(),
        forall|j: int| 1 <= j < seen ==> #[trigger] ticks[j] < ticks[0] + delay,
    ensures
        state_after(rearm, delay, ticks.take(seen)) == (TimerState::Armed {
            deadline: ticks[0] + delay,
        }),
    decreases seen,
{
    assert(ticks.take(seen).drop_last() =~= ticks.take(seen - 1));
    if seen == 1 {
        lemma_first_tick_arms(rearm, delay, ticks);
    } else {
        lemma_still_armed(rearm, delay, ticks, seen - 1);
        assert(ticks.take(seen).last() == ticks[seen - 1]);
    }
}

/// With [`Rearm::EveryTick`], every tick after the first attempt attempts
/// a cycle too.
pub proof fn lemma_every_tick_stays_ready(delay: int, ticks: Seq<int>, i: int, k: int)
    requires
        0 <= i <= k < ticks.len(),
        attempt_at(Rearm::EveryTick, delay, ticks, i),
    ensures
        attempt_at(Rearm::EveryTick, delay, ticks, k),
    decreases k - i,
{
    if i < k {
        lemma_every_tick_stays_ready(delay, ticks, i, k - 1);
        assert(ticks.take(k).drop_last() =~= ticks.take(k - 1));
        assert(ticks.take(k).last() == ticks[k - 1]);
    }
}

/// With [`Rearm::AfterDelay`] and a delay that is not negative, two
/// attempts are at least `delay` apart on a clock that does not run
/// backwards.
pub proof fn lemma_after_delay_spaces_attempts(delay: int, ticks: Seq<int>, i: int, k: int)
    requires
        0 <= i < k < ticks.len(),
        0 <= delay,
        non_decreasing(ticks),
        attempt_at(Rearm::AfterDelay, delay, ticks, i),
        attempt_at(Rearm::AfterDelay, delay, ticks, k),
    ensures
        ticks[k] >= ticks[i] + delay,
{
    lemma_deadline_after_attempt(delay, ticks, i, k);
}

proof fn lemma_deadline_after_attempt(delay: int, ticks: Seq<int>, i: int, seen: int)
    requires
        0 <= i < seen <= ticks.len(),
        0 <= delay,
        non_decreasing(ticks),
        attempt_at(Rearm::AfterDelay, delay, ticks, i),
    ensures
        state_after(Rearm::AfterDelay, delay, ticks.take(seen)) matches TimerState::Armed {
            deadline,
        } && deadline >= ticks[i] + delay,
    decreases seen - i,
{
    assert(ticks.take(seen).drop_last() =~= ticks.take(seen - 1));
    assert(ticks.take(seen).last() == ticks[seen - 1]);
    if seen > i + 1 {
        lemma_deadline_after_attempt(delay, ticks, i, seen - 1);
        assert(ticks[i] <= ticks[seen - 1]);
    }
}

} // verus!
