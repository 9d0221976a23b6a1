//! Tick scheduling: a cancellable periodic loop that advances a duration
//! and asks for a redraw when the seconds change.
//!
//! Each loop captures the epoch it was started under and hands it back
//! with every tick. Only the loop whose epoch is still the live one may
//! change the duration or draw; a superseded loop is told to exit and has
//! no effect, so stopping and restarting never needs to wait for it.

use vstd::prelude::*;
use crate::arith::{capped_sum, floored_diff};
use crate::epoch::{advance, behind, lemma_behind, next_epoch};

verus! {

/// The period of a tick loop, in milliseconds.
pub const TICK_MS: u64 = 100;

/// Whether a duration counts up (a stopwatch) or down (a timer).
#[derive(Clone, Copy, Debug, PartialEq, Eq, Structural)]
pub enum Direction {
    CountUp,
    CountDown,
}

/// What a loop does after a tick.
#[derive(Clone, Copy, Debug, PartialEq, Eq, Structural)]
pub enum TickOutcome {
    /// The loop is cancelled or superseded: it ends, and nothing changed.
    Exit,
    /// The duration moved within the same second: nothing to draw.
    Quiet,
    /// The duration moved to another second: draw this many seconds.
    Render(u64),
    /// A count-down arrived at zero: raise the alert, draw zero, and end.
    Expired,
}

/// The tick state of one button.
#[derive(Clone, Copy, Debug, PartialEq, Eq, Structural)]
pub struct TickScheduler {
    /// The epoch of the loop that may act.
    pub epoch: u64,
    /// Set while no loop may act.
    pub cancel: bool,
    /// The duration, in milliseconds: elapsed or remaining.
    pub value_ms: u64,
    pub direction: Direction,
}

impl TickScheduler {
    /// Whether the loop that captured `captured` may act.
    pub open spec fn admits(self, captured: u64) -> bool {
        !self.cancel && captured == self.epoch
    }

    /// Whether a loop is running.
    pub open spec fn running(self) -> bool {
        !self.cancel
    }

    /// The duration one tick after `value_ms`.
    pub open spec fn advanced(self) -> u64 {
        match self.direction {
            Direction::CountUp => capped_sum(self.value_ms, TICK_MS),
            Direction::CountDown => floored_diff(self.value_ms, TICK_MS),
        }
    }

    /// The state after a start with `seed` as the duration.
    pub open spec fn started(self, seed: u64) -> TickScheduler {
        TickScheduler {
            epoch: next_epoch(self.epoch),
            cancel: false,
            value_ms: seed,
            direction: self.direction,
        }
    }

    /// The state after a stop.
    pub open spec fn stopped(self) -> TickScheduler {
        TickScheduler { epoch: next_epoch(self.epoch), cancel: true, ..self }
    }

    /// What the loop that captured `captured` is told at its next tick.
    pub open spec fn outcome(self, captured: u64) -> TickOutcome {
        if !self.admits(captured) {
            TickOutcome::Exit
        } else if self.direction == Direction::CountDown && self.advanced() == 0 {
            TickOutcome::Expired
        } else if self.advanced() / 1000 != self.value_ms / 1000 {
            TickOutcome::Render(self.advanced() / 1000)
        } else {
            TickOutcome::Quiet
        }
    }

    /// The state after the loop that captured `captured` ticked.
    pub open spec fn ticked(self, captured: u64) -> TickScheduler {
        if !self.admits(captured) {
            self
        } else {
            TickScheduler {
                cancel: self.outcome(captured) == TickOutcome::Expired,
                value_ms: self.advanced(),
                ..self
            }
        }
    }

    /// A scheduler with no loop running.
    pub fn new(direction: Direction, value_ms: u64) -> (s: TickScheduler)
        ensures
            s == (TickScheduler { epoch: 0, cancel: true, value_ms, direction }),
            !s.running(),
    {
        TickScheduler { epoch: 0, cancel: true, value_ms, direction }
    }

    /// Reports whether a loop is running.
    pub fn is_running(&self) -> (r: bool)
        ensures
            r == self.running(),
    {
        !self.cancel
    }

    /// Starts a loop from `seed`: allocates the next epoch, which
    /// supersedes every loop started before, and clears the cancel flag.
    /// Returns the epoch that the new loop captures.
    pub fn start(&mut self, seed: u64) -> (captured: u64)
        ensures
            *final(self) == old(self).started(seed),
            captured == final(self).epoch,
            final(self).admits(captured),
    {
        self.epoch = advance(self.epoch);
        self.cancel = false;
        self.value_ms = seed;
        self.epoch
    }

    /// Stops whatever loop runs, without waiting for it: the cancel flag is
    /// set and the epoch moves on, so the loop finds itself superseded at
    /// its next tick.
    pub fn stop(&mut self)
        ensures
            *final(self) == old(self).stopped(),
            !final(self).running(),
            final(self).value_ms == old(self).value_ms,
    {
        self.cancel = true;
        self.epoch = advance(self.epoch);
    }

    /// Replaces the duration, as a reset does.
    pub fn set_value(&mut self, value_ms: u64)
        ensures
            *final(self) == (TickScheduler { value_ms, ..*old(self) }),
    {
        self.value_ms = value_ms;
    }

    /// One period of the loop that captured `captured`. A cancelled or
    /// superseded loop exits and changes nothing. Otherwise the duration
    /// moves by one period, saturating when counting up and stopping at zero
    /// when counting down; a count-down that arrives at zero expires, which
    /// also cancels the loop, and else a redraw is asked for exactly when the
    /// whole seconds changed.
    pub fn tick(&mut self, captured: u64) -> (outcome: TickOutcome)
        ensures
            outcome == old(self).outcome(captured),
            *final(self) == old(self).ticked(captured),
    {
        if self.cancel || captured != self.epoch {
            return TickOutcome::Exit;
        }
        let current = self.value_ms;
        match self.direction {
            Direction::CountUp => {
                let next = current.saturating_add(TICK_MS);
                self.value_ms = next;
                if next / 1000 != current / 1000 {
                    TickOutcome::Render(next / 1000)
                } else {
                    TickOutcome::Quiet
                }
            },
            Direction::CountDown => {
                let next = current.saturating_sub(TICK_MS);
                self.value_ms = next;
                if next == 0 {
                    self.cancel = true;
                    TickOutcome::Expired
                } else if next / 1000 != current / 1000 {
                    TickOutcome::Render(next / 1000)
                } else {
                    TickOutcome::Quiet
                }
            },
        }
    }
}


/// What the owner of a scheduler asks of it.
#[derive(Clone, Copy, Debug, PartialEq, Eq, Structural)]
pub enum Command {
    /// Start a loop from this duration.
    Start(u64),
    /// Stop whatever loop runs.
    Stop,
}

/// The scheduler after the commands in `cmds`, given with no period
/// passing between them.
pub open spec fn commanded(s: TickScheduler, cmds: Seq<Command>) -> TickScheduler
    decreases cmds.len(),
{
    if cmds.len() == 0 {
        s
    } else {
        match cmds.last() {
            Command::Start(seed) => commanded(s, cmds.drop_last()).started(seed),
            Command::Stop => commanded(s, cmds.drop_last()).stopped(),
        }
    }
}

/// The epochs captured by the loops that the starts among `cmds`
/// launched, oldest first. Each of these loops still sleeps through its
/// first period.
pub open spec fn launched(s: TickScheduler, cmds: Seq<Command>) -> Seq<u64>
    decreases cmds.len(),
{
    if cmds.len() == 0 {
        Seq::empty()
    } else {
        match cmds.last() {
            Command::Start(_) => launched(s, cmds.drop_last()).push(commanded(s, cmds).epoch),
            Command::Stop => launched(s, cmds.drop_last()),
        }
    }
}

/// The scheduler after the loops in `loops` ticked once each, in this
/// order. A loop that occurs more than once ticked as often.
pub open spec fn period(s: TickScheduler, loops: Seq<u64>) -> TickScheduler
    decreases loops.len(),
{
    if loops.len() == 0 {
        s
    } else {
        period(s, loops.drop_last()).ticked(loops.last())
    }
}

/// The scheduler after `n` periods in which every loop in `loops` ticked.
pub open spec fn periods(s: TickScheduler, loops: Seq<u64>, n: nat) -> TickScheduler
    decreases n,
{
    if n == 0 {
        s
    } else {
        period(periods(s, loops, (n - 1) as nat), loops)
    }
}

/// How many of `loops` the scheduler admits.
pub open spec fn live_loops(s: TickScheduler, loops: Seq<u64>) -> nat
    decreases loops.len(),
{
    if loops.len() == 0 {
        0
    } else {
        live_loops(s, loops.drop_last()) + if s.admits(loops.last()) {
            1nat
        } else {
            0nat
        }
    }
}

/// How many ticks of `ticks`, taken in order, end in an expiry.
pub open spec fn expiries(s: TickScheduler, ticks: Seq<u64>) -> nat
    decreases ticks.len(),
{
    if ticks.len() == 0 {
        0
    } else {
        expiries(s, ticks.drop_last()) + if period(s, ticks.drop_last()).outcome(ticks.last())
            == TickOutcome::Expired {
            1nat
        } else {
            0nat
        }
    }
}

/// How many of `ticks` were taken by the loop that captured `e`.
pub open spec fn ticks_by(ticks: Seq<u64>, e: u64) -> nat
    decreases ticks.len(),
{
    if ticks.len() == 0 {
        0
    } else {
        ticks_by(ticks.drop_last(), e) + if ticks.last() == e {
            1nat
        } else {
            0nat
        }
    }
}

/// None of `loops` captured the epoch `e`.
pub open spec fn none_is(loops: Seq<u64>, e: u64) -> bool {
    forall|k: int| 0 <= k < loops.len() ==> (#[trigger] loops[k]) != e
}

/// Every one of `loops` captured an epoch that lies at least 1 and at
/// most `span` allocations behind `current`.
pub open spec fn all_behind(loops: Seq<u64>, current: u64, span: nat) -> bool {
    forall|k: int| 0 <= k < loops.len() ==> 1 <= behind(#[trigger] loops[k], current) <= span
}

/// Every command moves the epoch on by one, so every loop launched so
/// far lies behind the epoch that the next command allocates, as long as
/// the epochs have not come around.
pub proof fn lemma_commands_supersede(s: TickScheduler, cmds: Seq<Command>)
    requires
        cmds.len() < u64::MAX,
    ensures
        commanded(s, cmds).direction == s.direction,
        all_behind(launched(s, cmds), next_epoch(commanded(s, cmds).epoch), cmds.len() + 1),
    decreases cmds.len(),
{
    if cmds.len() > 0 {
        let before = cmds.drop_last();
        lemma_commands_supersede(s, before);
        let e0 = commanded(s, before).epoch;
        let e1 = next_epoch(e0);
        let e2 = next_epoch(e1);
        assert(commanded(s, cmds).epoch == e1);
        let old_loops = launched(s, before);
        let loops = launched(s, cmds);
        assert forall|k: int| 0 <= k < loops.len() implies 1 <= behind(#[trigger] loops[k], e2)
            <= cmds.len() + 1 by {
            if k < old_loops.len() {
                assert(loops[k] == old_loops[k]);
                lemma_behind(old_loops[k], e1);
            } else {
                assert(loops[k] == e1);
                lemma_behind(e1, e1);
            }
        }
    }
}

/// A tick of a loop that the scheduler does not admit changes nothing, so
/// a period in which only superseded loops tick leaves the scheduler as it
/// was, with no expiry and no live loop among them.
pub proof fn lemma_superseded_loops_are_inert(s: TickScheduler, loops: Seq<u64>)
    requires
        s.cancel || none_is(loops, s.epoch),
    ensures
        period(s, loops) == s,
        live_loops(s, loops) == 0,
        expiries(s, loops) == 0,
    decreases loops.len(),
{
    if loops.len() > 0 {
        let before = loops.drop_last();
        assert forall|k: int| 0 <= k < before.len() implies (#[trigger] before[k]) != s.epoch
            || s.cancel by {
            assert(before[k] == loops[k]);
        }
        lemma_superseded_loops_are_inert(s, before);
        assert(loops.last() == loops[loops.len() - 1]);
    }
}

/// One period with any number of superseded loops and the live one moves
/// the duration by exactly one tick.
pub proof fn lemma_period_is_one_tick(s: TickScheduler, stale: Seq<u64>)
    requires
        none_is(stale, s.epoch),
    ensures
        period(s, stale.push(s.epoch)) == s.ticked(s.epoch),
        live_loops(s, stale.push(s.epoch)) == if s.cancel {
            0nat
        } else {
            1nat
        },
{
    let loops = stale.push(s.epoch);
    assert(loops.drop_last() =~= stale);
    lemma_superseded_loops_are_inert(s, stale);
}

/// A running count-up loop alone advances the duration by one period per
/// tick, saturating at the top.
pub proof fn lemma_count_up_periods(s: TickScheduler, stale: Seq<u64>, n: nat)
    requires
        none_is(stale, s.epoch),
        s.direction == Direction::CountUp,
        !s.cancel,
    ensures
        periods(s, stale.push(s.epoch), n).value_ms == if s.value_ms + n * TICK_MS > u64::MAX {
            u64::MAX
        } else {
            (s.value_ms + n * TICK_MS) as u64
        },
        periods(s, stale.push(s.epoch), n).epoch == s.epoch,
        periods(s, stale.push(s.epoch), n).direction == s.direction,
        !periods(s, stale.push(s.epoch), n).cancel,
    decreases n,
{
    if n > 0 {
        lemma_count_up_periods(s, stale, (n - 1) as nat);
        lemma_period_is_one_tick(periods(s, stale.push(s.epoch), (n - 1) as nat), stale);
    }
}

/// Starting, stopping at once and starting again, any number of times
/// and in any order before a period has passed, leaves exactly one live
/// loop, the one launched last: after `n` periods in which every loop ever
/// launched has ticked, a count-up from 0 stands at exactly `n` periods
/// (saturating at the top of the range), never more. This holds as long as
/// the epochs do not come around, that is for fewer than 2^64 commands.
pub proof fn law_restarts_leave_one_loop(s: TickScheduler, cmds: Seq<Command>, n: nat)
    requires
        s.direction == Direction::CountUp,
        cmds.len() < u64::MAX,
    ensures
        ({
            let last = commanded(s, cmds).started(0);
            let loops = launched(s, cmds).push(last.epoch);
            &&& live_loops(last, loops) == 1
            &&& periods(last, loops, n).value_ms == if n * TICK_MS > u64::MAX {
                u64::MAX
            } else {
                (n * TICK_MS) as u64
            }
        }),
{
    lemma_commands_supersede(s, cmds);
    let last = commanded(s, cmds).started(0);
    let stale = launched(s, cmds);
    assert forall|k: int| 0 <= k < stale.len() implies (#[trigger] stale[k]) != last.epoch by {
        lemma_behind(stale[k], last.epoch);
    }
    lemma_period_is_one_tick(last, stale);
    lemma_count_up_periods(last, stale, n);
}

/// Once a count-down has expired, nothing that ticks fires the expiry
/// again, and the remaining time stays at zero, until the next start.
pub proof fn law_expiry_fires_once(s: TickScheduler, captured: u64, later: Seq<u64>)
    requires
        s.outcome(captured) == TickOutcome::Expired,
    ensures
        s.ticked(captured).value_ms == 0,
        !s.ticked(captured).running(),
        period(s.ticked(captured), later) == s.ticked(captured),
        expiries(s.ticked(captured), later) == 0,
    decreases later.len(),
{
    if later.len() > 0 {
        law_expiry_fires_once(s, captured, later.drop_last());
    }
}

/// Whatever loops tick, in whatever order and however often, only the
/// ticks of the live loop count: a running count-up has advanced by one
/// period for each of them, saturating at the top, and by nothing else.
pub proof fn law_only_live_ticks_count(s: TickScheduler, ticks: Seq<u64>)
    requires
        s.direction == Direction::CountUp,
        !s.cancel,
    ensures
        period(s, ticks).value_ms == if s.value_ms + ticks_by(ticks, s.epoch) * TICK_MS
            > u64::MAX {
            u64::MAX
        } else {
            (s.value_ms + ticks_by(ticks, s.epoch) * TICK_MS) as u64
        },
        period(s, ticks).epoch == s.epoch,
        period(s, ticks).direction == s.direction,
        !period(s, ticks).cancel,
        expiries(s, ticks) == 0,
    decreases ticks.len(),
{
    if ticks.len() > 0 {
        law_only_live_ticks_count(s, ticks.drop_last());
    }
}

/// A running count-down expires at the tick of its loop that brings it to
/// zero and at no other: whatever loops tick, there has been exactly one
/// expiry once the ticks of the live loop span the remaining time, and none
/// before. From then on the remaining time rests at zero and no loop runs.
pub proof fn law_count_down_expires(s: TickScheduler, ticks: Seq<u64>)
    requires
        s.direction == Direction::CountDown,
        !s.cancel,
    ensures
        ({
            let n = ticks_by(ticks, s.epoch);
            let spanned = n > 0 && n * TICK_MS >= s.value_ms;
            &&& expiries(s, ticks) == if spanned {
                1nat
            } else {
                0nat
            }
            &&& period(s, ticks).value_ms == if n * TICK_MS >= s.value_ms {
                0
            } else {
                (s.value_ms - n * TICK_MS) as u64
            }
            &&& period(s, ticks).cancel == spanned
            &&& period(s, ticks).epoch == s.epoch
            &&& period(s, ticks).direction == s.direction
        }),
    decreases ticks.len(),
{
    if ticks.len() > 0 {
        law_count_down_expires(s, ticks.drop_last());
    }
}

} // verus!
