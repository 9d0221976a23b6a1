//! Press arbitration: telling a short press from a long one without
//! blocking the path that delivers press and release events.
//!
//! A press arms a deadline for its own epoch. The deadline runs on another
//! timeline and may arrive late, after the release or after a newer press;
//! it fires the long-press action only while its own press is still armed.

use vstd::prelude::*;
use crate::epoch::{advance, behind, lemma_behind, next_epoch};

verus! {

/// How a press ended.
#[derive(Clone, Copy, Debug, PartialEq, Eq, Structural)]
pub enum PressOutcome {
    /// Released before the long-press action fired: the short-press policy
    /// applies.
    Short,
    /// The long-press action fired for this press: the short-press policy
    /// is suppressed.
    LongAlreadyFired,
}

/// Where a button stands between presses.
#[derive(Clone, Copy, Debug, PartialEq, Eq, Structural)]
pub enum PressPhase {
    /// No press is held and none has fired since the last press began.
    Idle,
    /// The press with this epoch is held and has not fired.
    Armed(u64),
    /// The long-press action fired for the press with this epoch.
    Fired(u64),
}

/// A deadline to arm: deliver `epoch` back after `delay_ms`.
#[derive(Clone, Copy, Debug, PartialEq, Eq, Structural)]
pub struct Deadline {
    pub epoch: u64,
    pub delay_ms: u64,
}

/// The press state of one button.
#[derive(Clone, Copy, Debug, PartialEq, Eq, Structural)]
pub struct PressArbiter {
    /// The epoch of the latest press.
    pub seq: u64,
    pub phase: PressPhase,
    /// How long a press is held before it counts as long.
    pub delay_ms: u64,
}

/// The long-press delay of a button that configures none.
pub const DEFAULT_LONG_PRESS_MS: u64 = 500;

impl PressArbiter {
    /// An armed or fired phase belongs to the latest press.
    pub open spec fn wf(self) -> bool {
        match self.phase {
            PressPhase::Idle => true,
            PressPhase::Armed(e) => e == self.seq,
            PressPhase::Fired(e) => e == self.seq,
        }
    }

    /// The state after a press begins.
    pub open spec fn pressed(self) -> PressArbiter {
        PressArbiter {
            seq: next_epoch(self.seq),
            phase: PressPhase::Armed(next_epoch(self.seq)),
            delay_ms: self.delay_ms,
        }
    }

    /// Whether a deadline for `epoch` fires the long-press action now: only
    /// while that very press is armed.
    pub open spec fn fires(self, epoch: u64) -> bool {
        self.phase == PressPhase::Armed(epoch)
    }

    /// The state after a deadline for `epoch` was handled.
    pub open spec fn after_deadline(self, epoch: u64) -> PressArbiter {
        if self.fires(epoch) {
            PressArbiter { seq: self.seq, phase: PressPhase::Fired(epoch), delay_ms: self.delay_ms }
        } else {
            self
        }
    }

    /// What a release reports now.
    pub open spec fn outcome(self) -> PressOutcome {
        if self.phase is Fired {
            PressOutcome::LongAlreadyFired
        } else {
            PressOutcome::Short
        }
    }

    /// The state after a release. A fired press stays fired until the next
    /// press begins, so a repeated release is suppressed like the first.
    pub open spec fn released(self) -> PressArbiter {
        if self.phase is Fired {
            self
        } else {
            PressArbiter { seq: self.seq, phase: PressPhase::Idle, delay_ms: self.delay_ms }
        }
    }

    /// An arbiter at rest with the given long-press delay.
    pub fn new(delay_ms: u64) -> (a: PressArbiter)
        ensures
            a == (PressArbiter { seq: 0, phase: PressPhase::Idle, delay_ms }),
            a.wf(),
    {
        PressArbiter { seq: 0, phase: PressPhase::Idle, delay_ms }
    }

    /// Changes the delay that later presses arm their deadline with.
    pub fn set_delay(&mut self, delay_ms: u64)
        ensures
            *final(self) == (PressArbiter { delay_ms, ..*old(self) }),
    {
        self.delay_ms = delay_ms;
    }

    /// Begins a press: allocates the next epoch, arms it, and returns the
    /// deadline that the caller schedules. Any earlier press is superseded,
    /// so its deadline will find another epoch armed and do nothing.
    pub fn begin_press(&mut self) -> (d: Deadline)
        ensures
            *final(self) == old(self).pressed(),
            final(self).wf(),
            d.epoch == final(self).seq,
            d.delay_ms == old(self).delay_ms,
    {
        let epoch = advance(self.seq);
        self.seq = epoch;
        self.phase = PressPhase::Armed(epoch);
        Deadline { epoch, delay_ms: self.delay_ms }
    }

    /// Handles the deadline of the press with `epoch`. Returns whether the
    /// long-press action fires: only if that press is still armed, and then
    /// the press is marked fired so that no second deadline fires for it.
    pub fn on_deadline(&mut self, epoch: u64) -> (fire: bool)
        ensures
            fire == old(self).fires(epoch),
            *final(self) == old(self).after_deadline(epoch),
            old(self).wf() ==> final(self).wf(),
    {
        match self.phase {
            PressPhase::Armed(e) => {
                if e == epoch {
                    self.phase = PressPhase::Fired(epoch);
                    true
                } else {
                    false
                }
            },
            _ => false,
        }
    }

    /// Ends a press and reports whether the long-press action already
    /// fired for it, in which case the caller suppresses its short-press
    /// policy.
    pub fn end_press(&mut self) -> (outcome: PressOutcome)
        ensures
            outcome == old(self).outcome(),
            *final(self) == old(self).released(),
            old(self).wf() ==> final(self).wf(),
    {
        match self.phase {
            PressPhase::Fired(_) => PressOutcome::LongAlreadyFired,
            _ => {
                self.phase = PressPhase::Idle;
                PressOutcome::Short
            },
        }
    }
}


/// A deadline in flight: armed for the press with `epoch`, and handled
/// at `due`, which is when its delay and whatever the scheduling of its
/// worker adds have passed.
pub struct Pending {
    pub epoch: u64,
    pub due: nat,
}

/// A press and its release, by their times, and how late the worker that
/// holds the deadline of this press wakes up.
pub struct Tap {
    pub down_at: nat,
    pub up_at: nat,
    pub lag: nat,
}

/// A button seen over time: its press state, the deadlines still in
/// flight, and how often the long-press action has fired.
pub struct Timeline {
    pub arb: PressArbiter,
    pub pending: Seq<Pending>,
    pub fired: nat,
}

impl Timeline {
    /// A button at rest with nothing in flight.
    pub open spec fn start(delay_ms: u64) -> Timeline {
        Timeline {
            arb: PressArbiter { seq: 0, phase: PressPhase::Idle, delay_ms },
            pending: Seq::empty(),
            fired: 0,
        }
    }

    /// No press is held, and every deadline in flight belongs to the
    /// latest press or to one of the `span` presses before it.
    pub open spec fn quiet(self, span: nat) -> bool {
        &&& !(self.arb.phase is Armed)
        &&& within(self.pending, self.arb.seq, span)
    }

    /// Handles every deadline in flight that is due by `now`, oldest
    /// first; the others stay in flight.
    pub open spec fn deliver(self, now: nat) -> Timeline
        decreases self.pending.len(),
    {
        if self.pending.len() == 0 {
            self
        } else {
            let last = self.pending.last();
            let t = (Timeline { pending: self.pending.drop_last(), ..self }).deliver(now);
            if last.due <= now {
                Timeline {
                    arb: t.arb.after_deadline(last.epoch),
                    pending: t.pending,
                    fired: t.fired + if t.arb.fires(last.epoch) {
                        1nat
                    } else {
                        0nat
                    },
                }
            } else {
                Timeline { pending: t.pending.push(last), ..t }
            }
        }
    }

    /// The button goes down at `at`: what is due by then is handled, then
    /// the press begins and its deadline is in flight, to be handled `lag`
    /// after the delay has passed.
    pub open spec fn press(self, at: nat, lag: nat) -> Timeline {
        let t = self.deliver(at);
        Timeline {
            arb: t.arb.pressed(),
            pending: t.pending.push(
                Pending { epoch: t.arb.pressed().seq, due: at + t.arb.delay_ms as nat + lag },
            ),
            fired: t.fired,
        }
    }

    /// The button goes up at `at`: what is due by then is handled, then
    /// the press ends.
    pub open spec fn release(self, at: nat) -> Timeline {
        let t = self.deliver(at);
        Timeline { arb: t.arb.released(), ..t }
    }

    /// The timeline after a sequence of taps.
    pub open spec fn play(self, taps: Seq<Tap>) -> Timeline
        decreases taps.len(),
    {
        if taps.len() == 0 {
            self
        } else {
            self.play(taps.drop_last()).press(taps.last().down_at, taps.last().lag).release(
                taps.last().up_at,
            )
        }
    }
}

/// Every deadline in `pending` belongs to the press with epoch `seq` or
/// to one of the `span` presses before it.
pub open spec fn within(pending: Seq<Pending>, seq: u64, span: nat) -> bool {
    forall|k: int| 0 <= k < pending.len() ==> behind((#[trigger] pending[k]).epoch, seq) <= span
}

/// No deadline in flight belongs to a press that is armed.
pub open spec fn all_stale(t: Timeline) -> bool {
    forall|k: int| 0 <= k < t.pending.len() ==> !t.arb.fires((#[trigger] t.pending[k]).epoch)
}

/// Deadlines of presses that were released or superseded do nothing:
/// where none of the deadlines in flight belongs to a press that is armed,
/// delivering them fires nothing and leaves the press state as it is.
pub proof fn lemma_stale_deadlines_are_inert(t: Timeline, now: nat, seq: u64, span: nat)
    requires
        all_stale(t),
        within(t.pending, seq, span),
    ensures
        t.deliver(now).arb == t.arb,
        t.deliver(now).fired == t.fired,
        within(t.deliver(now).pending, seq, span),
    decreases t.pending.len(),
{
    if t.pending.len() > 0 {
        let rest = Timeline { pending: t.pending.drop_last(), ..t };
        assert forall|k: int| 0 <= k < rest.pending.len() implies !rest.arb.fires(
            (#[trigger] rest.pending[k]).epoch,
        ) && behind(rest.pending[k].epoch, seq) <= span by {
            assert(rest.pending[k] == t.pending[k]);
        }
        lemma_stale_deadlines_are_inert(rest, now, seq, span);
        let last = t.pending.last();
        assert(last == t.pending[t.pending.len() - 1]);
    }
}

/// Once a press has begun, every deadline that was in flight before is
/// stale, as long as fewer than 2^64 presses lie between.
proof fn lemma_press_supersedes(pending: Seq<Pending>, seq: u64, span: nat)
    requires
        within(pending, seq, span),
        span < u64::MAX,
    ensures
        within(pending, next_epoch(seq), span + 1),
        forall|k: int| 0 <= k < pending.len() ==> (#[trigger] pending[k]).epoch != next_epoch(seq),
{
    assert forall|k: int| 0 <= k < pending.len() implies behind(
        (#[trigger] pending[k]).epoch,
        next_epoch(seq),
    ) <= span + 1 && pending[k].epoch != next_epoch(seq) by {
        lemma_behind(pending[k].epoch, seq);
        lemma_behind(pending[k].epoch, next_epoch(seq));
    }
}

/// A press followed by its release before the delay has passed fires
/// nothing and leaves the button quiet.
pub proof fn lemma_short_tap_is_quiet(t: Timeline, tap: Tap, span: nat)
    requires
        t.quiet(span),
        span < u64::MAX,
        tap.up_at < tap.down_at + t.arb.delay_ms,
    ensures
        t.press(tap.down_at, tap.lag).release(tap.up_at).quiet(span + 1),
        t.press(tap.down_at, tap.lag).release(tap.up_at).fired == t.fired,
        t.press(tap.down_at, tap.lag).release(tap.up_at).arb.delay_ms == t.arb.delay_ms,
{
    let seq = t.arb.seq;
    lemma_stale_deadlines_are_inert(t, tap.down_at, seq, span);
    let held = t.press(tap.down_at, tap.lag);
    let own = held.pending.last();
    let older = Timeline { pending: held.pending.drop_last(), ..held };
    assert(older.pending =~= t.deliver(tap.down_at).pending);
    lemma_press_supersedes(older.pending, seq, span);
    lemma_stale_deadlines_are_inert(older, tap.up_at, held.arb.seq, span + 1);
    assert(own.due > tap.up_at);
    let up = held.release(tap.up_at);
    lemma_behind(own.epoch, up.arb.seq);
    assert forall|k: int| 0 <= k < up.pending.len() implies behind(
        (#[trigger] up.pending[k]).epoch,
        up.arb.seq,
    ) <= span + 1 by {
        let seen = older.deliver(tap.up_at).pending;
        if k < seen.len() {
            assert(up.pending[k] == seen[k]);
        }
    }
}

/// However many taps come, each released before its delay has passed,
/// the long-press action never fires: not during the taps, and not when
/// the deadlines still in flight arrive afterwards, however late. This
/// holds as long as epochs do not come around: the deadlines in flight at
/// the start reach back `span` presses, and with the taps that is fewer
/// than 2^64.
pub proof fn law_short_taps_never_fire(t: Timeline, taps: Seq<Tap>, span: nat, later: nat)
    requires
        t.quiet(span),
        span + taps.len() <= u64::MAX,
        forall|k: int|
            0 <= k < taps.len() ==> (#[trigger] taps[k]).up_at < taps[k].down_at + t.arb.delay_ms,
    ensures
        t.play(taps).fired == t.fired,
        t.play(taps).deliver(later).fired == t.fired,
        t.play(taps).quiet(span + taps.len()),
        t.play(taps).arb.delay_ms == t.arb.delay_ms,
    decreases taps.len(),
{
    if taps.len() > 0 {
        let before = taps.drop_last();
        assert forall|k: int| 0 <= k < before.len() implies (#[trigger] before[k]).up_at
            < before[k].down_at + t.arb.delay_ms by {
            assert(before[k] == taps[k]);
        }
        law_short_taps_never_fire(t, before, span, later);
        lemma_short_tap_is_quiet(t.play(before), taps.last(), span + before.len());
    }
    let end = t.play(taps);
    lemma_stale_deadlines_are_inert(end, later, end.arb.seq, span + taps.len());
}

/// On a button that starts at rest, taps that are each released before
/// the delay has passed never fire the long-press action.
pub proof fn law_short_taps_never_fire_from_rest(delay_ms: u64, taps: Seq<Tap>, later: nat)
    requires
        taps.len() <= u64::MAX,
        forall|k: int|
            0 <= k < taps.len() ==> (#[trigger] taps[k]).up_at < taps[k].down_at + delay_ms,
    ensures
        Timeline::start(delay_ms).play(taps).deliver(later).fired == 0,
{
    law_short_taps_never_fire(Timeline::start(delay_ms), taps, 0, later);
}

/// A press held until its deadline is handled fires the long-press
/// action exactly once: the release that follows reports
/// `LongAlreadyFired`, and nothing that arrives later fires again. As above,
/// the deadlines in flight at the start reach back fewer than 2^64 presses.
pub proof fn law_held_press_fires_once(t: Timeline, span: nat, tap: Tap, later: nat)
    requires
        t.quiet(span),
        span < u64::MAX,
        tap.up_at >= tap.down_at + t.arb.delay_ms + tap.lag,
    ensures
        ({
            let held = t.press(tap.down_at, tap.lag);
            &&& held.deliver(tap.up_at).fired == t.fired + 1
            &&& held.deliver(tap.up_at).arb.outcome() == PressOutcome::LongAlreadyFired
            &&& held.release(tap.up_at).fired == t.fired + 1
            &&& held.release(tap.up_at).deliver(later).fired == t.fired + 1
        }),
{
    let down_at = tap.down_at;
    let up_at = tap.up_at;
    let seq = t.arb.seq;
    lemma_stale_deadlines_are_inert(t, down_at, seq, span);
    let held = t.press(down_at, tap.lag);
    let older = Timeline { pending: held.pending.drop_last(), ..held };
    assert(older.pending =~= t.deliver(down_at).pending);
    lemma_press_supersedes(older.pending, seq, span);
    lemma_stale_deadlines_are_inert(older, up_at, held.arb.seq, span + 1);
    let up = held.release(up_at);
    assert(up.arb.phase is Fired);
    assert(within(up.pending, held.arb.seq, span + 1));
    lemma_stale_deadlines_are_inert(up, later, held.arb.seq, span + 1);
}

} // verus!
