//! The count-down button: a short press starts or stops it, a long press
//! resets it to the configured duration, and reaching zero raises an alert.

use vstd::prelude::*;
use crate::anchor::{
    decode_snapshot, decoded, from_persisted, persisted, restored, to_persisted, PersistedSnapshot,
};
use crate::arith::{capped_mul, capped_product, floored_diff};
use crate::effects::{no_effects, Effects, Persist};
use crate::json::{at, fields, FieldView};
use crate::press::{PressArbiter, PressOutcome, PressPhase, DEFAULT_LONG_PRESS_MS};
use crate::settings::{get_u64, long_press_of, unsigned_of};
use crate::tick::{Direction, TickOutcome, TickScheduler};

verus! {

/// What a timer is configured with.
#[derive(Clone, Copy, Debug, PartialEq, Eq, Structural)]
pub struct TimerSettings {
    pub duration_secs: u64,
    pub long_press_ms: u64,
}

/// The settings that a settings object gives a timer: a duration of at
/// least one second, 60 where none is given, and the long-press delay.
pub open spec fn parsed_settings(store: Map<Seq<char>, FieldView>) -> TimerSettings {
    let secs = match unsigned_of(at(store, "durationSecs"@)) {
        Some(s) => s,
        None => 60,
    };
    TimerSettings {
        duration_secs: if secs < 1 {
            1
        } else {
            secs
        },
        long_press_ms: long_press_of(at(store, "longPressMs"@)),
    }
}

/// Reads a timer's settings, substituting the defaults for what is missing
/// or malformed.
pub fn parse_settings(v: &serde_json::Map<String, serde_json::Value>) -> (s: TimerSettings)
    ensures
        s == parsed_settings(fields(*v)),
{
    let secs = match get_u64(v, "durationSecs") {
        Some(s) => s,
        None => 60,
    };
    let long_press_ms = match get_u64(v, "longPressMs") {
        Some(ms) => ms,
        None => DEFAULT_LONG_PRESS_MS,
    };
    TimerSettings {
        duration_secs: if secs < 1 {
            1
        } else {
            secs
        },
        long_press_ms,
    }
}

/// The key under which a timer's record stores the remaining time.
pub open spec fn value_key() -> Seq<char> {
    "remaining_ms"@
}

/// The snapshot in a stored record, if there is a record.
pub open spec fn stored(
    saved: Option<&serde_json::Map<String, serde_json::Value>>,
) -> Option<PersistedSnapshot> {
    match saved {
        Some(entry) => Some(decoded(fields(*entry), value_key())),
        None => None,
    }
}

/// Reads a timer's stored record at the present time `now`: the time that
/// remains now, and whether the timer was running when it was stored.
pub fn load_state(entry: &serde_json::Map<String, serde_json::Value>, now: u64) -> (r: (u64, bool))
    ensures
        r == ({
            let left = restored(decoded(fields(*entry), value_key()), now, Direction::CountDown);
            (left.value_ms, left.was_running)
        }),
{
    let record = decode_snapshot(entry, "remaining_ms");
    let r = from_persisted(&record, now, Direction::CountDown);
    (r.value_ms, r.was_running)
}

/// A count-down button.
#[derive(Clone, Copy, Debug, PartialEq, Eq, Structural)]
pub struct TimerAction {
    /// The tick loop's state; its duration is the time that remains.
    pub ticks: TickScheduler,
    pub press: PressArbiter,
    /// The configured duration, which a reset restores.
    pub duration_ms: u64,
}

impl TimerAction {
    /// Whether the timer is running.
    pub open spec fn running(self) -> bool {
        self.ticks.running()
    }

    /// The time that remains, in milliseconds.
    pub open spec fn remaining_ms(self) -> u64 {
        self.ticks.value_ms
    }

    /// The timer with another remaining time and nothing else changed.
    pub open spec fn with_remaining(self, value_ms: u64) -> TimerAction {
        TimerAction { ticks: TickScheduler { value_ms, ..self.ticks }, ..self }
    }

    /// A timer as it is created: 60 seconds, paused, with the default
    /// long-press delay.
    pub open spec fn fresh() -> TimerAction {
        TimerAction {
            ticks: TickScheduler {
                epoch: 0,
                cancel: true,
                value_ms: 60_000,
                direction: Direction::CountDown,
            },
            press: PressArbiter {
                seq: 0,
                phase: PressPhase::Idle,
                delay_ms: DEFAULT_LONG_PRESS_MS,
            },
            duration_ms: 60_000,
        }
    }

    /// The timer and what its host does after a stored record, if there is
    /// one, was loaded at `now`.
    pub open spec fn after_init(self, saved: Option<PersistedSnapshot>, now: u64) -> (
        TimerAction,
        Effects,
    ) {
        match saved {
            None => (self, no_effects()),
            Some(record) => {
                let r = restored(record, now, Direction::CountDown);
                if r.value_ms > 0 && r.was_running {
                    let ticks = self.ticks.started(r.value_ms);
                    (
                        TimerAction { ticks, ..self },
                        Effects {
                            render_secs: Some(r.value_ms / 1000),
                            persist: Persist::Save(persisted(r.value_ms, true, now)),
                            launch: Some(ticks.epoch),
                            ..no_effects()
                        },
                    )
                } else if r.was_running {
                    (
                        self.with_remaining(0),
                        Effects {
                            render_secs: Some(0),
                            persist: Persist::Save(persisted(0, false, now)),
                            alert: true,
                            ..no_effects()
                        },
                    )
                } else {
                    (
                        self.with_remaining(r.value_ms),
                        Effects { render_secs: Some(r.value_ms / 1000), ..no_effects() },
                    )
                }
            },
        }
    }

    /// The timer and what its host does after new settings arrived.
    pub open spec fn after_settings(self, s: TimerSettings) -> (TimerAction, Effects) {
        let duration_ms = capped_product(s.duration_secs, 1000);
        let press = PressArbiter { delay_ms: s.long_press_ms, ..self.press };
        if duration_ms != self.duration_ms && !self.running() {
            (
                TimerAction { press, duration_ms, ..self.with_remaining(duration_ms) },
                Effects {
                    render_secs: Some(s.duration_secs),
                    persist: Persist::Clear,
                    ..no_effects()
                },
            )
        } else if !self.running() {
            (
                TimerAction { press, ..self },
                Effects { render_secs: Some(self.remaining_ms() / 1000), ..no_effects() },
            )
        } else {
            (TimerAction { press, duration_ms, ..self }, no_effects())
        }
    }

    /// The timer and what its host does after the deadline of the press
    /// with `epoch` arrived.
    pub open spec fn after_long_press(self, epoch: u64) -> (TimerAction, Effects) {
        if self.press.fires(epoch) {
            (
                TimerAction {
                    press: self.press.after_deadline(epoch),
                    ticks: TickScheduler { value_ms: self.duration_ms, ..self.ticks.stopped() },
                    ..self
                },
                Effects {
                    render_secs: Some(self.duration_ms / 1000),
                    persist: Persist::Clear,
                    ..no_effects()
                },
            )
        } else {
            (self, no_effects())
        }
    }

    /// The timer and what its host does after a release at `now`.
    pub open spec fn after_key_up(self, now: u64) -> (TimerAction, Effects) {
        let press = self.press.released();
        let value = self.remaining_ms();
        if self.press.outcome() == PressOutcome::LongAlreadyFired {
            (TimerAction { press, ..self }, no_effects())
        } else if self.running() {
            (
                TimerAction { press, ticks: self.ticks.stopped(), ..self },
                Effects {
                    render_secs: Some(value / 1000),
                    persist: Persist::Save(persisted(value, false, now)),
                    ..no_effects()
                },
            )
        } else if value == 0 {
            (TimerAction { press, ..self }, no_effects())
        } else {
            let ticks = self.ticks.started(value);
            (
                TimerAction { press, ticks, ..self },
                Effects {
                    persist: Persist::Save(persisted(value, true, now)),
                    launch: Some(ticks.epoch),
                    ..no_effects()
                },
            )
        }
    }

    /// What a tick's outcome asks of the host.
    pub open spec fn tick_effects(outcome: TickOutcome) -> Effects {
        match outcome {
            TickOutcome::Exit => no_effects(),
            TickOutcome::Quiet => no_effects(),
            TickOutcome::Render(secs) => Effects { render_secs: Some(secs), ..no_effects() },
            TickOutcome::Expired => Effects {
                render_secs: Some(0),
                persist: Persist::Save(
                    PersistedSnapshot { accumulated_ms: 0, anchor_unix_ms: None },
                ),
                alert: true,
                ..no_effects()
            },
        }
    }

    /// Creates a timer: 60 seconds, paused.
    pub fn new() -> (t: TimerAction)
        ensures
            t == TimerAction::fresh(),
    {
        TimerAction {
            ticks: TickScheduler::new(Direction::CountDown, 60_000),
            press: PressArbiter::new(DEFAULT_LONG_PRESS_MS),
            duration_ms: 60_000,
        }
    }

    /// Brings the button up from its stored record, if it has one. A timer
    /// that was running goes on from where the clock says it now stands,
    /// with a fresh anchor; one that ran out while nothing was running is
    /// found expired: the alert is raised and it rests at zero.
    pub fn init(
        &mut self,
        saved: Option<&serde_json::Map<String, serde_json::Value>>,
        now: u64,
    ) -> (e: Effects)
        ensures
            (*final(self), e) == old(self).after_init(stored(saved), now),
    {
        match saved {
            None => Effects::none(),
            Some(entry) => {
                let (value_ms, was_running) = load_state(entry, now);
                if value_ms > 0 && was_running {
                    let captured = self.ticks.start(value_ms);
                    Effects {
                        render_secs: Some(value_ms / 1000),
                        persist: Persist::Save(to_persisted(value_ms, true, now)),
                        launch: Some(captured),
                        arm: None,
                        alert: false,
                    }
                } else if was_running {
                    self.ticks.set_value(0);
                    Effects {
                        render_secs: Some(0),
                        persist: Persist::Save(to_persisted(0, false, now)),
                        launch: None,
                        arm: None,
                        alert: true,
                    }
                } else {
                    self.ticks.set_value(value_ms);
                    Effects {
                        render_secs: Some(value_ms / 1000),
                        persist: Persist::Keep,
                        launch: None,
                        arm: None,
                        alert: false,
                    }
                }
            },
        }
    }

    /// Takes new settings. A changed duration resets a stopped timer to the
    /// new duration; a running one keeps counting and takes the new
    /// duration at its next reset. With the duration unchanged, a stopped
    /// timer is drawn again.
    pub fn did_receive_settings(
        &mut self,
        settings: &serde_json::Map<String, serde_json::Value>,
    ) -> (e: Effects)
        ensures
            (*final(self), e) == old(self).after_settings(parsed_settings(fields(*settings))),
    {
        let s = parse_settings(settings);
        let duration_ms = capped_mul(s.duration_secs, 1000);
        self.press.set_delay(s.long_press_ms);
        let running = self.ticks.is_running();
        if duration_ms != self.duration_ms && !running {
            self.duration_ms = duration_ms;
            self.ticks.set_value(duration_ms);
            Effects {
                render_secs: Some(s.duration_secs),
                persist: Persist::Clear,
                launch: None,
                arm: None,
                alert: false,
            }
        } else if !running {
            Effects {
                render_secs: Some(self.ticks.value_ms / 1000),
                persist: Persist::Keep,
                launch: None,
                arm: None,
                alert: false,
            }
        } else {
            self.duration_ms = duration_ms;
            Effects::none()
        }
    }

    /// Shuts the button down and returns the snapshot to store: stamped
    /// with `now` if the timer was running.
    pub fn teardown(&mut self, now: u64) -> (record: PersistedSnapshot)
        ensures
            record == persisted(old(self).remaining_ms(), old(self).running(), now),
            *final(self) == (TimerAction { ticks: old(self).ticks.stopped(), ..*old(self) }),
    {
        let running = self.ticks.is_running();
        self.stop_tick();
        to_persisted(self.ticks.value_ms, running, now)
    }

    /// The button goes down: a press begins, and the host schedules its
    /// deadline.
    pub fn key_down(&mut self) -> (e: Effects)
        ensures
            *final(self) == (TimerAction { press: old(self).press.pressed(), ..*old(self) }),
            e == (Effects {
                arm: Some(
                    crate::press::Deadline {
                        epoch: old(self).press.pressed().seq,
                        delay_ms: old(self).press.delay_ms,
                    },
                ),
                ..no_effects()
            }),
    {
        let deadline = self.press.begin_press();
        Effects {
            render_secs: None,
            persist: Persist::Keep,
            launch: None,
            arm: Some(deadline),
            alert: false,
        }
    }

    /// The deadline of the press with `epoch` arrived. If that press is
    /// still held, the timer is reset: the loop is stopped, the remaining
    /// time is the configured duration again, and the stored record is
    /// removed. A deadline of a press that was released or superseded does
    /// nothing.
    pub fn long_press(&mut self, epoch: u64) -> (e: Effects)
        ensures
            (*final(self), e) == old(self).after_long_press(epoch),
    {
        if self.press.on_deadline(epoch) {
            self.ticks.stop();
            self.ticks.set_value(self.duration_ms);
            Effects {
                render_secs: Some(self.duration_ms / 1000),
                persist: Persist::Clear,
                launch: None,
                arm: None,
                alert: false,
            }
        } else {
            Effects::none()
        }
    }

    /// The button goes up at `now`. After a long press nothing more
    /// happens. A short press stops a running timer, and starts a stopped
    /// one unless no time remains.
    pub fn key_up(&mut self, now: u64) -> (r: (PressOutcome, Effects))
        ensures
            r.0 == old(self).press.outcome(),
            (*final(self), r.1) == old(self).after_key_up(now),
    {
        let outcome = self.press.end_press();
        let value = self.ticks.value_ms;
        match outcome {
            PressOutcome::LongAlreadyFired => (outcome, Effects::none()),
            PressOutcome::Short => {
                if self.ticks.is_running() {
                    self.stop_tick();
                    (
                        outcome,
                        Effects {
                            render_secs: Some(value / 1000),
                            persist: Persist::Save(to_persisted(value, false, now)),
                            launch: None,
                            arm: None,
                            alert: false,
                        },
                    )
                } else if value == 0 {
                    (outcome, Effects::none())
                } else {
                    let captured = self.start_tick();
                    (
                        outcome,
                        Effects {
                            render_secs: None,
                            persist: Persist::Save(to_persisted(value, true, now)),
                            launch: Some(captured),
                            arm: None,
                            alert: false,
                        },
                    )
                }
            },
        }
    }

    /// Stops the tick loop, if one runs.
    pub fn stop_tick(&mut self)
        ensures
            *final(self) == (TimerAction { ticks: old(self).ticks.stopped(), ..*old(self) }),
    {
        self.ticks.stop();
    }

    /// Starts a tick loop from the time that remains and returns the epoch
    /// that the loop captures.
    pub fn start_tick(&mut self) -> (captured: u64)
        ensures
            *final(self) == (TimerAction {
                ticks: old(self).ticks.started(old(self).remaining_ms()),
                ..*old(self)
            }),
            captured == final(self).ticks.epoch,
    {
        let seed = self.ticks.value_ms;
        self.ticks.start(seed)
    }

    /// One period of the loop that captured `captured`: the remaining time
    /// goes down by one period, and the host is told what to draw, or that
    /// the timer expired.
    pub fn tick(&mut self, captured: u64) -> (r: (TickOutcome, Effects))
        ensures
            r.0 == old(self).ticks.outcome(captured),
            r.1 == TimerAction::tick_effects(r.0),
            *final(self) == (TimerAction { ticks: old(self).ticks.ticked(captured), ..*old(self) }),
    {
        let outcome = self.ticks.tick(captured);
        let e = match outcome {
            TickOutcome::Exit => Effects::none(),
            TickOutcome::Quiet => Effects::none(),
            TickOutcome::Render(secs) => Effects {
                render_secs: Some(secs),
                persist: Persist::Keep,
                launch: None,
                arm: None,
                alert: false,
            },
            TickOutcome::Expired => Effects {
                render_secs: Some(0),
                persist: Persist::Save(
                    PersistedSnapshot { accumulated_ms: 0, anchor_unix_ms: None },
                ),
                launch: None,
                arm: None,
                alert: true,
            },
        };
        (outcome, e)
    }
}

/// Once the count-down has expired, a short press is without effect: the
/// timer stays at zero with no loop running, and the host is asked for
/// nothing. Only a reset or a changed duration brings it back.
pub proof fn law_expired_timer_ignores_short_press(t: TimerAction, captured: u64, now: u64)
    requires
        t.ticks.outcome(captured) == TickOutcome::Expired,
    ensures
        ({
            let expired = TimerAction { ticks: t.ticks.ticked(captured), ..t };
            let down = TimerAction { press: expired.press.pressed(), ..expired };
            let (after, e) = down.after_key_up(now);
            &&& expired.remaining_ms() == 0
            &&& !expired.running()
            &&& e == no_effects()
            &&& after.ticks == expired.ticks
        }),
{
}

/// Where a reset and the running loop's next tick come close together,
/// the reset is the one that counts: once it has happened, the tick of any
/// loop launched before it changes nothing and asks for nothing.
pub proof fn law_reset_supersedes_loop(t: TimerAction, epoch: u64, captured: u64)
    requires
        t.press.fires(epoch),
    ensures
        ({
            let (after, _) = t.after_long_press(epoch);
            &&& after.remaining_ms() == t.duration_ms
            &&& !after.running()
            &&& after.ticks.outcome(captured) == TickOutcome::Exit
            &&& after.ticks.ticked(captured) == after.ticks
        }),
{
}

/// A timer that was running when it was stored comes back with what the
/// clock says is left: the stored time less the time away. If anything is
/// left it runs on in a new loop under a fresh anchor; if not, it is found
/// expired, the alert is raised, and it rests at zero.
pub proof fn law_restart_accounts_for_time_away(remaining_ms: u64, stored_at: u64, loaded_at: u64)
    requires
        stored_at <= loaded_at,
    ensures
        ({
            let record = persisted(remaining_ms, true, stored_at);
            let (after, e) = TimerAction::fresh().after_init(Some(record), loaded_at);
            let left = floored_diff(remaining_ms, (loaded_at - stored_at) as u64);
            &&& after.remaining_ms() == left
            &&& after.running() == (left > 0)
            &&& e.alert == (left == 0)
            &&& e.render_secs == Some(left / 1000)
            &&& e.persist == Persist::Save(persisted(left, left > 0, loaded_at))
            &&& left > 0 ==> e.launch == Some(after.ticks.epoch) && after.ticks.admits(
                after.ticks.epoch,
            )
            &&& left == 0 ==> e.launch.is_none()
        }),
{
}

} // verus!
