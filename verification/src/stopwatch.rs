//! The count-up button: a short press starts or stops it, and a long press
//! resets it to zero.

use vstd::prelude::*;
use crate::anchor::{
    decode_snapshot, decoded, from_persisted, persisted, restored, to_persisted, PersistedSnapshot,
};
use crate::arith::capped_sum;
use crate::effects::{no_effects, Effects, Persist};
use crate::json::{at, fields, FieldView};
use crate::press::{Deadline, PressArbiter, PressOutcome, PressPhase, DEFAULT_LONG_PRESS_MS};
use crate::settings::{get_u64, long_press_of};
use crate::tick::{Direction, TickOutcome, TickScheduler};

verus! {

/// The long-press delay that a settings object gives a stopwatch.
pub open spec fn parsed_settings(store: Map<Seq<char>, FieldView>) -> u64 {
    long_press_of(at(store, "longPressMs"@))
}

/// Reads a stopwatch's settings: its long-press delay, 500 milliseconds
/// where none is given.
pub fn parse_settings(v: &serde_json::Map<String, serde_json::Value>) -> (ms: u64)
    ensures
        ms == parsed_settings(fields(*v)),
{
    match get_u64(v, "longPressMs") {
        Some(ms) => ms,
        None => DEFAULT_LONG_PRESS_MS,
    }
}

/// The key under which a stopwatch's record stores the elapsed time.
pub open spec fn value_key() -> Seq<char> {
    "elapsed_ms"@
}

/// The snapshot in a stored record, if there is a record.
pub open spec fn stored(
    saved: Option<&serde_json::Map<String, serde_json::Value>>,
) -> Option<PersistedSnapshot> {
    match saved {
        Some(entry) => Some(decoded(fields(*entry), value_key())),
        None => None,
    }
}

/// Reads a stopwatch's stored record at the present time `now`: the time
/// elapsed by now, and whether the stopwatch was running when it was stored.
pub fn load_state(entry: &serde_json::Map<String, serde_json::Value>, now: u64) -> (r: (u64, bool))
    ensures
        r == ({
            let so_far = restored(decoded(fields(*entry), value_key()), now, Direction::CountUp);
            (so_far.value_ms, so_far.was_running)
        }),
{
    let record = decode_snapshot(entry, "elapsed_ms");
    let r = from_persisted(&record, now, Direction::CountUp);
    (r.value_ms, r.was_running)
}

/// A count-up button.
#[derive(Clone, Copy, Debug, PartialEq, Eq, Structural)]
pub struct StopwatchAction {
    /// The tick loop's state; its duration is the time elapsed.
    pub ticks: TickScheduler,
    pub press: PressArbiter,
}

impl StopwatchAction {
    /// Whether the stopwatch is running.
    pub open spec fn running(self) -> bool {
        self.ticks.running()
    }

    /// The time elapsed, in milliseconds.
    pub open spec fn elapsed_ms(self) -> u64 {
        self.ticks.value_ms
    }

    /// The stopwatch with another elapsed time and nothing else changed.
    pub open spec fn with_elapsed(self, value_ms: u64) -> StopwatchAction {
        StopwatchAction { ticks: TickScheduler { value_ms, ..self.ticks }, ..self }
    }

    /// A stopwatch as it is created: at zero, paused, with the default
    /// long-press delay.
    pub open spec fn fresh() -> StopwatchAction {
        StopwatchAction {
            ticks: TickScheduler {
                epoch: 0,
                cancel: true,
                value_ms: 0,
                direction: Direction::CountUp,
            },
            press: PressArbiter {
                seq: 0,
                phase: PressPhase::Idle,
                delay_ms: DEFAULT_LONG_PRESS_MS,
            },
        }
    }

    /// The stopwatch and what its host does after a stored record, if
    /// there is one, was loaded at `now`.
    pub open spec fn after_init(self, saved: Option<PersistedSnapshot>, now: u64) -> (
        StopwatchAction,
        Effects,
    ) {
        let r = match saved {
            Some(record) => restored(record, now, Direction::CountUp),
            None => crate::anchor::Restored { value_ms: 0, was_running: false },
        };
        if r.was_running {
            let ticks = self.ticks.started(r.value_ms);
            (
                StopwatchAction { ticks, ..self },
                Effects {
                    render_secs: Some(r.value_ms / 1000),
                    persist: Persist::Save(persisted(r.value_ms, true, now)),
                    launch: Some(ticks.epoch),
                    ..no_effects()
                },
            )
        } else {
            (
                self.with_elapsed(r.value_ms),
                Effects { render_secs: Some(r.value_ms / 1000), ..no_effects() },
            )
        }
    }

    /// The stopwatch and what its host does after the deadline of the
    /// press with `epoch` arrived.
    pub open spec fn after_long_press(self, epoch: u64) -> (StopwatchAction, Effects) {
        if self.press.fires(epoch) {
            (
                StopwatchAction {
                    press: self.press.after_deadline(epoch),
                    ticks: TickScheduler { value_ms: 0, ..self.ticks.stopped() },
                },
                Effects { render_secs: Some(0), persist: Persist::Clear, ..no_effects() },
            )
        } else {
            (self, no_effects())
        }
    }

    /// The stopwatch and what its host does after a release at `now`.
    pub open spec fn after_key_up(self, now: u64) -> (StopwatchAction, Effects) {
        let press = self.press.released();
        let value = self.elapsed_ms();
        if self.press.outcome() == PressOutcome::LongAlreadyFired {
            (StopwatchAction { press, ..self }, no_effects())
        } else if self.running() {
            (
                StopwatchAction { press, ticks: self.ticks.stopped() },
                Effects {
                    render_secs: Some(value / 1000),
                    persist: Persist::Save(persisted(value, false, now)),
                    ..no_effects()
                },
            )
        } else {
            let ticks = self.ticks.started(value);
            (
                StopwatchAction { press, ticks },
                Effects {
                    persist: Persist::Save(persisted(value, true, now)),
                    launch: Some(ticks.epoch),
                    ..no_effects()
                },
            )
        }
    }

    /// What a tick's outcome asks of the host.
    pub open spec fn tick_effects(outcome: TickOutcome) -> Effects {
        match outcome {
            TickOutcome::Render(secs) => Effects { render_secs: Some(secs), ..no_effects() },
            _ => no_effects(),
        }
    }

    /// Creates a stopwatch: at zero, paused.
    pub fn new() -> (t: StopwatchAction)
        ensures
            t == StopwatchAction::fresh(),
    {
        StopwatchAction {
            ticks: TickScheduler::new(Direction::CountUp, 0),
            press: PressArbiter::new(DEFAULT_LONG_PRESS_MS),
        }
    }

    /// Brings the button up from its stored record, or at zero without
    /// one. A stopwatch that was running goes on from where the clock says
    /// it now stands, with a fresh anchor.
    pub fn init(
        &mut self,
        saved: Option<&serde_json::Map<String, serde_json::Value>>,
        now: u64,
    ) -> (e: Effects)
        ensures
            (*final(self), e) == old(self).after_init(stored(saved), now),
    {
        let (value_ms, was_running) = match saved {
            Some(entry) => load_state(entry, now),
            None => (0, false),
        };
        if was_running {
            let captured = self.ticks.start(value_ms);
            Effects {
                render_secs: Some(value_ms / 1000),
                persist: Persist::Save(to_persisted(value_ms, true, now)),
                launch: Some(captured),
                arm: None,
                alert: false,
            }
        } else {
            self.ticks.set_value(value_ms);
            Effects {
                render_secs: Some(value_ms / 1000),
                persist: Persist::Keep,
                launch: None,
                arm: None,
                alert: false,
            }
        }
    }

    /// Takes new settings: the long-press delay for presses to come.
    pub fn did_receive_settings(&mut self, settings: &serde_json::Map<String, serde_json::Value>)
        ensures
            *final(self) == (StopwatchAction {
                press: PressArbiter {
                    delay_ms: parsed_settings(fields(*settings)),
                    ..old(self).press
                },
                ..*old(self)
            }),
    {
        let ms = parse_settings(settings);
        self.press.set_delay(ms);
    }

    /// Shuts the button down and returns the snapshot to store: stamped
    /// with `now` if the stopwatch was running.
    pub fn teardown(&mut self, now: u64) -> (record: PersistedSnapshot)
        ensures
            record == persisted(old(self).elapsed_ms(), old(self).running(), now),
            *final(self) == (StopwatchAction { ticks: old(self).ticks.stopped(), ..*old(self) }),
    {
        let running = self.ticks.is_running();
        self.stop_tick();
        to_persisted(self.ticks.value_ms, running, now)
    }

    /// The button goes down: a press begins, and the host schedules its
    /// deadline.
    pub fn key_down(&mut self) -> (e: Effects)
        ensures
            *final(self) == (StopwatchAction { press: old(self).press.pressed(), ..*old(self) }),
            e == (Effects {
                arm: Some(
                    Deadline {
                        epoch: old(self).press.pressed().seq,
                        delay_ms: old(self).press.delay_ms,
                    },
                ),
                ..no_effects()
            }),
    {
        let deadline = self.press.begin_press();
        Effects {
            render_secs: None,
            persist: Persist::Keep,
            launch: None,
            arm: Some(deadline),
            alert: false,
        }
    }

    /// The deadline of the press with `epoch` arrived. If that press is
    /// still held, the stopwatch is reset: the loop is stopped, the elapsed
    /// time is zero again, and the stored record is removed. A deadline of a
    /// press that was released or superseded does nothing.
    pub fn long_press(&mut self, epoch: u64) -> (e: Effects)
        ensures
            (*final(self), e) == old(self).after_long_press(epoch),
    {
        if self.press.on_deadline(epoch) {
            self.ticks.stop();
            self.ticks.set_value(0);
            Effects {
                render_secs: Some(0),
                persist: Persist::Clear,
                launch: None,
                arm: None,
                alert: false,
            }
        } else {
            Effects::none()
        }
    }

    /// The button goes up at `now`. After a long press nothing more
    /// happens. A short press stops a running stopwatch and starts a stopped
    /// one.
    pub fn key_up(&mut self, now: u64) -> (r: (PressOutcome, Effects))
        ensures
            r.0 == old(self).press.outcome(),
            (*final(self), r.1) == old(self).after_key_up(now),
    {
        let outcome = self.press.end_press();
        let value = self.ticks.value_ms;
        match outcome {
            PressOutcome::LongAlreadyFired => (outcome, Effects::none()),
            PressOutcome::Short => {
                if self.ticks.is_running() {
                    self.stop_tick();
                    (
                        outcome,
                        Effects {
                            render_secs: Some(value / 1000),
                            persist: Persist::Save(to_persisted(value, false, now)),
                            launch: None,
                            arm: None,
                            alert: false,
                        },
                    )
                } else {
                    let captured = self.start_tick();
                    (
                        outcome,
                        Effects {
                            render_secs: None,
                            persist: Persist::Save(to_persisted(value, true, now)),
                            launch: Some(captured),
                            arm: None,
                            alert: false,
                        },
                    )
                }
            },
        }
    }

    /// Stops the tick loop, if one runs.
    pub fn stop_tick(&mut self)
        ensures
            *final(self) == (StopwatchAction { ticks: old(self).ticks.stopped(), ..*old(self) }),
    {
        self.ticks.stop();
    }

    /// Starts a tick loop from the time elapsed and returns the epoch that
    /// the loop captures.
    pub fn start_tick(&mut self) -> (captured: u64)
        ensures
            *final(self) == (StopwatchAction {
                ticks: old(self).ticks.started(old(self).elapsed_ms()),
                ..*old(self)
            }),
            captured == final(self).ticks.epoch,
    {
        let seed = self.ticks.value_ms;
        self.ticks.start(seed)
    }

    /// One period of the loop that captured `captured`: the elapsed time
    /// goes up by one period, and the host is told what to draw.
    pub fn tick(&mut self, captured: u64) -> (r: (TickOutcome, Effects))
        ensures
            r.0 == old(self).ticks.outcome(captured),
            r.1 == StopwatchAction::tick_effects(r.0),
            *final(self) == (StopwatchAction {
                ticks: old(self).ticks.ticked(captured),
                ..*old(self)
            }),
    {
        let outcome = self.ticks.tick(captured);
        let e = match outcome {
            TickOutcome::Render(secs) => Effects {
                render_secs: Some(secs),
                persist: Persist::Keep,
                launch: None,
                arm: None,
                alert: false,
            },
            _ => Effects::none(),
        };
        (outcome, e)
    }
}

/// A stopwatch that was running when it was stored comes back with the
/// time away added to the stored time, saturating, and runs on in a new
/// loop under a fresh anchor. One that was paused comes back as it was.
pub proof fn law_restart_accounts_for_time_away(elapsed_ms: u64, stored_at: u64, loaded_at: u64)
    requires
        stored_at <= loaded_at,
    ensures
        ({
            let record = persisted(elapsed_ms, true, stored_at);
            let (after, e) = StopwatchAction::fresh().after_init(Some(record), loaded_at);
            let total = capped_sum(elapsed_ms, (loaded_at - stored_at) as u64);
            &&& after.elapsed_ms() == total
            &&& after.running()
            &&& e.render_secs == Some(total / 1000)
            &&& e.persist == Persist::Save(persisted(total, true, loaded_at))
            &&& e.launch == Some(after.ticks.epoch)
            &&& after.ticks.admits(after.ticks.epoch)
        }),
        ({
            let record = persisted(elapsed_ms, false, stored_at);
            let (after, e) = StopwatchAction::fresh().after_init(Some(record), loaded_at);
            &&& after.elapsed_ms() == elapsed_ms
            &&& !after.running()
            &&& e.launch.is_none()
            &&& e.persist == Persist::Keep
        }),
{
}

} // verus!
