use deck_counter::anchor::{encode_snapshot, PersistedSnapshot};
use deck_counter::effects::{Effects, Persist};
use deck_counter::press::{Deadline, PressOutcome};
use deck_counter::tick::TickOutcome;
use deck_counter::timer::{load_state, parse_settings, TimerAction, TimerSettings};
use serde_json::Value;

type Object = serde_json::Map<String, Value>;

fn object(pairs: &[(&str, Value)]) -> Object {
    let mut m = Object::new();
    for (k, v) in pairs {
        m.insert(k.to_string(), v.clone());
    }
    m
}

const QUIET: Effects =
    Effects { render_secs: None, persist: Persist::Keep, launch: None, arm: None, alert: false };

fn short_press(t: &mut TimerAction, now: u64) -> Effects {
    t.key_down();
    let (outcome, e) = t.key_up(now);
    assert_eq!(outcome, PressOutcome::Short);
    e
}

#[test]
fn settings_defaults() {
    assert_eq!(
        parse_settings(&Object::new()),
        TimerSettings { duration_secs: 60, long_press_ms: 500 }
    );
}

#[test]
fn settings_accept_numbers_and_text() {
    let s = parse_settings(&object(&[
        ("durationSecs", Value::from(" 90\n")),
        ("longPressMs", Value::from(250)),
    ]));
    assert_eq!(s, TimerSettings { duration_secs: 90, long_press_ms: 250 });
}

#[test]
fn settings_duration_is_at_least_one_second() {
    let s = parse_settings(&object(&[("durationSecs", Value::from(0))]));
    assert_eq!(s.duration_secs, 1);
    let s = parse_settings(&object(&[("durationSecs", Value::from("-5"))]));
    assert_eq!(s.duration_secs, 60);
    let s = parse_settings(&object(&[("durationSecs", Value::from("+5"))]));
    assert_eq!(s.duration_secs, 5);
}

#[test]
fn new_timer_is_paused_at_one_minute() {
    let t = TimerAction::new();
    assert_eq!(t.ticks.value_ms, 60_000);
    assert_eq!(t.duration_ms, 60_000);
    assert!(!t.ticks.is_running());
    assert_eq!(t.press.delay_ms, 500);
}

#[test]
fn load_state_accounts_for_time_away() {
    let entry = object(&[
        ("remaining_ms", Value::from(30_000u64)),
        ("anchor_unix_ms", Value::from(1_000_000u64)),
    ]);
    assert_eq!(load_state(&entry, 1_010_000), (20_000, true));
    assert_eq!(load_state(&entry, 1_040_000), (0, true));
    assert_eq!(load_state(&entry, 999_000), (30_000, true));
    let paused = object(&[("remaining_ms", Value::from(30_000u64))]);
    assert_eq!(load_state(&paused, 1_040_000), (30_000, false));
    assert_eq!(load_state(&Object::new(), 5), (0, false));
}

#[test]
fn short_press_starts_and_stops() {
    let mut t = TimerAction::new();
    let e = short_press(&mut t, 1_000);
    assert!(t.ticks.is_running());
    let captured = e.launch.expect("a loop is launched");
    assert_eq!(
        e,
        Effects {
            persist: Persist::Save(PersistedSnapshot {
                accumulated_ms: 60_000,
                anchor_unix_ms: Some(1_000)
            }),
            launch: Some(captured),
            ..QUIET
        }
    );
    for _ in 0..15 {
        t.tick(captured);
    }
    assert_eq!(t.ticks.value_ms, 58_500);
    let e = short_press(&mut t, 2_500);
    assert!(!t.ticks.is_running());
    assert_eq!(
        e,
        Effects {
            render_secs: Some(58),
            persist: Persist::Save(PersistedSnapshot {
                accumulated_ms: 58_500,
                anchor_unix_ms: None
            }),
            ..QUIET
        }
    );
    // The stopped loop wakes once more and finds itself superseded.
    assert_eq!(t.tick(captured), (TickOutcome::Exit, QUIET));
    assert_eq!(t.ticks.value_ms, 58_500);
}

#[test]
fn key_down_arms_the_deadline() {
    let mut t = TimerAction::new();
    let e = t.key_down();
    assert_eq!(e, Effects { arm: Some(Deadline { epoch: 1, delay_ms: 500 }), ..QUIET });
}

#[test]
fn long_press_resets_and_stops() {
    let mut t = TimerAction::new();
    let captured = short_press(&mut t, 0).launch.unwrap();
    for _ in 0..100 {
        t.tick(captured);
    }
    assert_eq!(t.ticks.value_ms, 50_000);
    let d = t.key_down().arm.unwrap();
    let e = t.long_press(d.epoch);
    assert_eq!(e, Effects { render_secs: Some(60), persist: Persist::Clear, ..QUIET });
    assert_eq!(t.ticks.value_ms, 60_000);
    assert!(!t.ticks.is_running());
    assert_eq!(t.tick(captured).0, TickOutcome::Exit);
    assert_eq!(t.key_up(20_000), (PressOutcome::LongAlreadyFired, QUIET));
    assert!(!t.ticks.is_running());
    assert_eq!(t.ticks.value_ms, 60_000);
}

#[test]
fn late_deadline_does_not_reset() {
    let mut t = TimerAction::new();
    let d = t.key_down().arm.unwrap();
    let captured = t.key_up(0).1.launch.unwrap();
    t.tick(captured);
    assert_eq!(t.long_press(d.epoch), QUIET);
    assert!(t.ticks.is_running());
    assert_eq!(t.ticks.value_ms, 59_900);
}

#[test]
fn sixty_second_countdown_end_to_end() {
    let mut t = TimerAction::new();
    let captured = short_press(&mut t, 0).launch.unwrap();
    let mut alerts = 0;
    let mut expired_at = None;
    let mut shown = Vec::new();
    // 65 seconds of simulated time, one tick every 100 ms.
    for k in 1..=650u64 {
        let (outcome, e) = t.tick(captured);
        if e.alert {
            alerts += 1;
        }
        if outcome == TickOutcome::Expired {
            expired_at = Some(k * 100);
        }
        if let Some(secs) = e.render_secs {
            shown.push(secs);
        }
        if k > 600 {
            assert_eq!(outcome, TickOutcome::Exit);
        }
    }
    assert_eq!(expired_at, Some(60_000));
    assert_eq!(alerts, 1);
    assert_eq!(t.ticks.value_ms, 0);
    assert!(!t.ticks.is_running());
    // One redraw whenever the whole seconds change, 59 down to 0, and one
    // more at expiry.
    let mut expected: Vec<u64> = (0..60).rev().collect();
    expected.push(0);
    assert_eq!(shown, expected);
    // A further short press is a no-op.
    let before = t;
    let e = short_press(&mut t, 65_000);
    assert_eq!(e, QUIET);
    assert_eq!(t.ticks, before.ticks);
    assert_eq!(t.duration_ms, before.duration_ms);
}

#[test]
fn expiry_is_stored_as_paused_at_zero() {
    let mut t = TimerAction::new();
    t.ticks.set_value(100);
    let captured = short_press(&mut t, 0).launch.unwrap();
    let (outcome, e) = t.tick(captured);
    assert_eq!(outcome, TickOutcome::Expired);
    assert_eq!(
        e,
        Effects {
            render_secs: Some(0),
            persist: Persist::Save(PersistedSnapshot { accumulated_ms: 0, anchor_unix_ms: None }),
            alert: true,
            ..QUIET
        }
    );
}

#[test]
fn duration_change_resets_a_stopped_timer() {
    let mut t = TimerAction::new();
    let e = t.did_receive_settings(&object(&[
        ("durationSecs", Value::from(90)),
        ("longPressMs", Value::from(300)),
    ]));
    assert_eq!(e, Effects { render_secs: Some(90), persist: Persist::Clear, ..QUIET });
    assert_eq!(t.duration_ms, 90_000);
    assert_eq!(t.ticks.value_ms, 90_000);
    assert_eq!(t.press.delay_ms, 300);
}

#[test]
fn duration_change_leaves_a_running_timer_alone() {
    let mut t = TimerAction::new();
    let captured = short_press(&mut t, 0).launch.unwrap();
    t.tick(captured);
    let e = t.did_receive_settings(&object(&[("durationSecs", Value::from(90))]));
    assert_eq!(e, QUIET);
    assert!(t.ticks.is_running());
    assert_eq!(t.ticks.value_ms, 59_900);
    assert_eq!(t.tick(captured).0, TickOutcome::Quiet);
    assert_eq!(t.ticks.value_ms, 59_800);
    // The next reset takes the new duration.
    let d = t.key_down().arm.unwrap();
    t.long_press(d.epoch);
    assert_eq!(t.ticks.value_ms, 90_000);
}

#[test]
fn same_duration_redraws_a_stopped_timer() {
    let mut t = TimerAction::new();
    t.ticks.set_value(12_345);
    let e = t.did_receive_settings(&Object::new());
    assert_eq!(e, Effects { render_secs: Some(12), ..QUIET });
    assert_eq!(t.ticks.value_ms, 12_345);
}

#[test]
fn duration_saturates() {
    let mut t = TimerAction::new();
    t.did_receive_settings(&object(&[("durationSecs", Value::from(u64::MAX))]));
    assert_eq!(t.duration_ms, u64::MAX);
}

#[test]
fn teardown_returns_the_snapshot() {
    let mut t = TimerAction::new();
    assert_eq!(
        t.teardown(77),
        PersistedSnapshot { accumulated_ms: 60_000, anchor_unix_ms: None }
    );
    let mut t = TimerAction::new();
    let captured = short_press(&mut t, 0).launch.unwrap();
    t.tick(captured);
    assert_eq!(
        t.teardown(100),
        PersistedSnapshot { accumulated_ms: 59_900, anchor_unix_ms: Some(100) }
    );
    assert_eq!(t.tick(captured).0, TickOutcome::Exit);
}

#[test]
fn init_without_record_keeps_the_default() {
    let mut t = TimerAction::new();
    assert_eq!(t.init(None, 5), QUIET);
    assert_eq!(t.ticks.value_ms, 60_000);
}

#[test]
fn init_resumes_a_running_timer() {
    let mut t = TimerAction::new();
    let saved = PersistedSnapshot { accumulated_ms: 30_000, anchor_unix_ms: Some(1_000) };
    let e = t.init(Some(&encode_snapshot(&saved, "remaining_ms")), 11_000);
    let captured = e.launch.expect("a loop is launched");
    assert_eq!(
        e,
        Effects {
            render_secs: Some(20),
            persist: Persist::Save(PersistedSnapshot {
                accumulated_ms: 20_000,
                anchor_unix_ms: Some(11_000)
            }),
            launch: Some(captured),
            ..QUIET
        }
    );
    assert!(t.ticks.is_running());
    assert_eq!(t.tick(captured).0, TickOutcome::Render(19));
}

#[test]
fn init_finds_a_timer_that_ran_out_while_away() {
    let mut t = TimerAction::new();
    let saved = PersistedSnapshot { accumulated_ms: 30_000, anchor_unix_ms: Some(1_000) };
    let e = t.init(Some(&encode_snapshot(&saved, "remaining_ms")), 31_000);
    assert_eq!(
        e,
        Effects {
            render_secs: Some(0),
            persist: Persist::Save(PersistedSnapshot { accumulated_ms: 0, anchor_unix_ms: None }),
            alert: true,
            ..QUIET
        }
    );
    assert_eq!(t.ticks.value_ms, 0);
    assert!(!t.ticks.is_running());
}

#[test]
fn init_restores_a_paused_timer() {
    let mut t = TimerAction::new();
    let saved = PersistedSnapshot { accumulated_ms: 42_000, anchor_unix_ms: None };
    assert_eq!(t.init(Some(&encode_snapshot(&saved, "remaining_ms")), 31_000), Effects { render_secs: Some(42), ..QUIET });
    assert_eq!(t.ticks.value_ms, 42_000);
    assert!(!t.ticks.is_running());
}

#[test]
fn start_stop_churn_counts_down_once_per_period() {
    let mut t = TimerAction::new();
    let mut loops = Vec::new();
    for _ in 0..10 {
        loops.push(t.start_tick());
        t.stop_tick();
    }
    loops.push(t.start_tick());
    for _ in 0..20 {
        for e in &loops {
            t.tick(*e);
        }
    }
    assert_eq!(t.ticks.value_ms, 60_000 - 20 * 100);
}
