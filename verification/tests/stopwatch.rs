use deck_counter::anchor::{encode_snapshot, PersistedSnapshot};
use deck_counter::effects::{Effects, Persist};
use deck_counter::press::PressOutcome;
use deck_counter::stopwatch::{load_state, parse_settings, StopwatchAction};
use deck_counter::tick::TickOutcome;
use serde_json::Value;

type Object = serde_json::Map<String, Value>;

const QUIET: Effects =
    Effects { render_secs: None, persist: Persist::Keep, launch: None, arm: None, alert: false };

fn short_press(t: &mut StopwatchAction, now: u64) -> Effects {
    t.key_down();
    let (outcome, e) = t.key_up(now);
    assert_eq!(outcome, PressOutcome::Short);
    e
}

#[test]
fn stopwatch_settings() {
    assert_eq!(parse_settings(&Object::new()), 500);
    let mut m = Object::new();
    m.insert("longPressMs".to_string(), Value::from(800));
    assert_eq!(parse_settings(&m), 800);
    m.insert("longPressMs".to_string(), Value::from(" 900 "));
    assert_eq!(parse_settings(&m), 900);
    m.insert("longPressMs".to_string(), Value::from("soon"));
    assert_eq!(parse_settings(&m), 500);
}

#[test]
fn stopwatch_load_state_adds_time_away() {
    let mut entry = Object::new();
    entry.insert("elapsed_ms".to_string(), Value::from(5_000u64));
    assert_eq!(load_state(&entry, 9_999), (5_000, false));
    entry.insert("anchor_unix_ms".to_string(), Value::from(10_000u64));
    assert_eq!(load_state(&entry, 12_500), (7_500, true));
    assert_eq!(load_state(&entry, 9_000), (5_000, true));
}

#[test]
fn stopwatch_starts_counts_and_stops() {
    let mut t = StopwatchAction::new();
    let e = short_press(&mut t, 500);
    let captured = e.launch.expect("a loop is launched");
    assert_eq!(
        e.persist,
        Persist::Save(PersistedSnapshot { accumulated_ms: 0, anchor_unix_ms: Some(500) })
    );
    let mut shown = Vec::new();
    for _ in 0..31 {
        if let Some(secs) = t.tick(captured).1.render_secs {
            shown.push(secs);
        }
    }
    assert_eq!(shown, vec![1, 2, 3]);
    assert_eq!(t.ticks.value_ms, 3_100);
    let e = short_press(&mut t, 3_600);
    assert_eq!(
        e,
        Effects {
            render_secs: Some(3),
            persist: Persist::Save(PersistedSnapshot {
                accumulated_ms: 3_100,
                anchor_unix_ms: None
            }),
            ..QUIET
        }
    );
    assert_eq!(t.tick(captured), (TickOutcome::Exit, QUIET));
    // Starting again goes on from where it stopped.
    let captured = short_press(&mut t, 9_000).launch.unwrap();
    t.tick(captured);
    assert_eq!(t.ticks.value_ms, 3_200);
}

#[test]
fn stopwatch_long_press_resets_to_zero() {
    let mut t = StopwatchAction::new();
    let captured = short_press(&mut t, 0).launch.unwrap();
    for _ in 0..12 {
        t.tick(captured);
    }
    let d = t.key_down().arm.unwrap();
    assert_eq!(
        t.long_press(d.epoch),
        Effects { render_secs: Some(0), persist: Persist::Clear, ..QUIET }
    );
    assert_eq!(t.ticks.value_ms, 0);
    assert!(!t.ticks.is_running());
    assert_eq!(t.tick(captured).0, TickOutcome::Exit);
    assert_eq!(t.key_up(5_000), (PressOutcome::LongAlreadyFired, QUIET));
    assert_eq!(t.ticks.value_ms, 0);
}

#[test]
fn stopwatch_init_resumes() {
    let mut t = StopwatchAction::new();
    let saved = PersistedSnapshot { accumulated_ms: 5_000, anchor_unix_ms: Some(100) };
    let e = t.init(Some(&encode_snapshot(&saved, "elapsed_ms")), 2_600);
    let captured = e.launch.expect("a loop is launched");
    assert_eq!(e.render_secs, Some(7));
    assert_eq!(
        e.persist,
        Persist::Save(PersistedSnapshot { accumulated_ms: 7_500, anchor_unix_ms: Some(2_600) })
    );
    t.tick(captured);
    assert_eq!(t.ticks.value_ms, 7_600);
}

#[test]
fn stopwatch_init_without_record_shows_zero() {
    let mut t = StopwatchAction::new();
    assert_eq!(t.init(None, 1), Effects { render_secs: Some(0), ..QUIET });
    assert!(!t.ticks.is_running());
}

#[test]
fn stopwatch_teardown_and_settings() {
    let mut t = StopwatchAction::new();
    let mut m = Object::new();
    m.insert("longPressMs".to_string(), Value::from(50));
    t.did_receive_settings(&m);
    assert_eq!(t.press.delay_ms, 50);
    let captured = short_press(&mut t, 0).launch.unwrap();
    t.tick(captured);
    assert_eq!(
        t.teardown(42),
        PersistedSnapshot { accumulated_ms: 100, anchor_unix_ms: Some(42) }
    );
    assert!(!t.ticks.is_running());
}
