use deck_counter::counter::{
    apply, get_op, parse_settings, update, CounterAction, CounterSettings, Op,
};
use deck_counter::press::{Deadline, PressOutcome, PressPhase};
use deck_counter::topics::CounterChanged;
use serde_json::Value;

type Object = serde_json::Map<String, Value>;

fn object(pairs: &[(&str, Value)]) -> Object {
    let mut m = Object::new();
    for (k, v) in pairs {
        m.insert(k.to_string(), v.clone());
    }
    m
}

#[test]
fn apply_follows_the_operation() {
    assert_eq!(apply(Op::Noop, 7, 3, 100), 7);
    assert_eq!(apply(Op::Add, 7, 3, 100), 10);
    assert_eq!(apply(Op::Subtract, 7, 3, 100), 4);
    assert_eq!(apply(Op::Multiply, 7, 3, 100), 21);
    assert_eq!(apply(Op::Divide, 7, 3, 100), 2);
    assert_eq!(apply(Op::Reset, 7, 3, 100), 100);
    assert_eq!(apply(Op::Assign, 7, 3, 100), 3);
}

#[test]
fn arithmetic_saturates() {
    assert_eq!(apply(Op::Add, i64::MAX, 1, 0), i64::MAX);
    assert_eq!(apply(Op::Add, i64::MIN, -1, 0), i64::MIN);
    assert_eq!(apply(Op::Subtract, i64::MIN, 1, 0), i64::MIN);
    assert_eq!(apply(Op::Subtract, i64::MAX, -1, 0), i64::MAX);
    assert_eq!(apply(Op::Multiply, i64::MAX, 2, 0), i64::MAX);
    assert_eq!(apply(Op::Multiply, i64::MAX, -2, 0), i64::MIN);
    assert_eq!(apply(Op::Multiply, i64::MIN, -1, 0), i64::MAX);
    assert_eq!(apply(Op::Divide, i64::MIN, -1, 0), i64::MAX);
}

#[test]
fn division_rounds_toward_zero() {
    assert_eq!(apply(Op::Divide, -7, 2, 0), -3);
    assert_eq!(apply(Op::Divide, 7, -2, 0), -3);
    assert_eq!(apply(Op::Divide, -7, -2, 0), 3);
    assert_eq!(apply(Op::Divide, 0, -2, 0), 0);
}

#[test]
fn divide_by_zero_is_a_no_op() {
    assert_eq!(apply(Op::Divide, 42, 0, 5), 42);
    assert_eq!(update(Op::Divide, 42, 0, 5), None);
    assert_eq!(update(Op::Divide, i64::MIN, 0, 5), None);
}

#[test]
fn reset_always_counts_as_a_change() {
    assert_eq!(update(Op::Reset, 42, 9, 5), Some(5));
    assert_eq!(update(Op::Reset, 5, 9, 5), Some(5));
}

#[test]
fn unchanged_value_is_not_a_change() {
    assert_eq!(update(Op::Noop, 42, 9, 5), None);
    assert_eq!(update(Op::Add, 42, 0, 5), None);
    assert_eq!(update(Op::Assign, 42, 42, 5), None);
    assert_eq!(update(Op::Add, i64::MAX, 1, 5), None);
    assert_eq!(update(Op::Add, 42, 1, 5), Some(43));
}

#[test]
fn settings_default_when_empty() {
    let s = parse_settings(&Object::new());
    assert_eq!(
        s,
        CounterSettings {
            counter_id: String::new(),
            initial_value: 0,
            short_action: Op::Add,
            short_value: 1,
            long_action: Op::Noop,
            long_value: 0,
            long_press_ms: 500,
        }
    );
}

#[test]
fn settings_read_numbers_and_texts() {
    let s = parse_settings(&object(&[
        ("counterId", Value::from("deaths")),
        ("initialValue", Value::from(10)),
        ("shortAction", Value::from("subtract")),
        ("shortValue", Value::from(" 2 ")),
        ("longAction", Value::from("reset")),
        ("longValue", Value::from(-4)),
        ("longPressMs", Value::from("750")),
    ]));
    assert_eq!(
        s,
        CounterSettings {
            counter_id: "deaths".to_string(),
            initial_value: 10,
            short_action: Op::Subtract,
            short_value: 2,
            long_action: Op::Reset,
            long_value: -4,
            long_press_ms: 750,
        }
    );
}

#[test]
fn malformed_settings_fall_back() {
    let s = parse_settings(&object(&[
        ("counterId", Value::from(5)),
        ("initialValue", Value::from("ten")),
        ("shortAction", Value::from("ADD")),
        ("shortValue", Value::Null),
        ("longAction", Value::from(true)),
        ("longValue", Value::from(1.5)),
        ("longPressMs", Value::from(-1)),
    ]));
    assert_eq!(
        s,
        CounterSettings {
            counter_id: String::new(),
            initial_value: 0,
            short_action: Op::Add,
            short_value: 1,
            long_action: Op::Noop,
            long_value: 0,
            long_press_ms: 500,
        }
    );
}

#[test]
fn every_operation_has_its_name() {
    let names = [
        ("none", Op::Noop),
        ("add", Op::Add),
        ("subtract", Op::Subtract),
        ("multiply", Op::Multiply),
        ("divide", Op::Divide),
        ("reset", Op::Reset),
        ("set", Op::Assign),
    ];
    for (name, op) in names {
        let m = object(&[("k", Value::from(name))]);
        assert_eq!(get_op(&m, "k"), Some(op));
    }
    assert_eq!(get_op(&object(&[("k", Value::from("sets"))]), "k"), None);
    assert_eq!(get_op(&object(&[]), "k"), None);
}

fn settings() -> Object {
    object(&[
        ("initialValue", Value::from(10)),
        ("shortAction", Value::from("add")),
        ("shortValue", Value::from(1)),
        ("longAction", Value::from("reset")),
        ("longPressMs", Value::from(400)),
    ])
}

#[test]
fn key_down_sets_up_the_counter_and_arms() {
    let mut a = CounterAction::new();
    let mut counters = Object::new();
    let (shown, deadline) = a.key_down(&settings(), "ctx", &mut counters);
    assert_eq!(shown, 10);
    assert_eq!(deadline, Deadline { epoch: 1, delay_ms: 400 });
    assert_eq!(counters.get("ctx"), Some(&Value::from(10)));
    assert_eq!(a.counter_key.as_deref(), Some("ctx"));
    assert_eq!(a.press.phase, PressPhase::Armed(1));
}

#[test]
fn short_press_applies_the_short_operation() {
    let mut a = CounterAction::new();
    let mut counters = Object::new();
    a.key_down(&settings(), "ctx", &mut counters);
    let (outcome, change) = a.key_up("ctx", &mut counters);
    assert_eq!(outcome, PressOutcome::Short);
    assert_eq!(change, Some(CounterChanged { counter_key: "ctx".to_string(), value: 11 }));
    assert_eq!(counters.get("ctx"), Some(&Value::from(11)));
}

#[test]
fn long_press_applies_the_long_operation_and_suppresses_the_short() {
    let mut a = CounterAction::new();
    let mut counters = object(&[("ctx", Value::from(25))]);
    let (shown, deadline) = a.key_down(&settings(), "ctx", &mut counters);
    assert_eq!(shown, 25);
    let change = a.long_press(deadline.epoch, "ctx", &mut counters);
    assert_eq!(change, Some(CounterChanged { counter_key: "ctx".to_string(), value: 10 }));
    assert_eq!(counters.get("ctx"), Some(&Value::from(10)));
    let (outcome, change) = a.key_up("ctx", &mut counters);
    assert_eq!(outcome, PressOutcome::LongAlreadyFired);
    assert_eq!(change, None);
    assert_eq!(counters.get("ctx"), Some(&Value::from(10)));
}

#[test]
fn late_deadline_changes_nothing() {
    let mut a = CounterAction::new();
    let mut counters = Object::new();
    let (_, deadline) = a.key_down(&settings(), "ctx", &mut counters);
    a.key_up("ctx", &mut counters);
    let before = counters.clone();
    assert_eq!(a.long_press(deadline.epoch, "ctx", &mut counters), None);
    assert_eq!(counters, before);
}

#[test]
fn divide_by_zero_press_is_not_announced() {
    let mut a = CounterAction::new();
    let mut counters = object(&[("ctx", Value::from(8))]);
    let s = object(&[("shortAction", Value::from("divide")), ("shortValue", Value::from(0))]);
    a.key_down(&s, "ctx", &mut counters);
    let (outcome, change) = a.key_up("ctx", &mut counters);
    assert_eq!(outcome, PressOutcome::Short);
    assert_eq!(change, None);
    assert_eq!(counters.get("ctx"), Some(&Value::from(8)));
}

#[test]
fn reset_press_is_announced_even_at_the_initial_value() {
    let mut a = CounterAction::new();
    let mut counters = object(&[("ctx", Value::from(3))]);
    let s = object(&[("shortAction", Value::from("reset")), ("initialValue", Value::from(3))]);
    a.key_down(&s, "ctx", &mut counters);
    let (_, change) = a.key_up("ctx", &mut counters);
    assert_eq!(change, Some(CounterChanged { counter_key: "ctx".to_string(), value: 3 }));
}

#[test]
fn release_without_press_does_nothing() {
    let mut a = CounterAction::new();
    let mut counters = object(&[("ctx", Value::from(3))]);
    let (outcome, change) = a.key_up("ctx", &mut counters);
    assert_eq!(outcome, PressOutcome::Short);
    assert_eq!(change, None);
}

#[test]
fn shared_counter_is_used_when_named() {
    let mut a = CounterAction::new();
    let mut counters = Object::new();
    let s = object(&[("counterId", Value::from("team")), ("shortValue", Value::from(5))]);
    a.key_down(&s, "ctx", &mut counters);
    let (_, change) = a.key_up("ctx", &mut counters);
    assert_eq!(change, Some(CounterChanged { counter_key: "team".to_string(), value: 5 }));
    assert_eq!(counters.get("team"), Some(&Value::from(5)));
    assert_eq!(counters.get("ctx"), None);
}

#[test]
fn settings_event_shows_the_current_value() {
    let mut a = CounterAction::new();
    let mut counters = object(&[("team", Value::from(77))]);
    let s = object(&[("counterId", Value::from("team"))]);
    assert_eq!(a.did_receive_settings(&s, "ctx", &mut counters), 77);
    assert_eq!(a.counter_key.as_deref(), Some("team"));
}

#[test]
fn notification_is_drawn_only_for_the_own_counter() {
    let mut a = CounterAction::new();
    let mine = CounterChanged { counter_key: "ctx".to_string(), value: 4 };
    let other = CounterChanged { counter_key: "team".to_string(), value: 9 };
    // Before the key is known the context id stands for it.
    assert_eq!(a.on_notify("ctx", &mine), Some(4));
    assert_eq!(a.on_notify("ctx", &other), None);
    let mut counters = Object::new();
    a.did_receive_settings(&object(&[("counterId", Value::from("team"))]), "ctx", &mut counters);
    assert_eq!(a.on_notify("ctx", &mine), None);
    assert_eq!(a.on_notify("ctx", &other), Some(9));
}
