use deck_counter::computed::{collect_idents, compute, parse_settings, ComputedAction, ExprConfig};
use deck_counter::topics::CounterChanged;
use serde_json::Value;

type Object = serde_json::Map<String, Value>;

fn object(pairs: &[(&str, Value)]) -> Object {
    let mut m = Object::new();
    for (k, v) in pairs {
        m.insert(k.to_string(), v.clone());
    }
    m
}

fn config(expr: &str, missing_as_zero: bool) -> ExprConfig {
    ExprConfig { expression: Some(expr.to_string()), missing_as_zero }
}

#[test]
fn formula_settings() {
    assert_eq!(
        parse_settings(&Object::new()),
        ExprConfig { expression: None, missing_as_zero: true }
    );
    let c = parse_settings(&object(&[
        ("expression", Value::from("  a + 1 \n")),
        ("missingAsZero", Value::from(false)),
    ]));
    assert_eq!(c, config("a + 1", false));
    let c = parse_settings(&object(&[("expression", Value::from(" \t "))]));
    assert_eq!(c.expression, None);
    let c = parse_settings(&object(&[("missingAsZero", Value::from("false"))]));
    assert!(c.missing_as_zero);
}

#[test]
fn empty_formula_is_zero() {
    let counters = Object::new();
    assert_eq!(compute(&ExprConfig { expression: None, missing_as_zero: true }, &counters), 0);
    assert_eq!(compute(&config("   ", true), &counters), 0);
    assert_eq!(compute(&config("()", true), &counters), 0);
}

#[test]
fn formula_reads_counters() {
    let counters = object(&[("kills", Value::from(12)), ("deaths", Value::from(5))]);
    assert_eq!(compute(&config("kills - deaths", true), &counters), 7);
    assert_eq!(compute(&config("kills * 2 + deaths", true), &counters), 29);
    assert_eq!(compute(&config("(kills + deaths) / 2", true), &counters), 8);
}

#[test]
fn missing_counter_counts_as_configured() {
    let counters = object(&[("a", Value::from(10))]);
    assert_eq!(compute(&config("a + b", true), &counters), 10);
    assert_eq!(compute(&config("a + b", false), &counters), 11);
    assert_eq!(compute(&config("a / b", true), &counters), 0);
    assert_eq!(compute(&config("a / b", false), &counters), 10);
}

#[test]
fn quoted_names_reach_any_key() {
    let counters = object(&[("team score", Value::from(4)), ("x-1", Value::from(6))]);
    assert_eq!(compute(&config("\"team score\" + 'x-1'", true), &counters), 10);
    assert_eq!(compute(&config("var(\"team score\") * VAR ( `x-1` )", true), &counters), 24);
}

#[test]
fn identifiers_are_collected_once() {
    let mut names = collect_idents("a + b * a - var('c d') + \"b\"");
    names.sort();
    assert_eq!(names, vec!["a".to_string(), "b".to_string(), "c d".to_string()]);
    assert!(collect_idents("1 + 2").is_empty());
    assert!(collect_idents("").is_empty());
}

#[test]
fn settings_replace_formula_and_dependencies() {
    let mut a = ComputedAction::new();
    let counters = object(&[("a", Value::from(2)), ("b", Value::from(3))]);
    let v = a.did_receive_settings(&object(&[("expression", Value::from(" a * b "))]), &counters);
    assert_eq!(v, 6);
    assert_eq!(a.config, config("a * b", true));
    let mut deps = a.deps.clone();
    deps.sort();
    assert_eq!(deps, vec!["a".to_string(), "b".to_string()]);
}

#[test]
fn notification_recomputes_only_for_dependencies() {
    let mut a = ComputedAction::new();
    let counters = object(&[("a", Value::from(2)), ("b", Value::from(3))]);
    a.did_receive_settings(&object(&[("expression", Value::from("a + b"))]), &counters);
    let changed = |key: &str| CounterChanged { counter_key: key.to_string(), value: 0 };
    assert_eq!(a.on_notify(&changed("a"), &counters), Some(5));
    assert_eq!(a.on_notify(&changed("b"), &counters), Some(5));
    assert_eq!(a.on_notify(&changed("c"), &counters), None);
}

#[test]
fn formula_without_names_follows_every_change() {
    let mut a = ComputedAction::new();
    let counters = Object::new();
    a.did_receive_settings(&object(&[("expression", Value::from("2 + 2"))]), &counters);
    let event = CounterChanged { counter_key: "anything".to_string(), value: 1 };
    assert_eq!(a.on_notify(&event, &counters), Some(4));
    let fresh = ComputedAction::new();
    assert_eq!(fresh.on_notify(&event, &counters), Some(0));
}

#[test]
fn spelled_expression_is_computed_to_its_value() {
    // ("a" - ("b" - 3)) * - "c", with a space between every two lexemes.
    let counters = object(&[("a", Value::from(10)), ("b", Value::from(4)), ("c", Value::from(2))]);
    let text = "( \"a\" - ( \"b\" - 3 ) ) * - \"c\"";
    assert_eq!(compute(&config(text, true), &counters), (10 - (4 - 3)) * -2);
    let text = "\"a\" - \"b\" - 3 * \"c\" / 4";
    assert_eq!(compute(&config(text, true), &counters), 10 - 4 - 3 * 2 / 4);
}
