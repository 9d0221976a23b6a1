use deck_counter::settings::{get_bool, get_i64, get_str, get_u64};
use serde_json::Value;

type Object = serde_json::Map<String, Value>;

fn one(value: Value) -> Object {
    let mut m = Object::new();
    m.insert("k".to_string(), value);
    m
}

#[test]
fn missing_key_gives_nothing() {
    let m = Object::new();
    assert_eq!(get_str(&m, "k"), None);
    assert_eq!(get_i64(&m, "k"), None);
    assert_eq!(get_u64(&m, "k"), None);
    assert_eq!(get_bool(&m, "k"), None);
}

#[test]
fn text_is_read_as_text_only() {
    assert_eq!(get_str(&one(Value::from("abc")), "k"), Some("abc".to_string()));
    assert_eq!(get_str(&one(Value::from(5)), "k"), None);
    assert_eq!(get_str(&one(Value::Null), "k"), None);
    assert_eq!(get_str(&one(Value::from("abc")), "other"), None);
}

#[test]
fn numbers_are_read_by_range() {
    assert_eq!(get_i64(&one(Value::from(-5)), "k"), Some(-5));
    assert_eq!(get_u64(&one(Value::from(-5)), "k"), None);
    assert_eq!(get_u64(&one(Value::from(u64::MAX)), "k"), Some(u64::MAX));
    assert_eq!(get_i64(&one(Value::from(u64::MAX)), "k"), None);
    assert_eq!(get_i64(&one(Value::from(i64::MIN)), "k"), Some(i64::MIN));
    assert_eq!(get_i64(&one(Value::from(2.5)), "k"), None);
    assert_eq!(get_u64(&one(Value::from(2.0)), "k"), None);
}

#[test]
fn text_that_spells_a_number_is_trimmed_and_parsed() {
    assert_eq!(get_i64(&one(Value::from(" -12 ")), "k"), Some(-12));
    assert_eq!(get_i64(&one(Value::from("+7")), "k"), Some(7));
    assert_eq!(get_i64(&one(Value::from("\u{2003}5\u{3000}\n")), "k"), Some(5));
    assert_eq!(get_i64(&one(Value::from("-9223372036854775808")), "k"), Some(i64::MIN));
    assert_eq!(get_u64(&one(Value::from("18446744073709551615")), "k"), Some(u64::MAX));
    assert_eq!(get_u64(&one(Value::from("\t0042")), "k"), Some(42));
}

#[test]
fn text_that_spells_no_number_gives_nothing() {
    for bad in ["", " ", "+", "-", "1 2", "1_000", "0x10", "12a", "--1", "+-1", "1.0", "٣"] {
        assert_eq!(get_i64(&one(Value::from(bad)), "k"), None, "{:?}", bad);
        assert_eq!(get_u64(&one(Value::from(bad)), "k"), None, "{:?}", bad);
    }
    assert_eq!(get_u64(&one(Value::from("-1")), "k"), None);
    assert_eq!(get_u64(&one(Value::from("-0")), "k"), None);
    assert_eq!(get_i64(&one(Value::from("-0")), "k"), Some(0));
    assert_eq!(get_i64(&one(Value::from("9223372036854775808")), "k"), None);
    assert_eq!(get_i64(&one(Value::from("-9223372036854775809")), "k"), None);
    assert_eq!(get_u64(&one(Value::from("18446744073709551616")), "k"), None);
}

#[test]
fn flags_are_read_as_flags_only() {
    assert_eq!(get_bool(&one(Value::from(true)), "k"), Some(true));
    assert_eq!(get_bool(&one(Value::from(false)), "k"), Some(false));
    assert_eq!(get_bool(&one(Value::from("true")), "k"), None);
    assert_eq!(get_bool(&one(Value::from(1)), "k"), None);
}
