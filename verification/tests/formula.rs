use deck_counter::eval::eval_rpn;
use deck_counter::formula::{BinOp, Tok};
use deck_counter::lexer::tokenize;
use deck_counter::rpn::to_rpn;
use deck_counter::state::counter_key;
use serde_json::Value;

fn store(pairs: &[(&str, i64)]) -> serde_json::Map<String, Value> {
    let mut m = serde_json::Map::new();
    for (k, v) in pairs {
        m.insert(k.to_string(), Value::from(*v));
    }
    m
}

fn eval(expr: &str, pairs: &[(&str, i64)], missing_as_zero: bool) -> i64 {
    let ts = tokenize(expr);
    let rpn = to_rpn(&ts);
    eval_rpn(&rpn, &ts.names, &store(pairs), missing_as_zero)
}

#[test]
fn tokenize_numbers_and_operators() {
    let ts = tokenize("1 + 23*4");
    assert_eq!(
        ts.toks,
        vec![
            Tok::Num(1),
            Tok::Op(BinOp::Add),
            Tok::Num(23),
            Tok::Op(BinOp::Mul),
            Tok::Num(4)
        ]
    );
    assert!(ts.names.is_empty());
}

#[test]
fn precedence_and_parentheses() {
    assert_eq!(eval("1 + 2 * 3", &[], true), 7);
    assert_eq!(eval("(1 + 2) * 3", &[], true), 9);
    assert_eq!(eval("10 - 4 - 3", &[], true), 3);
    assert_eq!(eval("2 * -3", &[], true), -6);
}

#[test]
fn counter_key_prefers_shared_id() {
    assert_eq!(counter_key("shared", "ctx-1"), "shared");
    assert_eq!(counter_key("  \t", "ctx-1"), "ctx-1");
    assert_eq!(counter_key("", "ctx-1"), "ctx-1");
}

#[test]
fn unary_and_binary_minus() {
    let ts = tokenize("-a - -b");
    assert_eq!(
        ts.toks,
        vec![Tok::UMinus, Tok::Var(0), Tok::Op(BinOp::Sub), Tok::UMinus, Tok::Var(1)]
    );
    assert_eq!(ts.names, vec!["a".to_string(), "b".to_string()]);
    assert_eq!(eval("-a - -b", &[("a", 3), ("b", 10)], true), 7);
    assert_eq!(eval("(1) - 2", &[], true), -1);
    assert_eq!(eval("(- 2)", &[], true), -2);
}

#[test]
fn words_quotes_and_call_form_name_variables() {
    let ts = tokenize("foo_1 + \"two words\" + var('x') + Var ( `y z` ) + var + var(x)");
    assert_eq!(
        ts.names,
        vec![
            "foo_1".to_string(),
            "two words".to_string(),
            "x".to_string(),
            "y z".to_string(),
            "var".to_string(),
            "var".to_string(),
            "x".to_string()
        ]
    );
    assert_eq!(ts.toks.len(), 7 + 5 + 2);
    assert_eq!(ts.toks[12], Tok::Var(6));
    assert_eq!(ts.toks[13], Tok::RParen);
}

#[test]
fn unknown_characters_and_open_quotes_are_passed_over() {
    let ts = tokenize("1 $ + # 2 \u{e9} 'open");
    assert_eq!(
        ts.toks,
        vec![Tok::Num(1), Tok::Op(BinOp::Add), Tok::Num(2), Tok::Var(0)]
    );
    assert_eq!(ts.names, vec!["open".to_string()]);
    assert!(tokenize("").toks.is_empty());
    assert!(tokenize(" \t\n ").toks.is_empty());
}

#[test]
fn number_that_does_not_fit_is_zero() {
    assert_eq!(tokenize("9223372036854775807").toks, vec![Tok::Num(i64::MAX)]);
    assert_eq!(tokenize("9223372036854775808").toks, vec![Tok::Num(0)]);
    assert_eq!(tokenize("00000000000000000000000012").toks, vec![Tok::Num(12)]);
    assert_eq!(tokenize("12abc").toks, vec![Tok::Num(12), Tok::Var(0)]);
}

#[test]
fn postfix_order() {
    let ts = tokenize("a + b * (c - 1)");
    assert_eq!(
        to_rpn(&ts),
        vec![
            Tok::Var(0),
            Tok::Var(1),
            Tok::Var(2),
            Tok::Num(1),
            Tok::Op(BinOp::Sub),
            Tok::Op(BinOp::Mul),
            Tok::Op(BinOp::Add)
        ]
    );
    // Unbalanced parentheses are dropped.
    assert_eq!(to_rpn(&tokenize("(1 + 2")), vec![Tok::Num(1), Tok::Num(2), Tok::Op(BinOp::Add)]);
    assert_eq!(to_rpn(&tokenize("1 + 2)")), vec![Tok::Num(1), Tok::Num(2), Tok::Op(BinOp::Add)]);
}

#[test]
fn evaluation_saturates_and_never_faults() {
    assert_eq!(eval("9223372036854775807 + 1", &[], true), i64::MAX);
    assert_eq!(eval("-9223372036854775807 - 2", &[], true), i64::MIN);
    assert_eq!(eval("9223372036854775807 * 2", &[], true), i64::MAX);
    assert_eq!(eval("a / -1", &[("a", i64::MIN)], true), i64::MAX);
    assert_eq!(eval("-a", &[("a", i64::MIN)], true), i64::MAX);
    assert_eq!(eval("7 / 0", &[], true), 0);
    assert_eq!(eval("-7 / 2", &[], true), -3);
    assert_eq!(eval("7 / -2", &[], true), -3);
}

#[test]
fn missing_operands_count_as_zero() {
    assert_eq!(eval("+", &[], true), 0);
    assert_eq!(eval("5 +", &[], true), 5);
    assert_eq!(eval("* 5", &[], true), 0);
    assert_eq!(eval("-", &[], true), 0);
    assert_eq!(eval("1 2 3", &[], true), 3);
}

#[test]
fn missing_variables() {
    assert_eq!(eval("a", &[], true), 0);
    assert_eq!(eval("a", &[], false), 1);
    assert_eq!(eval("a * 5", &[("a", 4)], false), 20);
}

#[test]
fn operators_associate_to_the_left() {
    assert_eq!(eval("100 / 5 / 2", &[], true), 10);
    assert_eq!(eval("100 - 5 + 2", &[], true), 97);
    assert_eq!(eval("2 * 3 / 4", &[], true), 1);
    assert_eq!(eval("1 - (2 - 3)", &[], true), 2);
}

#[test]
fn negation_applies_to_what_follows() {
    assert_eq!(eval("-(-5)", &[], true), 5);
    assert_eq!(eval("-a * b", &[("a", 2), ("b", 3)], true), -6);
    assert_eq!(eval("a - -b", &[("a", 2), ("b", 3)], true), 5);
    assert_eq!(eval("-(a + b) * 2", &[("a", 2), ("b", 3)], true), -10);
}
