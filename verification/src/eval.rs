//! Evaluating a formula in postfix order over the shared counters.

use vstd::prelude::*;
use crate::arith::{clamp, quotient, sat_add, sat_div, sat_mul, sat_neg, sat_sub};
use crate::formula::{lexeme_of, lexemes, names_cover, names_of, BinOp, Lexeme, Tok};
use crate::json::{fields, read_field, signed_at, Field, FieldView};

verus! {

/// 0 or 1 as the formula's setting for missing variables says.
pub open spec fn operand(found: Option<i64>, missing_as_zero: bool) -> i64 {
    match found {
        Some(v) => v,
        None => if missing_as_zero {
            0
        } else {
            1
        },
    }
}

/// The top of an evaluation stack, 0 where the stack is empty.
pub open spec fn top(st: Seq<i64>) -> i64 {
    if st.len() > 0 {
        st.last()
    } else {
        0
    }
}

/// An evaluation stack without its top.
pub open spec fn popped(st: Seq<i64>) -> Seq<i64> {
    if st.len() > 0 {
        st.drop_last()
    } else {
        st
    }
}

/// A binary operation on two values: saturating, with division rounded
/// toward zero and a division by zero giving 0.
pub open spec fn combine(op: BinOp, a: i64, b: i64) -> i64 {
    match op {
        BinOp::Add => clamp(a + b),
        BinOp::Sub => clamp(a - b),
        BinOp::Mul => clamp(a * b),
        BinOp::Div => if b == 0 {
            0
        } else {
            clamp(quotient(a as int, b as int))
        },
    }
}

/// The evaluation stack after one more postfix lexeme.
pub open spec fn eval_step(
    st: Seq<i64>,
    x: Lexeme,
    store: Map<Seq<char>, FieldView>,
    missing_as_zero: bool,
) -> Seq<i64> {
    match x {
        Lexeme::Num(n) => st.push(n),
        Lexeme::Name(name) => st.push(operand(signed_at(store, name), missing_as_zero)),
        Lexeme::UMinus => popped(st).push(clamp(-top(st))),
        Lexeme::Op(op) => popped(popped(st)).push(combine(op, top(popped(st)), top(st))),
        Lexeme::LParen => st,
        Lexeme::RParen => st,
    }
}

/// The evaluation stack after all of `xs`, starting from `st`.
pub open spec fn eval_from(
    st: Seq<i64>,
    xs: Seq<Lexeme>,
    store: Map<Seq<char>, FieldView>,
    missing_as_zero: bool,
) -> Seq<i64>
    decreases xs.len(),
{
    if xs.len() == 0 {
        st
    } else {
        eval_step(
            eval_from(st, xs.drop_last(), store, missing_as_zero),
            xs.last(),
            store,
            missing_as_zero,
        )
    }
}

/// The evaluation stack after all of `xs`, starting empty.
pub open spec fn eval_all(
    xs: Seq<Lexeme>,
    store: Map<Seq<char>, FieldView>,
    missing_as_zero: bool,
) -> Seq<i64> {
    eval_from(Seq::empty(), xs, store, missing_as_zero)
}

/// The value of a postfix formula over the counters in `store`.
pub open spec fn eval_of(
    xs: Seq<Lexeme>,
    store: Map<Seq<char>, FieldView>,
    missing_as_zero: bool,
) -> i64 {
    top(eval_all(xs, store, missing_as_zero))
}

fn pop_or_zero(st: &mut Vec<i64>) -> (v: i64)
    ensures
        v == top(old(st)@),
        final(st)@ == popped(old(st)@),
{
    match st.pop() {
        Some(v) => v,
        None => 0,
    }
}

/// Applies a binary operator to two values.
pub fn apply_op(op: BinOp, a: i64, b: i64) -> (v: i64)
    ensures
        v == combine(op, a, b),
{
    match op {
        BinOp::Add => sat_add(a, b),
        BinOp::Sub => sat_sub(a, b),
        BinOp::Mul => sat_mul(a, b),
        BinOp::Div => if b == 0 {
            0
        } else {
            sat_div(a, b)
        },
    }
}

/// Evaluates a postfix formula. A variable takes the integer that
/// `counters` holds under its name; one that is missing there counts as 0,
/// or as 1 where `missing_as_zero` is off. An operator that finds the stack
/// short takes 0 for what is missing, and the result is the top of the
/// stack at the end, 0 for an empty formula.
pub fn eval_rpn(
    rpn: &Vec<Tok>,
    names: &Vec<String>,
    counters: &serde_json::Map<String, serde_json::Value>,
    missing_as_zero: bool,
) -> (v: i64)
    requires
        names_cover(rpn@, names@.len()),
    ensures
        v == eval_of(lexemes(rpn@, names_of(names@)), fields(*counters), missing_as_zero),
{
    let ghost nm = names_of(names@);
    let ghost xs = lexemes(rpn@, nm);
    let ghost store = fields(*counters);
    let mut st: Vec<i64> = Vec::new();
    let mut k: usize = 0;
    assert(xs.take(0) =~= Seq::<Lexeme>::empty());
    while k < rpn.len()
        invariant
            k <= rpn.len(),
            names_cover(rpn@, names@.len()),
            nm == names_of(names@),
            xs == lexemes(rpn@, nm),
            store == fields(*counters),
            st@ == eval_all(xs.take(k as int), store, missing_as_zero),
        decreases rpn.len() - k,
    {
        let t = rpn[k];
        proof {
            assert(xs.take(k + 1).drop_last() =~= xs.take(k as int));
            assert(xs.take(k + 1).last() == lexeme_of(t, nm));
        }
        match t {
            Tok::Num(n) => {
                st.push(n);
            },
            Tok::Var(idx) => {
                let v = match read_field(counters, names[idx].as_str()) {
                    Field::Number(_, Some(v)) => v,
                    _ => if missing_as_zero {
                        0
                    } else {
                        1
                    },
                };
                st.push(v);
            },
            Tok::UMinus => {
                let x = pop_or_zero(&mut st);
                st.push(sat_neg(x));
            },
            Tok::Op(op) => {
                let b = pop_or_zero(&mut st);
                let a = pop_or_zero(&mut st);
                st.push(apply_op(op, a, b));
            },
            _ => {},
        }
        k = k + 1;
    }
    assert(xs.take(k as int) =~= xs);
    pop_or_zero(&mut st)
}

} // verus!
