//! Reordering a formula from infix to postfix by operator precedence.

use vstd::prelude::*;
use crate::formula::{lexeme_of, lexemes, names_cover, names_of, BinOp, Lexeme, Tok, TokStream};

verus! {

/// Whether a lexeme is an operator, unary or binary.
pub open spec fn is_operator(x: Lexeme) -> bool {
    x is UMinus || x is Op
}

/// How tightly an operator binds; -1 for what is no operator.
pub open spec fn prec(x: Lexeme) -> int {
    match x {
        Lexeme::UMinus => 3,
        Lexeme::Op(BinOp::Mul) | Lexeme::Op(BinOp::Div) => 2,
        Lexeme::Op(BinOp::Add) | Lexeme::Op(BinOp::Sub) => 1,
        _ => -1,
    }
}

/// The state of the reordering: the postfix output so far and the stack of
/// operators and parentheses that wait.
pub struct Yard {
    pub out: Seq<Lexeme>,
    pub ops: Seq<Lexeme>,
}

/// The yard before the first lexeme.
pub open spec fn empty_yard() -> Yard {
    Yard { out: Seq::empty(), ops: Seq::empty() }
}

/// Moves to the output every waiting operator on top of the stack that
/// binds at least as tightly as `x`.
pub open spec fn yield_to(y: Yard, x: Lexeme) -> Yard
    decreases y.ops.len(),
{
    if y.ops.len() > 0 && is_operator(y.ops.last()) && prec(y.ops.last()) >= prec(x) {
        yield_to(Yard { out: y.out.push(y.ops.last()), ops: y.ops.drop_last() }, x)
    } else {
        y
    }
}

/// Moves waiting operators to the output down to the nearest opening
/// parenthesis, which is dropped.
pub open spec fn close_paren(y: Yard) -> Yard
    decreases y.ops.len(),
{
    if y.ops.len() == 0 {
        y
    } else if y.ops.last() is LParen {
        Yard { out: y.out, ops: y.ops.drop_last() }
    } else {
        close_paren(Yard { out: y.out.push(y.ops.last()), ops: y.ops.drop_last() })
    }
}

/// The output once everything that waits has been moved to it, unmatched
/// opening parentheses dropped.
pub open spec fn flush(y: Yard) -> Seq<Lexeme>
    decreases y.ops.len(),
{
    if y.ops.len() == 0 {
        y.out
    } else if y.ops.last() is LParen {
        flush(Yard { out: y.out, ops: y.ops.drop_last() })
    } else {
        flush(Yard { out: y.out.push(y.ops.last()), ops: y.ops.drop_last() })
    }
}

/// The yard after one more lexeme.
pub open spec fn feed(y: Yard, x: Lexeme) -> Yard {
    match x {
        Lexeme::Num(_) | Lexeme::Name(_) => Yard { out: y.out.push(x), ops: y.ops },
        Lexeme::UMinus | Lexeme::Op(_) => {
            let z = yield_to(y, x);
            Yard { out: z.out, ops: z.ops.push(x) }
        },
        Lexeme::LParen => Yard { out: y.out, ops: y.ops.push(x) },
        Lexeme::RParen => close_paren(y),
    }
}

/// The yard after all of `xs`, starting from `y`.
pub open spec fn feed_from(y: Yard, xs: Seq<Lexeme>) -> Yard
    decreases xs.len(),
{
    if xs.len() == 0 {
        y
    } else {
        feed(feed_from(y, xs.drop_last()), xs.last())
    }
}

/// The yard after all of `xs`, starting empty.
pub open spec fn feed_all(xs: Seq<Lexeme>) -> Yard {
    feed_from(empty_yard(), xs)
}

/// The postfix order of an infix formula.
pub open spec fn rpn_of(xs: Seq<Lexeme>) -> Seq<Lexeme> {
    flush(feed_all(xs))
}

/// Whether a lexeme is an operand: a number or a variable.
pub open spec fn is_operand(x: Lexeme) -> bool {
    x is Num || x is Name
}

/// The operands among `xs`, in their order.
pub open spec fn operands(xs: Seq<Lexeme>) -> Seq<Lexeme>
    decreases xs.len(),
{
    if xs.len() == 0 {
        Seq::empty()
    } else if is_operand(xs.last()) {
        operands(xs.drop_last()).push(xs.last())
    } else {
        operands(xs.drop_last())
    }
}

/// A yard in order: the output holds operands and operators only, and
/// what waits is operators and opening parentheses only.
pub open spec fn tidy(y: Yard) -> bool {
    &&& forall|k: int|
        0 <= k < y.out.len() ==> is_operand(#[trigger] y.out[k]) || is_operator(y.out[k])
    &&& forall|k: int|
        0 <= k < y.ops.len() ==> is_operator(#[trigger] y.ops[k]) || y.ops[k] is LParen
}

/// The operands of a sequence that grew by one lexeme.
proof fn lemma_operands_push(xs: Seq<Lexeme>, x: Lexeme)
    ensures
        operands(xs.push(x)) == if is_operand(x) {
            operands(xs).push(x)
        } else {
            operands(xs)
        },
{
    assert(xs.push(x).drop_last() =~= xs);
}

/// Moving waiting operators to the output keeps the yard in order and
/// its operands as they are.
proof fn lemma_yield_to_keeps(y: Yard, x: Lexeme)
    requires
        tidy(y),
    ensures
        tidy(yield_to(y, x)),
        operands(yield_to(y, x).out) == operands(y.out),
        yield_to(y, x).out.len() + yield_to(y, x).ops.len() == y.out.len() + y.ops.len(),
    decreases y.ops.len(),
{
    if y.ops.len() > 0 && is_operator(y.ops.last()) && prec(y.ops.last()) >= prec(x) {
        let z = Yard { out: y.out.push(y.ops.last()), ops: y.ops.drop_last() };
        lemma_operands_push(y.out, y.ops.last());
        lemma_yield_to_keeps(z, x);
    }
}

/// Closing a parenthesis keeps the yard in order and its operands as they
/// are.
proof fn lemma_close_paren_keeps(y: Yard)
    requires
        tidy(y),
    ensures
        tidy(close_paren(y)),
        operands(close_paren(y).out) == operands(y.out),
        close_paren(y).out.len() + close_paren(y).ops.len() <= y.out.len() + y.ops.len(),
    decreases y.ops.len(),
{
    if y.ops.len() > 0 && !(y.ops.last() is LParen) {
        let z = Yard { out: y.out.push(y.ops.last()), ops: y.ops.drop_last() };
        lemma_operands_push(y.out, y.ops.last());
        lemma_close_paren_keeps(z);
    }
}

/// The last move to the output keeps the operands and leaves no
/// parenthesis.
proof fn lemma_flush_keeps(y: Yard)
    requires
        tidy(y),
    ensures
        forall|k: int|
            0 <= k < flush(y).len() ==> is_operand(#[trigger] flush(y)[k]) || is_operator(
                flush(y)[k],
            ),
        operands(flush(y)) == operands(y.out),
        flush(y).len() <= y.out.len() + y.ops.len(),
    decreases y.ops.len(),
{
    if y.ops.len() > 0 {
        if y.ops.last() is LParen {
            lemma_flush_keeps(Yard { out: y.out, ops: y.ops.drop_last() });
        } else {
            lemma_operands_push(y.out, y.ops.last());
            lemma_flush_keeps(Yard { out: y.out.push(y.ops.last()), ops: y.ops.drop_last() });
        }
    }
}

/// Reading lexemes keeps the yard in order, with the operands read so far
/// in the output.
proof fn lemma_feed_all_keeps(xs: Seq<Lexeme>)
    ensures
        tidy(feed_all(xs)),
        operands(feed_all(xs).out) == operands(xs),
        feed_all(xs).out.len() + feed_all(xs).ops.len() <= xs.len(),
    decreases xs.len(),
{
    if xs.len() > 0 {
        let y = feed_all(xs.drop_last());
        let x = xs.last();
        lemma_feed_all_keeps(xs.drop_last());
        lemma_operands_push(y.out, x);
        lemma_yield_to_keeps(y, x);
        lemma_close_paren_keeps(y);
    }
}

/// Reordering to postfix keeps every operand and their order, leaves no
/// parenthesis behind, and adds nothing.
pub proof fn law_rpn_keeps_operands(xs: Seq<Lexeme>)
    ensures
        operands(rpn_of(xs)) == operands(xs),
        forall|k: int|
            0 <= k < rpn_of(xs).len() ==> is_operand(#[trigger] rpn_of(xs)[k]) || is_operator(
                rpn_of(xs)[k],
            ),
        rpn_of(xs).len() <= xs.len(),
{
    lemma_feed_all_keeps(xs);
    lemma_flush_keeps(feed_all(xs));
}

fn operator(t: Tok) -> (r: bool)
    ensures
        forall|nm: Seq<Seq<char>>| r == is_operator(#[trigger] lexeme_of(t, nm)),
{
    match t {
        Tok::UMinus => true,
        Tok::Op(_) => true,
        _ => false,
    }
}

fn binding(t: Tok) -> (p: i32)
    ensures
        forall|nm: Seq<Seq<char>>| p == prec(#[trigger] lexeme_of(t, nm)),
{
    match t {
        Tok::UMinus => 3,
        Tok::Op(BinOp::Mul) => 2,
        Tok::Op(BinOp::Div) => 2,
        Tok::Op(BinOp::Add) => 1,
        Tok::Op(BinOp::Sub) => 1,
        _ => -1,
    }
}

/// The yard that two token stacks stand for.
pub open spec fn yard_of(out: Seq<Tok>, ops: Seq<Tok>, nm: Seq<Seq<char>>) -> Yard {
    Yard { out: lexemes(out, nm), ops: lexemes(ops, nm) }
}

/// The yard after the top of the token stack moved to the output, or was
/// dropped.
proof fn lemma_yard_move(out: Seq<Tok>, ops: Seq<Tok>, nm: Seq<Seq<char>>)
    requires
        ops.len() > 0,
    ensures
        yard_of(out.push(ops.last()), ops.drop_last(), nm) == (Yard {
            out: yard_of(out, ops, nm).out.push(yard_of(out, ops, nm).ops.last()),
            ops: yard_of(out, ops, nm).ops.drop_last(),
        }),
        yard_of(out, ops.drop_last(), nm) == (Yard {
            out: yard_of(out, ops, nm).out,
            ops: yard_of(out, ops, nm).ops.drop_last(),
        }),
        yard_of(out, ops, nm).ops.last() == lexeme_of(ops.last(), nm),
{
    assert(lexemes(out.push(ops.last()), nm) =~= lexemes(out, nm).push(lexeme_of(ops.last(), nm)));
    assert(lexemes(ops.drop_last(), nm) =~= lexemes(ops, nm).drop_last());
}

/// The yard after a token was put on the output or on the stack.
proof fn lemma_yard_push(out: Seq<Tok>, ops: Seq<Tok>, nm: Seq<Seq<char>>, t: Tok)
    ensures
        yard_of(out.push(t), ops, nm) == (Yard {
            out: yard_of(out, ops, nm).out.push(lexeme_of(t, nm)),
            ops: yard_of(out, ops, nm).ops,
        }),
        yard_of(out, ops.push(t), nm) == (Yard {
            out: yard_of(out, ops, nm).out,
            ops: yard_of(out, ops, nm).ops.push(lexeme_of(t, nm)),
        }),
{
    assert(lexemes(out.push(t), nm) =~= lexemes(out, nm).push(lexeme_of(t, nm)));
    assert(lexemes(ops.push(t), nm) =~= lexemes(ops, nm).push(lexeme_of(t, nm)));
}

/// Reorders an infix token stream to postfix by operator precedence:
/// operands keep their order, an operator waits until one that binds less
/// tightly arrives, and parentheses group.
pub fn to_rpn(ts: &TokStream) -> (rpn: Vec<Tok>)
    requires
        ts.wf(),
    ensures
        names_cover(rpn@, ts.names@.len()),
        lexemes(rpn@, names_of(ts.names@)) == rpn_of(ts@),
{
    let ghost nm = names_of(ts.names@);
    let ghost cap = ts.names@.len();
    let mut out: Vec<Tok> = Vec::new();
    let mut ops: Vec<Tok> = Vec::new();
    let mut k: usize = 0;
    assert(ts@.take(0) =~= Seq::<Lexeme>::empty());
    assert(yard_of(out@, ops@, nm).out =~= empty_yard().out);
    assert(yard_of(out@, ops@, nm).ops =~= empty_yard().ops);
    while k < ts.toks.len()
        invariant
            k <= ts.toks.len(),
            ts.wf(),
            nm == names_of(ts.names@),
            cap == ts.names@.len(),
            names_cover(out@, cap),
            names_cover(ops@, cap),
            yard_of(out@, ops@, nm) == feed_all(ts@.take(k as int)),
        decreases ts.toks.len() - k,
    {
        let t = ts.toks[k];
        let ghost x = lexeme_of(t, nm);
        let ghost before = yard_of(out@, ops@, nm);
        proof {
            assert(ts@.take(k + 1).drop_last() =~= ts@.take(k as int));
            assert(ts@.take(k + 1).last() == x);
            assert(feed_all(ts@.take(k + 1)) == feed(before, x));
        }
        match t {
            Tok::Num(_) => {
                proof {
                    lemma_yard_push(out@, ops@, nm, t);
                }
                out.push(t);
            },
            Tok::Var(_) => {
                proof {
                    lemma_yard_push(out@, ops@, nm, t);
                }
                out.push(t);
            },
            Tok::LParen => {
                proof {
                    lemma_yard_push(out@, ops@, nm, t);
                }
                ops.push(t);
            },
            Tok::RParen => {
                let mut going = true;
                while going
                    invariant
                        names_cover(out@, cap),
                        names_cover(ops@, cap),
                        going ==> close_paren(yard_of(out@, ops@, nm)) == close_paren(before),
                        !going ==> yard_of(out@, ops@, nm) == close_paren(before),
                    decreases ops.len() + if going { 1nat } else { 0nat },
                {
                    if ops.len() == 0 {
                        going = false;
                    } else {
                        proof {
                            lemma_yard_move(out@, ops@, nm);
                        }
                        let top = ops[ops.len() - 1];
                        ops.pop();
                        match top {
                            Tok::LParen => {
                                going = false;
                            },
                            _ => {
                                out.push(top);
                            },
                        }
                    }
                }
            },
            _ => {
                let mut going = true;
                while going
                    invariant
                        names_cover(out@, cap),
                        names_cover(ops@, cap),
                        x == lexeme_of(t, nm),
                        going ==> yield_to(yard_of(out@, ops@, nm), x) == yield_to(before, x),
                        !going ==> yard_of(out@, ops@, nm) == yield_to(before, x),
                    decreases ops.len() + if going { 1nat } else { 0nat },
                {
                    if ops.len() == 0 {
                        going = false;
                    } else {
                        proof {
                            lemma_yard_move(out@, ops@, nm);
                        }
                        let top = ops[ops.len() - 1];
                        if operator(top) && binding(top) >= binding(t) {
                            ops.pop();
                            out.push(top);
                        } else {
                            going = false;
                        }
                    }
                }
                proof {
                    lemma_yard_push(out@, ops@, nm, t);
                }
                ops.push(t);
            },
        }
        k = k + 1;
    }
    assert(ts@.take(k as int) =~= ts@);
    let ghost loaded = yard_of(out@, ops@, nm);
    while ops.len() > 0
        invariant
            names_cover(out@, cap),
            names_cover(ops@, cap),
            flush(yard_of(out@, ops@, nm)) == flush(loaded),
        decreases ops.len(),
    {
        proof {
            lemma_yard_move(out@, ops@, nm);
        }
        let top = ops[ops.len() - 1];
        ops.pop();
        match top {
            Tok::LParen => {},
            _ => {
                out.push(top);
            },
        }
    }
    out
}

} // verus!
