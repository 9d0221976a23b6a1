//! What a formula means. An expression is a tree; written out in infix
//! notation with the usual precedences it is a sequence of lexemes, and
//! this module proves that reordering that sequence to postfix and
//! evaluating it gives the value of the tree.

use vstd::prelude::*;
use crate::arith::clamp;
use crate::eval::{combine, eval_from, eval_of, operand};
use crate::formula::{BinOp, Lexeme};
use crate::json::{signed_at, FieldView};
use crate::rpn::{
    close_paren, empty_yard, feed, feed_from, flush, is_operator, prec, rpn_of, yield_to, Yard,
};

verus! {

/// An expression over numbers and named counters.
pub enum Expr {
    Num(i64),
    Var(Seq<char>),
    Neg(Box<Expr>),
    Bin(BinOp, Box<Expr>, Box<Expr>),
}

/// The value of an expression over the counters in `store`, with the
/// arithmetic of formulas: saturating, division rounded toward zero, and a
/// division by zero giving 0.
pub open spec fn value(e: Expr, store: Map<Seq<char>, FieldView>, missing_as_zero: bool) -> i64
    decreases e,
{
    match e {
        Expr::Num(n) => n,
        Expr::Var(name) => operand(signed_at(store, name), missing_as_zero),
        Expr::Neg(a) => clamp(-value(*a, store, missing_as_zero)),
        Expr::Bin(op, a, b) => combine(
            op,
            value(*a, store, missing_as_zero),
            value(*b, store, missing_as_zero),
        ),
    }
}

/// An expression in postfix notation: operands first, then the operator.
pub open spec fn postfix(e: Expr) -> Seq<Lexeme>
    decreases e,
{
    match e {
        Expr::Num(n) => seq![Lexeme::Num(n)],
        Expr::Var(name) => seq![Lexeme::Name(name)],
        Expr::Neg(a) => postfix(*a).push(Lexeme::UMinus),
        Expr::Bin(op, a, b) => (postfix(*a) + postfix(*b)).push(Lexeme::Op(op)),
    }
}

/// How tightly a binary operator binds.
pub open spec fn op_level(op: BinOp) -> int {
    prec(Lexeme::Op(op))
}

/// How tightly an expression holds together: a sum less than a product,
/// a product less than a negation, and a number or a name most of all.
pub open spec fn level(e: Expr) -> int {
    match e {
        Expr::Num(_) => 4,
        Expr::Var(_) => 4,
        Expr::Neg(_) => 3,
        Expr::Bin(op, _, _) => op_level(op),
    }
}

/// An expression in infix notation, in a place that asks for level `p`:
/// in parentheses if it holds together less tightly than that.
pub open spec fn infix(e: Expr, p: int) -> Seq<Lexeme>
    decreases e, 1int,
{
    if level(e) < p {
        seq![Lexeme::LParen] + bare(e) + seq![Lexeme::RParen]
    } else {
        bare(e)
    }
}

/// An expression in infix notation without parentheses around it. The
/// operators associate to the left: the right operand of an operator is
/// written at the next level, the left one at the operator's own. The
/// operand of a negation is a number, a name, or in parentheses.
pub open spec fn bare(e: Expr) -> Seq<Lexeme>
    decreases e, 0int,
{
    match e {
        Expr::Num(n) => seq![Lexeme::Num(n)],
        Expr::Var(name) => seq![Lexeme::Name(name)],
        Expr::Neg(a) => seq![Lexeme::UMinus] + infix(*a, 4),
        Expr::Bin(op, a, b) => infix(*a, op_level(op)) + seq![Lexeme::Op(op)] + infix(
            *b,
            op_level(op) + 1,
        ),
    }
}

/// The operators that still wait on the stack once `bare(e)` has been
/// read, bottom first.
pub open spec fn waiting(e: Expr) -> Seq<Lexeme>
    decreases e,
{
    match e {
        Expr::Num(_) => Seq::empty(),
        Expr::Var(_) => Seq::empty(),
        Expr::Neg(_) => seq![Lexeme::UMinus],
        Expr::Bin(op, _, b) => if level(*b) < op_level(op) + 1 {
            seq![Lexeme::Op(op)]
        } else {
            seq![Lexeme::Op(op)] + waiting(*b)
        },
    }
}

/// The output once `bare(e)` has been read.
pub open spec fn emitted(e: Expr) -> Seq<Lexeme>
    decreases e,
{
    match e {
        Expr::Num(n) => seq![Lexeme::Num(n)],
        Expr::Var(name) => seq![Lexeme::Name(name)],
        Expr::Neg(a) => postfix(*a),
        Expr::Bin(op, a, b) => if level(*b) < op_level(op) + 1 {
            postfix(*a) + postfix(*b)
        } else {
            postfix(*a) + emitted(*b)
        },
    }
}

/// The output after everything in `ops` has been moved to it, top first.
pub open spec fn unwind(out: Seq<Lexeme>, ops: Seq<Lexeme>) -> Seq<Lexeme>
    decreases ops.len(),
{
    if ops.len() == 0 {
        out
    } else {
        unwind(out.push(ops.last()), ops.drop_last())
    }
}

/// Every one of `ops` is an operator that binds at least as tightly as
/// level `p`.
pub open spec fn all_bind(ops: Seq<Lexeme>, p: int) -> bool {
    forall|k: int| 0 <= k < ops.len() ==> is_operator(#[trigger] ops[k]) && prec(ops[k]) >= p
}

/// The top of the stack holds back what comes at level `p`: the stack is
/// empty, or its top is no operator, or one that binds less tightly.
pub open spec fn blocked(ops: Seq<Lexeme>, p: int) -> bool {
    ops.len() == 0 || !is_operator(ops.last()) || prec(ops.last()) < p
}

/// Reading one sequence after another is reading them joined.
proof fn lemma_feed_concat(y: Yard, a: Seq<Lexeme>, b: Seq<Lexeme>)
    ensures
        feed_from(y, a + b) == feed_from(feed_from(y, a), b),
    decreases b.len(),
{
    if b.len() == 0 {
        assert(a + b =~= a);
    } else {
        assert((a + b).drop_last() =~= a + b.drop_last());
        lemma_feed_concat(y, a, b.drop_last());
    }
}

/// Reading a sequence of one lexeme is reading that lexeme.
proof fn lemma_feed_one(y: Yard, x: Lexeme)
    ensures
        feed_from(y, seq![x]) == feed(y, x),
{
    let one = seq![x];
    assert(one.drop_last() =~= Seq::<Lexeme>::empty());
    assert(feed_from(y, one.drop_last()) == y);
    assert(one.last() == x);
}

/// What stands in the output before the unwinding stays in front.
proof fn lemma_unwind_prefix(a: Seq<Lexeme>, out: Seq<Lexeme>, ops: Seq<Lexeme>)
    ensures
        unwind(a + out, ops) == a + unwind(out, ops),
    decreases ops.len(),
{
    if ops.len() > 0 {
        assert((a + out).push(ops.last()) =~= a + out.push(ops.last()));
        lemma_unwind_prefix(a, out.push(ops.last()), ops.drop_last());
    }
}

/// The bottom of the stack is the last to reach the output.
proof fn lemma_unwind_bottom(out: Seq<Lexeme>, x: Lexeme, ops: Seq<Lexeme>)
    ensures
        unwind(out, seq![x] + ops) == unwind(out, ops).push(x),
    decreases ops.len(),
{
    let all = seq![x] + ops;
    if ops.len() == 0 {
        assert(all.last() == x);
        assert(all.drop_last() =~= Seq::<Lexeme>::empty());
        assert(unwind(out.push(x), all.drop_last()) == out.push(x));
    } else {
        assert(all.last() == ops.last());
        assert(all.drop_last() =~= seq![x] + ops.drop_last());
        lemma_unwind_bottom(out.push(ops.last()), x, ops.drop_last());
    }
}

/// An operator that arrives moves out everything above the top that
/// holds it back, where all of that binds at least as tightly as it does.
proof fn lemma_yield_unwinds(out: Seq<Lexeme>, base: Seq<Lexeme>, sp: Seq<Lexeme>, x: Lexeme)
    requires
        all_bind(sp, prec(x)),
        blocked(base, prec(x)),
    ensures
        yield_to(Yard { out, ops: base + sp }, x) == (Yard { out: unwind(out, sp), ops: base }),
    decreases sp.len(),
{
    let ops = base + sp;
    if sp.len() == 0 {
        assert(ops =~= base);
    } else {
        assert(ops.last() == sp[sp.len() - 1]);
        assert(ops.drop_last() =~= base + sp.drop_last());
        assert forall|k: int| 0 <= k < sp.drop_last().len() implies is_operator(
            #[trigger] sp.drop_last()[k],
        ) && prec(sp.drop_last()[k]) >= prec(x) by {
            assert(sp.drop_last()[k] == sp[k]);
        }
        lemma_yield_unwinds(out.push(sp.last()), base, sp.drop_last(), x);
    }
}

/// A closing parenthesis moves out the operators above the nearest
/// opening one and removes it.
proof fn lemma_close_unwinds(out: Seq<Lexeme>, base: Seq<Lexeme>, sp: Seq<Lexeme>, p: int)
    requires
        all_bind(sp, p),
    ensures
        close_paren(Yard { out, ops: base.push(Lexeme::LParen) + sp }) == (Yard {
            out: unwind(out, sp),
            ops: base,
        }),
    decreases sp.len(),
{
    let ops = base.push(Lexeme::LParen) + sp;
    if sp.len() == 0 {
        assert(ops =~= base.push(Lexeme::LParen));
        assert(ops.drop_last() =~= base);
    } else {
        assert(ops.last() == sp[sp.len() - 1]);
        assert(ops.drop_last() =~= base.push(Lexeme::LParen) + sp.drop_last());
        assert forall|k: int| 0 <= k < sp.drop_last().len() implies is_operator(
            #[trigger] sp.drop_last()[k],
        ) && prec(sp.drop_last()[k]) >= p by {
            assert(sp.drop_last()[k] == sp[k]);
        }
        lemma_close_unwinds(out.push(sp.last()), base, sp.drop_last(), p);
    }
}

/// At the end, a stack of operators is moved to the output, top first.
proof fn lemma_flush_unwinds(out: Seq<Lexeme>, sp: Seq<Lexeme>, p: int)
    requires
        all_bind(sp, p),
    ensures
        flush(Yard { out, ops: sp }) == unwind(out, sp),
    decreases sp.len(),
{
    if sp.len() > 0 {
        assert(sp.last() == sp[sp.len() - 1]);
        assert forall|k: int| 0 <= k < sp.drop_last().len() implies is_operator(
            #[trigger] sp.drop_last()[k],
        ) && prec(sp.drop_last()[k]) >= p by {
            assert(sp.drop_last()[k] == sp[k]);
        }
        lemma_flush_unwinds(out.push(sp.last()), sp.drop_last(), p);
    }
}

/// What waits after an expression was read are operators that bind at
/// least as tightly as the expression holds together, and moving them to
/// the output completes the postfix form.
proof fn lemma_waiting_completes(e: Expr)
    ensures
        all_bind(waiting(e), level(e)),
        unwind(emitted(e), waiting(e)) == postfix(e),
    decreases e,
{
    match e {
        Expr::Num(_) => {},
        Expr::Var(_) => {},
        Expr::Neg(a) => {
            lemma_unwind_bottom(postfix(*a), Lexeme::UMinus, Seq::empty());
            assert(seq![Lexeme::UMinus] + Seq::empty() =~= seq![Lexeme::UMinus]);
        },
        Expr::Bin(op, a, b) => {
            let x = Lexeme::Op(op);
            if level(*b) < op_level(op) + 1 {
                lemma_unwind_bottom(postfix(*a) + postfix(*b), x, Seq::empty());
                assert(seq![x] + Seq::empty() =~= seq![x]);
            } else {
                lemma_waiting_completes(*b);
                lemma_unwind_bottom(postfix(*a) + emitted(*b), x, waiting(*b));
                lemma_unwind_prefix(postfix(*a), emitted(*b), waiting(*b));
                let w = seq![x] + waiting(*b);
                assert forall|k: int| 0 <= k < w.len() implies is_operator(#[trigger] w[k])
                    && prec(w[k]) >= level(e) by {
                    if k > 0 {
                        assert(w[k] == waiting(*b)[k - 1]);
                    }
                }
            }
        },
    }
}

/// Reading an expression without parentheses around it, on a stack whose
/// top holds back its level, adds what it emits to the output and leaves
/// what waits on the stack.
proof fn lemma_reads_bare(y: Yard, e: Expr)
    requires
        blocked(y.ops, level(e)),
    ensures
        feed_from(y, bare(e)) == (Yard { out: y.out + emitted(e), ops: y.ops + waiting(e) }),
    decreases e, 0int,
{
    match e {
        Expr::Num(n) => {
            lemma_feed_one(y, Lexeme::Num(n));
            assert(y.out.push(Lexeme::Num(n)) =~= y.out + emitted(e));
            assert(y.ops =~= y.ops + waiting(e));
        },
        Expr::Var(name) => {
            lemma_feed_one(y, Lexeme::Name(name));
            assert(y.out.push(Lexeme::Name(name)) =~= y.out + emitted(e));
            assert(y.ops =~= y.ops + waiting(e));
        },
        Expr::Neg(a) => {
            let x = Lexeme::UMinus;
            lemma_feed_concat(y, seq![x], infix(*a, 4));
            lemma_feed_one(y, x);
            let y1 = Yard { out: y.out, ops: y.ops.push(x) };
            assert(feed(y, x) == y1);
            lemma_reads_infix(y1, *a, 4);
            if level(*a) >= 4 {
                assert(y.out + emitted(*a) =~= y.out + postfix(*a));
                assert(y1.ops + waiting(*a) =~= y1.ops);
            }
            assert(y1.ops =~= y.ops + waiting(e));
        },
        Expr::Bin(op, a, b) => {
            let q = op_level(op);
            let x = Lexeme::Op(op);
            let left = infix(*a, q);
            let right = infix(*b, q + 1);
            lemma_feed_concat(y, left + seq![x], right);
            lemma_feed_concat(y, left, seq![x]);
            lemma_reads_infix(y, *a, q);
            let y1 = feed_from(y, left);
            lemma_feed_one(y1, x);
            let y2 = Yard { out: y.out + postfix(*a), ops: y.ops.push(x) };
            if level(*a) < q {
                assert(y1.ops =~= y.ops + Seq::<Lexeme>::empty());
                lemma_yield_unwinds(y1.out, y.ops, Seq::empty(), x);
            } else {
                lemma_waiting_completes(*a);
                lemma_yield_unwinds(y1.out, y.ops, waiting(*a), x);
                lemma_unwind_prefix(y.out, emitted(*a), waiting(*a));
            }
            assert(feed(y1, x) == y2);
            lemma_reads_infix(y2, *b, q + 1);
            if level(*b) < q + 1 {
                assert(y2.out + postfix(*b) =~= y.out + emitted(e));
                assert(y2.ops =~= y.ops + waiting(e));
            } else {
                assert(y2.out + emitted(*b) =~= y.out + emitted(e));
                assert(y2.ops + waiting(*b) =~= y.ops + waiting(e));
            }
        },
    }
}

/// Reading an expression in a place that asks for level `p`: one in
/// parentheses arrives in the output whole, in postfix form, and leaves the
/// stack as it was.
proof fn lemma_reads_infix(y: Yard, e: Expr, p: int)
    requires
        blocked(y.ops, p),
    ensures
        feed_from(y, infix(e, p)) == if level(e) < p {
            Yard { out: y.out + postfix(e), ops: y.ops }
        } else {
            Yard { out: y.out + emitted(e), ops: y.ops + waiting(e) }
        },
    decreases e, 1int,
{
    if level(e) < p {
        let open = seq![Lexeme::LParen];
        let close = seq![Lexeme::RParen];
        lemma_feed_concat(y, open + bare(e), close);
        lemma_feed_concat(y, open, bare(e));
        lemma_feed_one(y, Lexeme::LParen);
        let y1 = Yard { out: y.out, ops: y.ops.push(Lexeme::LParen) };
        assert(feed(y, Lexeme::LParen) == y1);
        lemma_reads_bare(y1, e);
        let y2 = Yard { out: y.out + emitted(e), ops: y1.ops + waiting(e) };
        lemma_feed_one(y2, Lexeme::RParen);
        lemma_waiting_completes(e);
        lemma_close_unwinds(y2.out, y.ops, waiting(e), level(e));
        lemma_unwind_prefix(y.out, emitted(e), waiting(e));
    } else {
        lemma_reads_bare(y, e);
    }
}

/// Written in infix notation with parentheses only where the precedences
/// ask for them, or with more, an expression is reordered to its postfix
/// form.
pub proof fn law_rpn_of_infix_is_postfix(e: Expr, p: int)
    ensures
        rpn_of(infix(e, p)) == postfix(e),
{
    let y = empty_yard();
    lemma_reads_infix(y, e, p);
    lemma_waiting_completes(e);
    if level(e) < p {
        assert(y.out + postfix(e) =~= postfix(e));
        lemma_flush_unwinds(postfix(e), Seq::empty(), 0);
    } else {
        assert(y.out + emitted(e) =~= emitted(e));
        assert(y.ops + waiting(e) =~= waiting(e));
        lemma_flush_unwinds(emitted(e), waiting(e), level(e));
    }
}

/// Evaluating one sequence after another is evaluating them joined.
proof fn lemma_eval_concat(
    st: Seq<i64>,
    a: Seq<Lexeme>,
    b: Seq<Lexeme>,
    store: Map<Seq<char>, FieldView>,
    missing_as_zero: bool,
)
    ensures
        eval_from(st, a + b, store, missing_as_zero) == eval_from(
            eval_from(st, a, store, missing_as_zero),
            b,
            store,
            missing_as_zero,
        ),
    decreases b.len(),
{
    if b.len() == 0 {
        assert(a + b =~= a);
    } else {
        assert((a + b).drop_last() =~= a + b.drop_last());
        lemma_eval_concat(st, a, b.drop_last(), store, missing_as_zero);
    }
}

/// Evaluating an expression in postfix form puts its value on the stack
/// and leaves what was there below it.
proof fn lemma_eval_postfix(
    st: Seq<i64>,
    e: Expr,
    store: Map<Seq<char>, FieldView>,
    missing_as_zero: bool,
)
    ensures
        eval_from(st, postfix(e), store, missing_as_zero) == st.push(
            value(e, store, missing_as_zero),
        ),
    decreases e,
{
    let xs = postfix(e);
    match e {
        Expr::Num(n) => {
            assert(xs.drop_last() =~= Seq::<Lexeme>::empty());
            assert(eval_from(st, xs.drop_last(), store, missing_as_zero) == st);
        },
        Expr::Var(name) => {
            assert(xs.drop_last() =~= Seq::<Lexeme>::empty());
            assert(eval_from(st, xs.drop_last(), store, missing_as_zero) == st);
        },
        Expr::Neg(a) => {
            assert(xs.drop_last() =~= postfix(*a));
            lemma_eval_postfix(st, *a, store, missing_as_zero);
            let va = value(*a, store, missing_as_zero);
            assert(st.push(va).drop_last() =~= st);
        },
        Expr::Bin(op, a, b) => {
            assert(xs.drop_last() =~= postfix(*a) + postfix(*b));
            lemma_eval_concat(st, postfix(*a), postfix(*b), store, missing_as_zero);
            lemma_eval_postfix(st, *a, store, missing_as_zero);
            let va = value(*a, store, missing_as_zero);
            lemma_eval_postfix(st.push(va), *b, store, missing_as_zero);
            let vb = value(*b, store, missing_as_zero);
            assert(st.push(va).push(vb).drop_last() =~= st.push(va));
            assert(st.push(va).drop_last() =~= st);
        },
    }
}

/// A formula means what its expression means: written in infix notation
/// with parentheses where the precedences ask for them, or with more, it
/// is reordered and evaluated to the value of the expression. Operators of
/// one level associate to the left, and a negation applies to the number,
/// the name or the parentheses that follow it.
pub proof fn law_formula_follows_precedence(
    e: Expr,
    p: int,
    store: Map<Seq<char>, FieldView>,
    missing_as_zero: bool,
)
    ensures
        eval_of(rpn_of(infix(e, p)), store, missing_as_zero) == value(e, store, missing_as_zero),
{
    law_rpn_of_infix_is_postfix(e, p);
    lemma_eval_postfix(Seq::empty(), e, store, missing_as_zero);
}

} // verus!
