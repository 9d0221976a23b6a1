//! Formulas as text. A sequence of lexemes is spelled out with a space
//! between one lexeme and the next, numbers in decimal digits and names in
//! double quotes, and this module proves that the lexer reads such a text
//! back as the same lexemes, so that the text of an expression is computed
//! to the value of the expression.

use vstd::prelude::*;
use crate::computed::{shown_value, ExprConfigView};
use crate::eval::eval_of;
use crate::formula::{BinOp, Lexeme};
use crate::grammar::{bare, infix, law_formula_follows_precedence, level, op_level, value, Expr};
use crate::json::FieldView;
use crate::lexer::{closing, in_class, lex, run_end, scan_one, Class, Scan};
use crate::render::{digits_of, lemma_digits_spell};
use crate::rpn::rpn_of;
use crate::text::{is_digit, trimmed, white_space};

verus! {

/// How one lexeme is spelled. A number is spelled by its digits, so it
/// must not be negative; a name is spelled in double quotes, so it must
/// hold none.
pub open spec fn spell(x: Lexeme) -> Seq<char> {
    match x {
        Lexeme::Num(n) => digits_of(n as nat),
        Lexeme::Name(name) => seq!['"'] + name + seq!['"'],
        Lexeme::Op(BinOp::Add) => seq!['+'],
        Lexeme::Op(BinOp::Sub) => seq!['-'],
        Lexeme::Op(BinOp::Mul) => seq!['*'],
        Lexeme::Op(BinOp::Div) => seq!['/'],
        Lexeme::UMinus => seq!['-'],
        Lexeme::LParen => seq!['('],
        Lexeme::RParen => seq![')'],
    }
}

/// How a sequence of lexemes is spelled: one after the other, with a
/// space between.
pub open spec fn spelled(xs: Seq<Lexeme>) -> Seq<char>
    decreases xs.len(),
{
    if xs.len() == 0 {
        Seq::empty()
    } else if xs.len() == 1 {
        spell(xs[0])
    } else {
        spell(xs[0]) + seq![' '] + spelled(xs.skip(1))
    }
}

/// Whether a lexeme can be spelled: a number is not negative, and a name
/// holds no double quote.
pub open spec fn spellable(x: Lexeme) -> bool {
    match x {
        Lexeme::Num(n) => n >= 0,
        Lexeme::Name(name) => forall|k: int| 0 <= k < name.len() ==> #[trigger] name[k] != '"',
        _ => true,
    }
}

/// Whether a value precedes what follows the lexeme `x`.
pub open spec fn leaves_value(x: Lexeme) -> bool {
    x is Num || x is Name || x is RParen
}

/// Whether every `-` among `xs` is the one that its place asks for: a
/// subtraction where a value precedes, a negation where none does. `prev`
/// says whether a value precedes `xs`.
pub open spec fn minus_fits(xs: Seq<Lexeme>, prev: bool) -> bool
    decreases xs.len(),
{
    if xs.len() == 0 {
        true
    } else {
        &&& xs[0] == Lexeme::Op(BinOp::Sub) ==> prev
        &&& xs[0] is UMinus ==> !prev
        &&& minus_fits(xs.skip(1), leaves_value(xs[0]))
    }
}

/// Every one of `xs` can be spelled.
pub open spec fn all_spellable(xs: Seq<Lexeme>) -> bool {
    forall|k: int| 0 <= k < xs.len() ==> spellable(#[trigger] xs[k])
}

/// A run that holds only characters of its class up to `j`, and ends
/// there, ends at `j`.
proof fn lemma_run_ends_at(s: Seq<char>, i: int, j: int, k: Class)
    requires
        0 <= i <= j <= s.len(),
        forall|x: int| i <= x < j ==> in_class(#[trigger] s[x], k),
        j == s.len() || !in_class(s[j], k),
    ensures
        run_end(s, i, k) == j,
    decreases j - i,
{
    if i < j {
        lemma_run_ends_at(s, i + 1, j, k);
    }
}

/// The search for a quote that passes over none up to `j`, and finds one
/// there, ends at `j`.
proof fn lemma_closes_at(s: Seq<char>, i: int, j: int, q: char)
    requires
        0 <= i <= j < s.len(),
        forall|x: int| i <= x < j ==> #[trigger] s[x] != q,
        s[j] == q,
    ensures
        closing(s, i, q) == j,
    decreases j - i,
{
    if i < j {
        lemma_closes_at(s, i + 1, j, q);
    }
}

/// Where the spelling of a lexeme stands in a text, followed by a space
/// or by the end, the lexer reads that lexeme and goes on behind it.
proof fn lemma_reads_lexeme(s: Seq<char>, i: int, x: Lexeme, prev: bool)
    requires
        0 <= i,
        i + spell(x).len() <= s.len(),
        forall|k: int| 0 <= k < spell(x).len() ==> s[i + k] == #[trigger] spell(x)[k],
        i + spell(x).len() == s.len() || s[i + spell(x).len()] == ' ',
        spellable(x),
        x == Lexeme::Op(BinOp::Sub) ==> prev,
        x is UMinus ==> !prev,
    ensures
        spell(x).len() > 0,
        scan_one(s, i, prev) == (Scan {
            next: i + spell(x).len(),
            emit: Some(x),
            value: leaves_value(x),
        }),
{
    let w = spell(x);
    match x {
        Lexeme::Num(n) => {
            lemma_digits_spell(n as nat);
            let j = i + w.len();
            assert(s[i] == w[0]);
            assert forall|k: int| i + 1 <= k < j implies in_class(
                #[trigger] s[k],
                Class::Digit,
            ) by {
                assert(s[i + (k - i)] == w[k - i]);
            }
            lemma_run_ends_at(s, i + 1, j, Class::Digit);
            assert(s.subrange(i, j) =~= w);
        },
        Lexeme::Name(name) => {
            let k = i + 1 + name.len();
            assert(s[i] == w[0]);
            assert(w[0] == '"');
            assert forall|j: int| i + 1 <= j < k implies #[trigger] s[j] != '"' by {
                assert(s[i + (j - i)] == w[j - i]);
                assert(w[j - i] == name[j - i - 1]);
            }
            assert(s[i + (name.len() + 1)] == w[name.len() as int + 1]);
            lemma_closes_at(s, i + 1, k, '"');
            assert forall|j: int| 0 <= j < name.len() implies s.subrange(i + 1, k)[j]
                == name[j] by {
                assert(s[i + (j + 1)] == w[j + 1]);
            }
            assert(s.subrange(i + 1, k) =~= name);
        },
        _ => {
            assert(s[i] == w[0]);
        },
    }
}

/// The lexer passes over a space.
proof fn lemma_passes_space(s: Seq<char>, i: int, prev: bool)
    requires
        0 <= i < s.len(),
        s[i] == ' ',
    ensures
        scan_one(s, i, prev) == (Scan { next: i + 1, emit: None, value: prev }),
{
}

/// The lexer reads a spelled sequence of lexemes back as it was, wherever
/// in a text the spelling begins.
proof fn lemma_lex_reads_spelled(pre: Seq<char>, xs: Seq<Lexeme>, prev: bool)
    requires
        all_spellable(xs),
        minus_fits(xs, prev),
    ensures
        lex(pre + spelled(xs), pre.len() as int, prev) == xs,
    decreases xs.len(),
{
    let s = pre + spelled(xs);
    let i = pre.len() as int;
    if xs.len() == 0 {
        assert(lex(s, i, prev) =~= xs);
    } else {
        let x = xs[0];
        let w = spell(x);
        let rest = xs.skip(1);
        let v = leaves_value(x);
        let j = i + w.len();
        assert forall|k: int| 0 <= k < w.len() implies s[i + k] == #[trigger] w[k] by {
            assert(spelled(xs)[k] == w[k]);
        }
        if xs.len() == 1 {
            lemma_reads_lexeme(s, i, x, prev);
            assert(lex(s, j, v) =~= Seq::<Lexeme>::empty());
            assert(lex(s, i, prev) =~= seq![x] + lex(s, j, v));
            assert(seq![x] + Seq::<Lexeme>::empty() =~= xs);
        } else {
            assert(spelled(xs)[w.len() as int] == ' ');
            assert(s[j] == ' ');
            lemma_reads_lexeme(s, i, x, prev);
            lemma_passes_space(s, j, v);
            let pre2 = pre + w + seq![' '];
            assert(s =~= pre2 + spelled(rest));
            assert forall|k: int| 0 <= k < rest.len() implies spellable(#[trigger] rest[k]) by {
                assert(rest[k] == xs[k + 1]);
            }
            lemma_lex_reads_spelled(pre2, rest, v);
            assert(lex(s, j, v) == lex(s, j + 1, v));
            assert(lex(s, i, prev) =~= seq![x] + lex(s, j, v));
            assert(seq![x] + rest =~= xs);
        }
    }
}

/// A spelled sequence of lexemes is lexed to that sequence.
pub proof fn law_lex_reads_spelled(xs: Seq<Lexeme>)
    requires
        all_spellable(xs),
        minus_fits(xs, false),
    ensures
        lex(spelled(xs), 0, false) == xs,
{
    lemma_lex_reads_spelled(Seq::empty(), xs, false);
    assert(Seq::<char>::empty() + spelled(xs) =~= spelled(xs));
}

/// Whether an expression can be spelled: its numbers are not negative
/// (a negative number is written as a negation), and its names hold no
/// double quote.
pub open spec fn plain(e: Expr) -> bool
    decreases e,
{
    match e {
        Expr::Num(n) => n >= 0,
        Expr::Var(name) => spellable(Lexeme::Name(name)),
        Expr::Neg(a) => plain(*a),
        Expr::Bin(_, a, b) => plain(*a) && plain(*b),
    }
}

/// Whether a value precedes what follows `xs`, where `prev` says whether
/// one precedes `xs`.
pub open spec fn leaves_value_after(xs: Seq<Lexeme>, prev: bool) -> bool {
    if xs.len() == 0 {
        prev
    } else {
        leaves_value(xs.last())
    }
}

/// Two sequences in which every `-` fits its place still have every `-`
/// in its place when joined.
proof fn lemma_minus_fits_joined(a: Seq<Lexeme>, b: Seq<Lexeme>, prev: bool)
    requires
        minus_fits(a, prev),
        minus_fits(b, leaves_value_after(a, prev)),
    ensures
        minus_fits(a + b, prev),
        leaves_value_after(a + b, prev) == leaves_value_after(b, leaves_value_after(a, prev)),
    decreases a.len(),
{
    if a.len() == 0 {
        assert(a + b =~= b);
    } else {
        let rest = a.skip(1);
        assert((a + b).skip(1) =~= rest + b);
        assert((a + b)[0] == a[0]);
        if rest.len() > 0 {
            assert(rest.last() == a.last());
        }
        lemma_minus_fits_joined(rest, b, leaves_value(a[0]));
        if b.len() > 0 {
            assert((a + b).last() == b.last());
        } else {
            assert(a + b =~= a);
        }
    }
}

/// A sequence of one lexeme.
proof fn lemma_minus_fits_one(x: Lexeme, prev: bool)
    requires
        x == Lexeme::Op(BinOp::Sub) ==> prev,
        x is UMinus ==> !prev,
    ensures
        minus_fits(seq![x], prev),
        leaves_value_after(seq![x], prev) == leaves_value(x),
{
    let one = seq![x];
    assert(one.skip(1) =~= Seq::<Lexeme>::empty());
    assert(minus_fits(one.skip(1), leaves_value(x)));
}

/// Joining keeps every lexeme spellable.
proof fn lemma_spellable_joined(a: Seq<Lexeme>, b: Seq<Lexeme>)
    requires
        all_spellable(a),
        all_spellable(b),
    ensures
        all_spellable(a + b),
{
    assert forall|k: int| 0 <= k < (a + b).len() implies spellable(#[trigger] (a + b)[k]) by {
        if k < a.len() {
            assert((a + b)[k] == a[k]);
        } else {
            assert((a + b)[k] == b[k - a.len()]);
        }
    }
}

/// The infix form of a plain expression without parentheses around it can
/// be spelled, has every `-` in its place where no value precedes it, and
/// leaves a value.
proof fn lemma_bare_is_spellable(e: Expr)
    requires
        plain(e),
    ensures
        all_spellable(bare(e)),
        minus_fits(bare(e), false),
        leaves_value_after(bare(e), false),
    decreases e, 0int,
{
    match e {
        Expr::Num(n) => {
            lemma_minus_fits_one(Lexeme::Num(n), false);
        },
        Expr::Var(name) => {
            lemma_minus_fits_one(Lexeme::Name(name), false);
        },
        Expr::Neg(a) => {
            let head = seq![Lexeme::UMinus];
            lemma_minus_fits_one(Lexeme::UMinus, false);
            lemma_infix_is_spellable(*a, 4);
            lemma_minus_fits_joined(head, infix(*a, 4), false);
            lemma_spellable_joined(head, infix(*a, 4));
        },
        Expr::Bin(op, a, b) => {
            let q = op_level(op);
            let left = infix(*a, q);
            let mid = seq![Lexeme::Op(op)];
            let right = infix(*b, q + 1);
            lemma_infix_is_spellable(*a, q);
            lemma_infix_is_spellable(*b, q + 1);
            lemma_minus_fits_one(Lexeme::Op(op), true);
            lemma_minus_fits_joined(left, mid, false);
            lemma_minus_fits_joined(left + mid, right, false);
            lemma_spellable_joined(left, mid);
            lemma_spellable_joined(left + mid, right);
        },
    }
}

/// The same of the infix form in a place that asks for level `p`.
proof fn lemma_infix_is_spellable(e: Expr, p: int)
    requires
        plain(e),
    ensures
        all_spellable(infix(e, p)),
        minus_fits(infix(e, p), false),
        leaves_value_after(infix(e, p), false),
        infix(e, p).len() > 0,
    decreases e, 1int,
{
    let inner = bare(e);
    lemma_bare_is_spellable(e);
    if level(e) < p {
        let open = seq![Lexeme::LParen];
        let close = seq![Lexeme::RParen];
        lemma_minus_fits_one(Lexeme::LParen, false);
        lemma_minus_fits_one(Lexeme::RParen, true);
        lemma_minus_fits_joined(open, inner, false);
        lemma_minus_fits_joined(open + inner, close, false);
        lemma_spellable_joined(open, inner);
        lemma_spellable_joined(open + inner, close);
    }
}

/// The text of a plain expression, spelled in infix notation with
/// parentheses where the precedences ask for them, or with more, is lexed,
/// reordered and evaluated to the value of the expression.
pub proof fn law_text_means_expression(
    e: Expr,
    p: int,
    store: Map<Seq<char>, FieldView>,
    missing_as_zero: bool,
)
    requires
        plain(e),
    ensures
        eval_of(rpn_of(lex(spelled(infix(e, p)), 0, false)), store, missing_as_zero) == value(
            e,
            store,
            missing_as_zero,
        ),
{
    lemma_infix_is_spellable(e, p);
    law_lex_reads_spelled(infix(e, p));
    law_formula_follows_precedence(e, p, store, missing_as_zero);
}

/// A spelling begins and ends with a character that is no whitespace.
proof fn lemma_spelled_has_no_margin(xs: Seq<Lexeme>)
    requires
        xs.len() > 0,
        all_spellable(xs),
    ensures
        spelled(xs).len() > 0,
        !white_space(spelled(xs)[0]),
        !white_space(spelled(xs).last()),
    decreases xs.len(),
{
    let x = xs[0];
    let w = spell(x);
    match x {
        Lexeme::Num(n) => {
            lemma_digits_spell(n as nat);
            assert(is_digit(w[0]) && is_digit(w[w.len() - 1]));
        },
        Lexeme::Name(name) => {
            assert(w[0] == '"' && w[w.len() - 1] == '"');
        },
        _ => {
            assert(w.len() == 1);
        },
    }
    assert(!white_space(w[0]) && !white_space(w.last()));
    if xs.len() > 1 {
        let rest = xs.skip(1);
        assert forall|k: int| 0 <= k < rest.len() implies spellable(#[trigger] rest[k]) by {
            assert(rest[k] == xs[k + 1]);
        }
        lemma_spelled_has_no_margin(rest);
        let s = spelled(xs);
        assert(s[0] == w[0]);
        assert(s.last() == spelled(rest).last());
    }
}

/// A formula button whose expression is the text of a plain expression
/// shows the value of that expression.
pub proof fn law_button_shows_expression(
    e: Expr,
    p: int,
    store: Map<Seq<char>, FieldView>,
    missing_as_zero: bool,
)
    requires
        plain(e),
    ensures
        shown_value(
            ExprConfigView { expression: Some(spelled(infix(e, p))), missing_as_zero },
            store,
        ) == value(e, store, missing_as_zero),
{
    let text = spelled(infix(e, p));
    lemma_infix_is_spellable(e, p);
    lemma_spelled_has_no_margin(infix(e, p));
    assert(trimmed(text) == text);
    law_text_means_expression(e, p, store, missing_as_zero);
}

} // verus!
