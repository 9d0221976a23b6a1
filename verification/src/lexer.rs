//! Splitting a formula into tokens.

use vstd::prelude::*;
use crate::formula::{
    lexeme_of, lexemes, names_cover, names_of, names_used, refers, BinOp, Lexeme, Tok, TokStream,
};
use crate::text::{decimal, is_digit};

verus! {

/// The ASCII whitespace that separates the parts of a formula.
pub open spec fn is_space(c: char) -> bool {
    c == ' ' || c == '\t' || c == '\n' || c == '\x0C' || c == '\r'
}

/// The ASCII letters.
pub open spec fn is_letter(c: char) -> bool {
    ('a' <= c <= 'z') || ('A' <= c <= 'Z')
}

/// The characters that a word goes on with: letters, digits and `_`.
pub open spec fn is_word(c: char) -> bool {
    is_letter(c) || is_digit(c) || c == '_'
}

/// The three quotes that enclose a name: `"`, `'` and `` ` ``.
pub open spec fn is_quote(c: char) -> bool {
    c == '"' || c == '\'' || c == '`'
}

fn space(c: char) -> (r: bool)
    ensures
        r == is_space(c),
{
    c == ' ' || c == '\t' || c == '\n' || c == '\x0C' || c == '\r'
}

fn digit(c: char) -> (r: bool)
    ensures
        r == is_digit(c),
{
    '0' <= c && c <= '9'
}

fn letter(c: char) -> (r: bool)
    ensures
        r == is_letter(c),
{
    ('a' <= c && c <= 'z') || ('A' <= c && c <= 'Z')
}

/// The character classes that form runs in a formula.
#[derive(Clone, Copy, Debug, PartialEq, Eq, Structural)]
pub enum Class {
    Space,
    Digit,
    Word,
}

/// Whether `c` belongs to the class `k`.
pub open spec fn in_class(c: char, k: Class) -> bool {
    match k {
        Class::Space => is_space(c),
        Class::Digit => is_digit(c),
        Class::Word => is_word(c),
    }
}

/// The end of the run of class `k` that starts at `i`: the first position
/// from `i` on that holds no character of the class.
pub open spec fn run_end(s: Seq<char>, i: int, k: Class) -> int
    decreases s.len() - i,
{
    if 0 <= i < s.len() && in_class(s[i], k) {
        run_end(s, i + 1, k)
    } else {
        i
    }
}

/// The first position from `i` on that holds the quote `q`, or the end of
/// the text where none does.
pub open spec fn closing(s: Seq<char>, i: int, q: char) -> int
    decreases s.len() - i,
{
    if 0 <= i < s.len() && s[i] != q {
        closing(s, i + 1, q)
    } else {
        i
    }
}

/// The value of a number literal: its decimal value, or 0 where that does
/// not fit.
pub open spec fn literal(s: Seq<char>) -> i64 {
    if decimal(s) <= i64::MAX {
        decimal(s) as i64
    } else {
        0
    }
}

/// Whether `s` spells `var` in any letter case.
pub open spec fn is_var(s: Seq<char>) -> bool {
    &&& s.len() == 3
    &&& (s[0] == 'v' || s[0] == 'V')
    &&& (s[1] == 'a' || s[1] == 'A')
    &&& (s[2] == 'r' || s[2] == 'R')
}

/// A quoted name in call form, `( "name" )` with optional spaces, starting
/// at `j`: the bounds of the name and the position after the closing
/// parenthesis.
pub open spec fn call_form(s: Seq<char>, j: int) -> Option<(int, int, int)> {
    let a = run_end(s, j, Class::Space);
    if a < s.len() && s[a] == '(' {
        let b = run_end(s, a + 1, Class::Space);
        if b < s.len() && is_quote(s[b]) {
            let k = closing(s, b + 1, s[b]);
            if k < s.len() {
                let d = run_end(s, k + 1, Class::Space);
                if d < s.len() && s[d] == ')' {
                    Some((b + 1, k, d + 1))
                } else {
                    None
                }
            } else {
                None
            }
        } else {
            None
        }
    } else {
        None
    }
}

/// One step of the lexer: where it goes on, what it emits, and whether a
/// value now precedes.
pub struct Scan {
    pub next: int,
    pub emit: Option<Lexeme>,
    pub value: bool,
}

/// The lexer's step at position `i`, where `prev` says whether a value
/// precedes (which makes a `-` binary).
pub open spec fn scan_one(s: Seq<char>, i: int, prev: bool) -> Scan {
    let c = s[i];
    if is_digit(c) {
        let j = run_end(s, i + 1, Class::Digit);
        Scan { next: j, emit: Some(Lexeme::Num(literal(s.subrange(i, j)))), value: true }
    } else if is_quote(c) {
        let k = closing(s, i + 1, c);
        if k < s.len() {
            Scan { next: k + 1, emit: Some(Lexeme::Name(s.subrange(i + 1, k))), value: true }
        } else {
            Scan { next: i + 1, emit: None, value: prev }
        }
    } else if c == '_' || is_letter(c) {
        let j = run_end(s, i + 1, Class::Word);
        match call_form(s, j) {
            Some((a, b, next)) if is_var(s.subrange(i, j)) => Scan {
                next,
                emit: Some(Lexeme::Name(s.subrange(a, b))),
                value: true,
            },
            _ => Scan { next: j, emit: Some(Lexeme::Name(s.subrange(i, j))), value: true },
        }
    } else if c == '+' {
        Scan { next: i + 1, emit: Some(Lexeme::Op(BinOp::Add)), value: false }
    } else if c == '*' {
        Scan { next: i + 1, emit: Some(Lexeme::Op(BinOp::Mul)), value: false }
    } else if c == '/' {
        Scan { next: i + 1, emit: Some(Lexeme::Op(BinOp::Div)), value: false }
    } else if c == '-' {
        Scan {
            next: i + 1,
            emit: Some(
                if prev {
                    Lexeme::Op(BinOp::Sub)
                } else {
                    Lexeme::UMinus
                },
            ),
            value: false,
        }
    } else if c == '(' {
        Scan { next: i + 1, emit: Some(Lexeme::LParen), value: false }
    } else if c == ')' {
        Scan { next: i + 1, emit: Some(Lexeme::RParen), value: true }
    } else {
        Scan { next: i + 1, emit: None, value: prev }
    }
}

/// The lexemes of `s` from position `i` on.
pub open spec fn lex(s: Seq<char>, i: int, prev: bool) -> Seq<Lexeme>
    decreases s.len() - i,
{
    if 0 <= i < s.len() {
        let step = scan_one(s, i, prev);
        if i < step.next <= s.len() {
            let rest = lex(s, step.next, step.value);
            match step.emit {
                Some(x) => seq![x] + rest,
                None => rest,
            }
        } else {
            Seq::empty()
        }
    } else {
        Seq::empty()
    }
}

/// A run ends inside the text, holds only characters of its class, and
/// stops at one that is not.
pub proof fn lemma_run_end_bounds(s: Seq<char>, i: int, k: Class)
    requires
        0 <= i <= s.len(),
    ensures
        i <= run_end(s, i, k) <= s.len(),
        forall|x: int| i <= x < run_end(s, i, k) ==> in_class(#[trigger] s[x], k),
        run_end(s, i, k) < s.len() ==> !in_class(s[run_end(s, i, k)], k),
    decreases s.len() - i,
{
    if i < s.len() && in_class(s[i], k) {
        lemma_run_end_bounds(s, i + 1, k);
    }
}

/// The search for a closing quote ends inside the text, passes over no
/// quote of that kind, and stops at one if there is one.
pub proof fn lemma_closing_bounds(s: Seq<char>, i: int, q: char)
    requires
        0 <= i <= s.len(),
    ensures
        i <= closing(s, i, q) <= s.len(),
        forall|x: int| i <= x < closing(s, i, q) ==> #[trigger] s[x] != q,
        closing(s, i, q) < s.len() ==> s[closing(s, i, q)] == q,
    decreases s.len() - i,
{
    if i < s.len() && s[i] != q {
        lemma_closing_bounds(s, i + 1, q);
    }
}

/// Every step of the lexer moves forward and stays inside the text, so the
/// guard in `lex` never cuts the text short.
pub proof fn lemma_scan_advances(s: Seq<char>, i: int, prev: bool)
    requires
        0 <= i < s.len(),
    ensures
        i < scan_one(s, i, prev).next <= s.len(),
{
    lemma_run_end_bounds(s, i + 1, Class::Digit);
    lemma_run_end_bounds(s, i + 1, Class::Word);
    lemma_closing_bounds(s, i + 1, s[i]);
    let j = run_end(s, i + 1, Class::Word);
    lemma_call_form_bounds(s, j);
}

/// A name in call form lies inside the text, after `j` and before the
/// position that the lexer goes on from.
pub proof fn lemma_call_form_bounds(s: Seq<char>, j: int)
    requires
        0 <= j <= s.len(),
    ensures
        call_form(s, j) matches Some((a, b, next)) ==> j < a <= b < next <= s.len(),
{
    lemma_run_end_bounds(s, j, Class::Space);
    let a = run_end(s, j, Class::Space);
    if a < s.len() {
        lemma_run_end_bounds(s, a + 1, Class::Space);
        let b = run_end(s, a + 1, Class::Space);
        if b < s.len() {
            lemma_closing_bounds(s, b + 1, s[b]);
            let k = closing(s, b + 1, s[b]);
            if k < s.len() {
                lemma_run_end_bounds(s, k + 1, Class::Space);
            }
        }
    }
}

fn chars_of(s: &str) -> (v: Vec<char>)
    ensures
        v@ == s@,
{
    let mut v: Vec<char> = Vec::new();
    for c in it: s.chars()
        invariant
            it.seq() == s@,
            v@ == it.seq().take(it.index()),
    {
        v.push(c);
        assert(it.seq().take(it.index() + 1) =~= it.seq().take(it.index()).push(c));
    }
    assert(v@ =~= s@);
    v
}

fn quote(c: char) -> (r: bool)
    ensures
        r == is_quote(c),
{
    c == '"' || c == '\'' || c == '`'
}

fn belongs(c: char, k: Class) -> (r: bool)
    ensures
        r == in_class(c, k),
{
    match k {
        Class::Space => space(c),
        Class::Digit => digit(c),
        Class::Word => letter(c) || digit(c) || c == '_',
    }
}

fn scan_run(chars: &Vec<char>, i: usize, k: Class) -> (j: usize)
    requires
        i <= chars.len(),
    ensures
        j == run_end(chars@, i as int, k),
        i <= j <= chars.len(),
{
    let mut j = i;
    while j < chars.len() && belongs(chars[j], k)
        invariant
            i <= j <= chars.len(),
            run_end(chars@, j as int, k) == run_end(chars@, i as int, k),
        decreases chars.len() - j,
    {
        j = j + 1;
    }
    j
}

fn scan_closing(chars: &Vec<char>, i: usize, q: char) -> (j: usize)
    requires
        i <= chars.len(),
    ensures
        j == closing(chars@, i as int, q),
        i <= j <= chars.len(),
{
    let mut j = i;
    while j < chars.len() && chars[j] != q
        invariant
            i <= j <= chars.len(),
            closing(chars@, j as int, q) == closing(chars@, i as int, q),
        decreases chars.len() - j,
    {
        j = j + 1;
    }
    j
}

/// One more digit does not make a number smaller.
proof fn lemma_decimal_grows(s: Seq<char>)
    requires
        s.len() > 0,
    ensures
        decimal(s) >= decimal(s.drop_last()),
{
}

fn literal_value(chars: &Vec<char>, a: usize, b: usize) -> (v: i64)
    requires
        a <= b <= chars.len(),
        forall|x: int| a <= x < b ==> is_digit(#[trigger] chars@[x]),
    ensures
        v == literal(chars@.subrange(a as int, b as int)),
{
    let mut acc: i64 = 0;
    let mut fits = true;
    let mut k = a;
    assert(chars@.subrange(a as int, a as int).len() == 0);
    while k < b
        invariant
            a <= k <= b <= chars.len(),
            forall|x: int| a <= x < b ==> is_digit(#[trigger] chars@[x]),
            fits ==> 0 <= acc && acc == decimal(chars@.subrange(a as int, k as int)),
            !fits ==> decimal(chars@.subrange(a as int, k as int)) > i64::MAX,
        decreases b - k,
    {
        let c = chars[k];
        proof {
            let t = chars@.subrange(a as int, k + 1);
            assert(t.drop_last() =~= chars@.subrange(a as int, k as int));
            assert(t.last() == c);
            assert(is_digit(chars@[k as int]));
            lemma_decimal_grows(t);
        }
        if fits {
            let d: i64 = (c as u32 - '0' as u32) as i64;
            match acc.checked_mul(10) {
                Some(m) => match m.checked_add(d) {
                    Some(r) => {
                        acc = r;
                    },
                    None => {
                        fits = false;
                    },
                },
                None => {
                    fits = false;
                },
            }
        }
        k = k + 1;
    }
    if fits {
        acc
    } else {
        0
    }
}

fn spells_var(chars: &Vec<char>, a: usize, b: usize) -> (r: bool)
    requires
        a <= b <= chars.len(),
    ensures
        r == is_var(chars@.subrange(a as int, b as int)),
{
    if b - a != 3 {
        return false;
    }
    let c0 = chars[a];
    let c1 = chars[a + 1];
    let c2 = chars[a + 2];
    proof {
        let t = chars@.subrange(a as int, b as int);
        assert(t[0] == c0 && t[1] == c1 && t[2] == c2);
    }
    (c0 == 'v' || c0 == 'V') && (c1 == 'a' || c1 == 'A') && (c2 == 'r' || c2 == 'R')
}

fn scan_call(chars: &Vec<char>, j: usize) -> (r: Option<(usize, usize, usize)>)
    requires
        j <= chars.len(),
    ensures
        match r {
            Some((a, b, next)) => call_form(chars@, j as int) == Some(
                (a as int, b as int, next as int),
            ),
            None => call_form(chars@, j as int).is_none(),
        },
{
    let n = chars.len();
    let a = scan_run(chars, j, Class::Space);
    if a < n && chars[a] == '(' {
        let b = scan_run(chars, a + 1, Class::Space);
        if b < n && quote(chars[b]) {
            let k = scan_closing(chars, b + 1, chars[b]);
            if k < n {
                let d = scan_run(chars, k + 1, Class::Space);
                if d < n && chars[d] == ')' {
                    return Some((b + 1, k, d + 1));
                }
            }
        }
    }
    None
}

/// Names added at the end of the table leave what the earlier tokens stand
/// for as it was.
proof fn lemma_lexemes_push(
    toks: Seq<Tok>,
    names: Seq<Seq<char>>,
    grown: Seq<Seq<char>>,
    t: Tok,
)
    requires
        names_cover(toks, names.len()),
        names.len() <= grown.len(),
        forall|k: int| 0 <= k < names.len() ==> grown[k] == names[k],
    ensures
        lexemes(toks, grown) =~= lexemes(toks, names),
        lexemes(toks.push(t), grown) =~= lexemes(toks, names).push(lexeme_of(t, grown)),
{
    assert forall|k: int| 0 <= k < toks.len() implies lexeme_of(toks[k], grown) == lexeme_of(
        toks[k],
        names,
    ) by {
        let _ = toks[k];
    }
}

/// Splits a formula into tokens. Digits form numbers, a word or a quoted
/// text forms a variable (as does `var("...")`), `-` is unary unless a value
/// precedes it, and every other character is passed over.
pub fn tokenize(expr: &str) -> (ts: TokStream)
    ensures
        ts.wf(),
        ts@ == lex(expr@, 0, false),
{
    let chars = chars_of(expr);
    let n = chars.len();
    let mut toks: Vec<Tok> = Vec::new();
    let mut names: Vec<String> = Vec::new();
    let mut prev = false;
    let mut i: usize = 0;
    assert(lexemes(toks@, names_of(names@)) + lex(expr@, 0, false) =~= lex(expr@, 0, false));
    while i < n
        invariant
            i <= n,
            n == chars.len(),
            chars@ == expr@,
            names_cover(toks@, names@.len()),
            names_used(toks@, names@.len()),
            lexemes(toks@, names_of(names@)) + lex(expr@, i as int, prev) == lex(expr@, 0, false),
        decreases n - i,
    {
        let c = chars[i];
        let ghost step = scan_one(chars@, i as int, prev);
        let ghost done = lexemes(toks@, names_of(names@));
        let ghost old_toks = toks@;
        let ghost old_names = names_of(names@);
        proof {
            lemma_scan_advances(chars@, i as int, prev);
            lemma_run_end_bounds(chars@, i + 1, Class::Digit);
            lemma_run_end_bounds(chars@, i + 1, Class::Word);
            lemma_closing_bounds(chars@, i + 1, c);
            lemma_call_form_bounds(chars@, run_end(chars@, i + 1, Class::Word));
        }
        let mut emit: Option<Tok> = None;
        let mut span: Option<(usize, usize)> = None;
        let next: usize;
        let value: bool;
        if digit(c) {
            let j = scan_run(&chars, i + 1, Class::Digit);
            emit = Some(Tok::Num(literal_value(&chars, i, j)));
            next = j;
            value = true;
        } else if quote(c) {
            let k = scan_closing(&chars, i + 1, c);
            if k < n {
                span = Some((i + 1, k));
                next = k + 1;
                value = true;
            } else {
                next = i + 1;
                value = prev;
            }
        } else if c == '_' || letter(c) {
            let j = scan_run(&chars, i + 1, Class::Word);
            let call = scan_call(&chars, j);
            let keyword = spells_var(&chars, i, j);
            match call {
                Some((a, b, after)) => {
                    if keyword {
                        span = Some((a, b));
                        next = after;
                    } else {
                        span = Some((i, j));
                        next = j;
                    }
                },
                None => {
                    span = Some((i, j));
                    next = j;
                },
            }
            value = true;
        } else if c == '+' {
            emit = Some(Tok::Op(BinOp::Add));
            next = i + 1;
            value = false;
        } else if c == '*' {
            emit = Some(Tok::Op(BinOp::Mul));
            next = i + 1;
            value = false;
        } else if c == '/' {
            emit = Some(Tok::Op(BinOp::Div));
            next = i + 1;
            value = false;
        } else if c == '-' {
            emit = Some(if prev { Tok::Op(BinOp::Sub) } else { Tok::UMinus });
            next = i + 1;
            value = false;
        } else if c == '(' {
            emit = Some(Tok::LParen);
            next = i + 1;
            value = false;
        } else if c == ')' {
            emit = Some(Tok::RParen);
            next = i + 1;
            value = true;
        } else {
            next = i + 1;
            value = prev;
        }
        assert(next == step.next && value == step.value);
        assert(match span {
            Some((a, b)) => a <= b <= n && emit.is_none() && step.emit == Some(
                Lexeme::Name(chars@.subrange(a as int, b as int)),
            ),
            None => match emit {
                Some(t) => !(t is Var) && step.emit == Some(lexeme_of(t, old_names)),
                None => step.emit.is_none(),
            },
        });
        match span {
            Some((a, b)) => {
                let idx = names.len();
                names.push(expr.substring_char(a, b).to_owned());
                emit = Some(Tok::Var(idx));
            },
            None => {},
        }
        let ghost grown = names_of(names@);
        match emit {
            Some(t) => {
                toks.push(t);
                proof {
                    assert forall|idx: int| 0 <= idx < names@.len() implies #[trigger] refers(
                        toks@,
                        idx,
                    ) by {
                        if idx < old_names.len() {
                            assert(refers(old_toks, idx));
                            let k = choose|k: int|
                                0 <= k < old_toks.len() && (#[trigger] old_toks[k] matches Tok::Var(
                                    v,
                                ) && v == idx);
                            assert(toks@[k] == old_toks[k]);
                        } else {
                            assert(toks@[old_toks.len() as int] == t);
                        }
                    }
                    lemma_lexemes_push(old_toks, old_names, grown, t);
                    let rest = lex(expr@, next as int, value);
                    let x = lexeme_of(t, grown);
                    assert(step.emit == Some(x));
                    assert(done.push(x) + rest =~= done + (seq![x] + rest));
                }
            },
            None => {},
        }
        i = next;
        prev = value;
    }
    assert(lex(expr@, n as int, prev) =~= Seq::<Lexeme>::empty());
    assert(lexemes(toks@, names_of(names@)) + Seq::<Lexeme>::empty() =~= lexemes(
        toks@,
        names_of(names@),
    ));
    TokStream { toks, names }
}

} // verus!
