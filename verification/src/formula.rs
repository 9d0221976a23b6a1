//! Integer formulas over named counters. A formula is split into tokens,
//! reordered from infix to postfix, and evaluated on a stack.
//!
//! This module holds what the three steps share: the tokens, and the
//! lexemes that they stand for once their names are looked up.

use vstd::prelude::*;

verus! {

/// A binary operator of a formula.
#[derive(Clone, Copy, Debug, PartialEq, Eq, Structural)]
pub enum BinOp {
    Add,
    Sub,
    Mul,
    Div,
}

/// One token of a formula. A variable refers to its name by position in
/// the name table of the stream it belongs to.
#[derive(Clone, Copy, Debug, PartialEq, Eq, Structural)]
pub enum Tok {
    Num(i64),
    Var(usize),
    Op(BinOp),
    UMinus,
    LParen,
    RParen,
}

/// What a token means once its name is looked up.
pub enum Lexeme {
    Num(i64),
    Name(Seq<char>),
    Op(BinOp),
    UMinus,
    LParen,
    RParen,
}

/// The tokens of a formula, with the names its variables refer to.
pub struct TokStream {
    pub toks: Vec<Tok>,
    pub names: Vec<String>,
}

/// The texts of a name table.
pub open spec fn names_of(names: Seq<String>) -> Seq<Seq<char>> {
    Seq::new(names.len(), |k: int| names[k]@)
}

/// Every variable among `toks` refers to one of `n` names.
pub open spec fn names_cover(toks: Seq<Tok>, n: nat) -> bool {
    forall|k: int| 0 <= k < toks.len() ==> (#[trigger] toks[k] matches Tok::Var(idx) ==> idx < n)
}

/// The lexeme that a token stands for under the name table `names`. A
/// variable that refers outside the table stands for the empty name.
pub open spec fn lexeme_of(t: Tok, names: Seq<Seq<char>>) -> Lexeme {
    match t {
        Tok::Num(n) => Lexeme::Num(n),
        Tok::Var(idx) => Lexeme::Name(
            if idx < names.len() {
                names[idx as int]
            } else {
                Seq::empty()
            },
        ),
        Tok::Op(op) => Lexeme::Op(op),
        Tok::UMinus => Lexeme::UMinus,
        Tok::LParen => Lexeme::LParen,
        Tok::RParen => Lexeme::RParen,
    }
}

/// The lexemes that `toks` stand for under the name table `names`.
pub open spec fn lexemes(toks: Seq<Tok>, names: Seq<Seq<char>>) -> Seq<Lexeme> {
    Seq::new(toks.len(), |k: int| lexeme_of(toks[k], names))
}

/// Whether a variable among `toks` refers to the name at `idx`.
pub open spec fn refers(toks: Seq<Tok>, idx: int) -> bool {
    exists|k: int| 0 <= k < toks.len() && (#[trigger] toks[k] matches Tok::Var(v) && v == idx)
}

/// Every one of `n` names is referred to by a variable among `toks`.
pub open spec fn names_used(toks: Seq<Tok>, n: nat) -> bool {
    forall|idx: int| 0 <= idx < n ==> #[trigger] refers(toks, idx)
}

/// Whether the name `name` occurs among the lexemes `xs`.
pub open spec fn mentions(xs: Seq<Lexeme>, name: Seq<char>) -> bool {
    exists|k: int| 0 <= k < xs.len() && #[trigger] xs[k] == Lexeme::Name(name)
}

impl TokStream {
    /// The variables and the name table fit: every variable refers to a
    /// name in the table, and every name in the table is referred to.
    pub open spec fn wf(&self) -> bool {
        &&& names_cover(self.toks@, self.names@.len())
        &&& names_used(self.toks@, self.names@.len())
    }
}

/// The names in the table of a well-formed stream are exactly the names
/// that occur among its lexemes.
pub proof fn lemma_names_are_mentions(ts: TokStream, name: Seq<char>)
    requires
        ts.wf(),
    ensures
        mentions(ts@, name) <==> exists|i: int|
            0 <= i < ts.names@.len() && (#[trigger] ts.names@[i])@ == name,
{
    let nm = names_of(ts.names@);
    if mentions(ts@, name) {
        let k = choose|k: int| 0 <= k < ts@.len() && #[trigger] ts@[k] == Lexeme::Name(name);
        let t = ts.toks@[k];
        assert(ts@[k] == lexeme_of(t, nm));
        match t {
            Tok::Var(idx) => {
                assert(idx < ts.names@.len());
                assert(ts.names@[idx as int]@ == name);
            },
            _ => {},
        }
    }
    if exists|i: int| 0 <= i < ts.names@.len() && (#[trigger] ts.names@[i])@ == name {
        let i = choose|i: int| 0 <= i < ts.names@.len() && (#[trigger] ts.names@[i])@ == name;
        assert(refers(ts.toks@, i));
        let k = choose|k: int|
            0 <= k < ts.toks@.len() && (#[trigger] ts.toks@[k] matches Tok::Var(v) && v == i);
        assert(ts@[k] == lexeme_of(ts.toks@[k], nm));
        assert(ts@[k] == Lexeme::Name(name));
    }
}

impl View for TokStream {
    type V = Seq<Lexeme>;

    open spec fn view(&self) -> Seq<Lexeme> {
        lexemes(self.toks@, names_of(self.names@))
    }
}

} // verus!
