//! The formula button: it shows the value of an expression over counters
//! and follows them as they change.

use vstd::prelude::*;
use crate::eval::{eval_of, eval_rpn};
use crate::formula::{lemma_names_are_mentions, mentions};
use crate::lexer::{lex, tokenize};
use crate::rpn::{rpn_of, to_rpn};
use crate::json::{at, fields, FieldView};
use crate::settings::{flag_of, get_bool, get_str, text_of};
use crate::text::{same_text, trim, trimmed};
use crate::topics::CounterChanged;

verus! {

/// What a formula button is configured with.
#[derive(Clone, Debug, PartialEq, Eq)]
pub struct ExprConfig {
    /// The formula, trimmed; none where the settings give none.
    pub expression: Option<String>,
    /// Whether a counter that is missing counts as 0 (else as 1).
    pub missing_as_zero: bool,
}

/// The mathematical value of an [`ExprConfig`].
pub struct ExprConfigView {
    pub expression: Option<Seq<char>>,
    pub missing_as_zero: bool,
}

impl View for ExprConfig {
    type V = ExprConfigView;

    open spec fn view(&self) -> ExprConfigView {
        ExprConfigView {
            expression: match self.expression {
                Some(s) => Some(s@),
                None => None,
            },
            missing_as_zero: self.missing_as_zero,
        }
    }
}

/// The configuration that a settings object gives a formula button: the
/// expression, trimmed, unless it is blank, and whether missing counters
/// count as zero, which they do unless the settings say otherwise.
pub open spec fn parsed_settings(store: Map<Seq<char>, FieldView>) -> ExprConfigView {
    ExprConfigView {
        expression: match text_of(at(store, "expression"@)) {
            Some(s) if trimmed(s).len() > 0 => Some(trimmed(s)),
            _ => None,
        },
        missing_as_zero: match flag_of(at(store, "missingAsZero"@)) {
            Some(b) => b,
            None => true,
        },
    }
}

/// Reads a formula button's settings, substituting the defaults for what
/// is missing or malformed.
pub fn parse_settings(v: &serde_json::Map<String, serde_json::Value>) -> (c: ExprConfig)
    ensures
        c@ == parsed_settings(fields(*v)),
{
    let expression = match get_str(v, "expression") {
        Some(s) => {
            let t = trim(s.as_str());
            if t.is_empty() {
                None
            } else {
                Some(t.to_owned())
            }
        },
        None => None,
    };
    let missing_as_zero = match get_bool(v, "missingAsZero") {
        Some(b) => b,
        None => true,
    };
    ExprConfig { expression, missing_as_zero }
}

/// The value of a formula in infix notation over the counters in `store`.
pub open spec fn formula_value(
    expr: Seq<char>,
    store: Map<Seq<char>, FieldView>,
    missing_as_zero: bool,
) -> i64 {
    eval_of(rpn_of(lex(expr, 0, false)), store, missing_as_zero)
}

/// What a formula button shows: the value of its expression, 0 where it
/// has none.
pub open spec fn shown_value(c: ExprConfigView, store: Map<Seq<char>, FieldView>) -> i64 {
    match c.expression {
        Some(s) if trimmed(s).len() > 0 => formula_value(trimmed(s), store, c.missing_as_zero),
        _ => 0,
    }
}

/// Computes what a formula button shows over the counters given.
pub fn compute(cfg: &ExprConfig, counters: &serde_json::Map<String, serde_json::Value>) -> (v: i64)
    ensures
        v == shown_value(cfg@, fields(*counters)),
{
    match &cfg.expression {
        Some(s) => {
            let expr = trim(s.as_str());
            if expr.is_empty() {
                0
            } else {
                let ts = tokenize(expr);
                let rpn = to_rpn(&ts);
                eval_rpn(&rpn, &ts.names, counters, cfg.missing_as_zero)
            }
        },
        None => 0,
    }
}

/// Whether `name` is among `names`.
pub open spec fn holds(names: Seq<String>, name: Seq<char>) -> bool {
    exists|i: int| 0 <= i < names.len() && (#[trigger] names[i])@ == name
}

/// No text occurs twice among `names`.
pub open spec fn distinct(names: Seq<String>) -> bool {
    forall|i: int, j: int| 0 <= i < j < names.len() ==> names[i]@ != names[j]@
}

fn contains_name(names: &Vec<String>, name: &str) -> (r: bool)
    ensures
        r == holds(names@, name@),
{
    let mut i: usize = 0;
    while i < names.len()
        invariant
            i <= names.len(),
            forall|k: int| 0 <= k < i ==> (#[trigger] names@[k])@ != name@,
        decreases names.len() - i,
    {
        if same_text(names[i].as_str(), name) {
            return true;
        }
        i = i + 1;
    }
    false
}

/// A list that grew by one name holds what it held before, and that name.
proof fn lemma_holds_push(names: Seq<String>, last: String, name: Seq<char>)
    ensures
        holds(names.push(last), name) <==> holds(names, name) || last@ == name,
{
    let grown = names.push(last);
    if holds(names, name) {
        let i = choose|i: int| 0 <= i < names.len() && (#[trigger] names[i])@ == name;
        assert(grown[i]@ == name);
    }
    if last@ == name {
        assert(grown[names.len() as int]@ == name);
    }
    if holds(grown, name) {
        let i = choose|i: int| 0 <= i < grown.len() && (#[trigger] grown[i])@ == name;
        if i < names.len() {
            assert(names[i]@ == name);
        }
    }
}

/// The names that a formula reads, each once.
pub fn collect_idents(expr: &str) -> (deps: Vec<String>)
    ensures
        distinct(deps@),
        forall|name: Seq<char>| holds(deps@, name) <==> mentions(lex(expr@, 0, false), name),
{
    let ts = tokenize(expr);
    let mut deps: Vec<String> = Vec::new();
    let mut i: usize = 0;
    assert(ts.names@.take(0) =~= Seq::<String>::empty());
    while i < ts.names.len()
        invariant
            i <= ts.names.len(),
            distinct(deps@),
            forall|name: Seq<char>| holds(deps@, name) <==> holds(ts.names@.take(i as int), name),
        decreases ts.names.len() - i,
    {
        let candidate = ts.names[i].clone();
        let ghost before = deps@;
        let known = contains_name(&deps, candidate.as_str());
        if !known {
            deps.push(candidate);
        }
        proof {
            assert(ts.names@.take(i + 1) =~= ts.names@.take(i as int).push(ts.names@[i as int]));
            assert forall|name: Seq<char>| holds(deps@, name) <==> holds(
                ts.names@.take(i + 1),
                name,
            ) by {
                lemma_holds_push(ts.names@.take(i as int), ts.names@[i as int], name);
                if !known {
                    lemma_holds_push(before, candidate, name);
                }
            }
            if !known {
                assert forall|a: int, b: int| 0 <= a < b < deps@.len() implies deps@[a]@
                    != deps@[b]@ by {
                    if b == before.len() {
                        assert(before[a]@ != candidate@);
                    }
                }
            }
        }
        i = i + 1;
    }
    proof {
        assert(ts.names@.take(i as int) =~= ts.names@);
        assert forall|name: Seq<char>| holds(deps@, name) <==> mentions(
            lex(expr@, 0, false),
            name,
        ) by {
            lemma_names_are_mentions(ts, name);
        }
    }
    deps
}

/// A formula button.
#[derive(Clone, Debug, PartialEq, Eq)]
pub struct ComputedAction {
    pub config: ExprConfig,
    /// The names that the formula reads, each once.
    pub deps: Vec<String>,
}

impl ComputedAction {
    /// The names that the formula reads occur once each.
    pub open spec fn wf(&self) -> bool {
        distinct(self.deps@)
    }

    /// Whether a change to the counter `key` concerns the button: it does
    /// if the formula reads that counter, and always if the formula reads
    /// none by name.
    pub open spec fn concerns(&self, key: Seq<char>) -> bool {
        self.deps@.len() == 0 || holds(self.deps@, key)
    }

    /// Creates a formula button without a formula.
    pub fn new() -> (a: ComputedAction)
        ensures
            a.config@ == (ExprConfigView { expression: None, missing_as_zero: false }),
            a.deps@.len() == 0,
            a.wf(),
    {
        ComputedAction {
            config: ExprConfig { expression: None, missing_as_zero: false },
            deps: Vec::new(),
        }
    }

    /// Takes new settings: the formula and the names it reads are
    /// replaced. Returns the value to draw.
    pub fn did_receive_settings(
        &mut self,
        settings: &serde_json::Map<String, serde_json::Value>,
        counters: &serde_json::Map<String, serde_json::Value>,
    ) -> (v: i64)
        ensures
            final(self).config@ == parsed_settings(fields(*settings)),
            final(self).wf(),
            forall|name: Seq<char>|
                holds(final(self).deps@, name) <==> mentions(
                    lex(
                        match parsed_settings(fields(*settings)).expression {
                            Some(s) => s,
                            None => Seq::empty(),
                        },
                        0,
                        false,
                    ),
                    name,
                ),
            v == shown_value(parsed_settings(fields(*settings)), fields(*counters)),
    {
        let config = parse_settings(settings);
        let deps = match &config.expression {
            Some(s) => collect_idents(s.as_str()),
            None => {
                let empty = String::new();
                collect_idents(empty.as_str())
            },
        };
        let v = compute(&config, counters);
        self.config = config;
        self.deps = deps;
        v
    }

    /// A counter changed. Returns the value to draw, unless the formula
    /// names the counters it reads and the changed one is not among them.
    pub fn on_notify(
        &self,
        event: &CounterChanged,
        counters: &serde_json::Map<String, serde_json::Value>,
    ) -> (v: Option<i64>)
        ensures
            v == if self.concerns(event.counter_key@) {
                Some(shown_value(self.config@, fields(*counters)))
            } else {
                None
            },
    {
        if self.deps.len() > 0 && !contains_name(&self.deps, event.counter_key.as_str()) {
            None
        } else {
            Some(compute(&self.config, counters))
        }
    }
}

} // verus!
