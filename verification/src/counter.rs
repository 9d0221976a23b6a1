//! The counter button: a short press applies one configured operation to a
//! counter, a long press another, and every change is announced.

use vstd::prelude::*;
use crate::arith::{clamp, quotient, sat_add, sat_div, sat_mul, sat_sub};
use crate::json::{at, fields, signed_field, FieldView};
use crate::press::{Deadline, PressArbiter, PressOutcome, PressPhase, DEFAULT_LONG_PRESS_MS};
use crate::settings::{get_i64, get_str, get_u64, long_press_of, signed_of, text_of};
use crate::state::{
    counter_key, counter_key_spec, counter_value, init_or_load_counter, initialised, read_counter,
    write_counter,
};
use crate::text::same_text;
use crate::topics::{CounterChanged, CounterChangedView};

verus! {

/// What a press does to a counter.
#[derive(Clone, Copy, Debug, PartialEq, Eq, Structural)]
pub enum Op {
    /// Leave the counter as it is; `none` in the settings.
    Noop,
    /// Add the operand; `add`.
    Add,
    /// Subtract the operand; `subtract`.
    Subtract,
    /// Multiply by the operand; `multiply`.
    Multiply,
    /// Divide by the operand, unless it is zero; `divide`.
    Divide,
    /// Go back to the initial value; `reset`.
    Reset,
    /// Take the operand as the new value; `set`.
    Assign,
}

/// The counter after `op` with operand `n`, where `init` is the configured
/// initial value. Arithmetic saturates, division rounds toward zero, and a
/// division by zero leaves the counter as it is.
pub open spec fn applied(op: Op, base: i64, n: i64, init: i64) -> i64 {
    match op {
        Op::Noop => base,
        Op::Add => clamp(base + n),
        Op::Subtract => clamp(base - n),
        Op::Multiply => clamp(base * n),
        Op::Divide => if n == 0 {
            base
        } else {
            clamp(quotient(base as int, n as int))
        },
        Op::Reset => init,
        Op::Assign => n,
    }
}

/// Whether the outcome of `op` counts as a change that is stored, announced
/// and drawn: any new value does, and a reset always does.
pub open spec fn counts_as_change(op: Op, base: i64, next: i64) -> bool {
    next != base || op == Op::Reset
}

/// The value to store and announce after `op`, if the outcome counts as a
/// change.
pub open spec fn update_of(op: Op, base: i64, n: i64, init: i64) -> Option<i64> {
    if counts_as_change(op, base, applied(op, base, n, init)) {
        Some(applied(op, base, n, init))
    } else {
        None
    }
}

/// Applies an operation to a counter's value.
pub fn apply(op: Op, base: i64, n: i64, init: i64) -> (next: i64)
    ensures
        next == applied(op, base, n, init),
{
    match op {
        Op::Noop => base,
        Op::Add => sat_add(base, n),
        Op::Subtract => sat_sub(base, n),
        Op::Multiply => sat_mul(base, n),
        Op::Divide => {
            if n == 0 {
                base
            } else {
                sat_div(base, n)
            }
        },
        Op::Reset => init,
        Op::Assign => n,
    }
}

/// Applies an operation and says whether the outcome counts as a change:
/// the new value if it does, nothing if the press is to pass unnoticed.
pub fn update(op: Op, base: i64, n: i64, init: i64) -> (next: Option<i64>)
    ensures
        next == update_of(op, base, n, init),
{
    let v = apply(op, base, n, init);
    let reset = match op {
        Op::Reset => true,
        _ => false,
    };
    if v != base || reset {
        Some(v)
    } else {
        None
    }
}

/// Dividing by zero leaves the counter unchanged and announces nothing. A
/// reset restores the initial value and always counts as a change, even
/// where the counter already stands at its initial value.
pub proof fn law_divide_by_zero_and_reset(base: i64, n: i64, init: i64)
    ensures
        applied(Op::Divide, base, 0, init) == base,
        update_of(Op::Divide, base, 0, init).is_none(),
        applied(Op::Reset, base, n, init) == init,
        update_of(Op::Reset, base, n, init) == Some(init),
{
}

/// The operation that a name in the settings selects.
pub open spec fn op_named(name: Seq<char>) -> Option<Op> {
    if name == "none"@ {
        Some(Op::Noop)
    } else if name == "add"@ {
        Some(Op::Add)
    } else if name == "subtract"@ {
        Some(Op::Subtract)
    } else if name == "multiply"@ {
        Some(Op::Multiply)
    } else if name == "divide"@ {
        Some(Op::Divide)
    } else if name == "reset"@ {
        Some(Op::Reset)
    } else if name == "set"@ {
        Some(Op::Assign)
    } else {
        None
    }
}

/// The operation that a field selects, if it names one.
pub open spec fn op_of(f: FieldView) -> Option<Op> {
    match text_of(f) {
        Some(name) => op_named(name),
        None => None,
    }
}

/// The operation setting under `k`.
pub fn get_op(v: &serde_json::Map<String, serde_json::Value>, k: &str) -> (r: Option<Op>)
    ensures
        r == op_of(at(fields(*v), k@)),
{
    match get_str(v, k) {
        Some(name) => {
            let s = name.as_str();
            if same_text(s, "none") {
                Some(Op::Noop)
            } else if same_text(s, "add") {
                Some(Op::Add)
            } else if same_text(s, "subtract") {
                Some(Op::Subtract)
            } else if same_text(s, "multiply") {
                Some(Op::Multiply)
            } else if same_text(s, "divide") {
                Some(Op::Divide)
            } else if same_text(s, "reset") {
                Some(Op::Reset)
            } else if same_text(s, "set") {
                Some(Op::Assign)
            } else {
                None
            }
        },
        None => None,
    }
}

/// What a counter button is configured with.
#[derive(Clone, Debug, PartialEq, Eq)]
pub struct CounterSettings {
    /// The shared counter to act on; blank for the button's own.
    pub counter_id: String,
    pub initial_value: i64,
    pub short_action: Op,
    pub short_value: i64,
    pub long_action: Op,
    pub long_value: i64,
    pub long_press_ms: u64,
}

/// The mathematical value of [`CounterSettings`].
pub struct CounterSettingsView {
    pub counter_id: Seq<char>,
    pub initial_value: i64,
    pub short_action: Op,
    pub short_value: i64,
    pub long_action: Op,
    pub long_value: i64,
    pub long_press_ms: u64,
}

impl View for CounterSettings {
    type V = CounterSettingsView;

    open spec fn view(&self) -> CounterSettingsView {
        CounterSettingsView {
            counter_id: self.counter_id@,
            initial_value: self.initial_value,
            short_action: self.short_action,
            short_value: self.short_value,
            long_action: self.long_action,
            long_value: self.long_value,
            long_press_ms: self.long_press_ms,
        }
    }
}

/// The settings that a settings object gives a counter button. What is
/// missing or malformed takes its default: no shared counter, initial value
/// 0, a short press that adds 1, a long press that does nothing, and a
/// long-press delay of 500 milliseconds.
pub open spec fn parsed_settings(store: Map<Seq<char>, FieldView>) -> CounterSettingsView {
    CounterSettingsView {
        counter_id: match text_of(at(store, "counterId"@)) {
            Some(s) => s,
            None => Seq::empty(),
        },
        initial_value: match signed_of(at(store, "initialValue"@)) {
            Some(v) => v,
            None => 0,
        },
        short_action: match op_of(at(store, "shortAction"@)) {
            Some(op) => op,
            None => Op::Add,
        },
        short_value: match signed_of(at(store, "shortValue"@)) {
            Some(v) => v,
            None => 1,
        },
        long_action: match op_of(at(store, "longAction"@)) {
            Some(op) => op,
            None => Op::Noop,
        },
        long_value: match signed_of(at(store, "longValue"@)) {
            Some(v) => v,
            None => 0,
        },
        long_press_ms: long_press_of(at(store, "longPressMs"@)),
    }
}

/// Reads a counter button's settings, substituting the defaults for what
/// is missing or malformed.
pub fn parse_settings(v: &serde_json::Map<String, serde_json::Value>) -> (s: CounterSettings)
    ensures
        s@ == parsed_settings(fields(*v)),
{
    CounterSettings {
        counter_id: match get_str(v, "counterId") {
            Some(s) => s,
            None => String::new(),
        },
        initial_value: match get_i64(v, "initialValue") {
            Some(n) => n,
            None => 0,
        },
        short_action: match get_op(v, "shortAction") {
            Some(op) => op,
            None => Op::Add,
        },
        short_value: match get_i64(v, "shortValue") {
            Some(n) => n,
            None => 1,
        },
        long_action: match get_op(v, "longAction") {
            Some(op) => op,
            None => Op::Noop,
        },
        long_value: match get_i64(v, "longValue") {
            Some(n) => n,
            None => 0,
        },
        long_press_ms: match get_u64(v, "longPressMs") {
            Some(ms) => ms,
            None => DEFAULT_LONG_PRESS_MS,
        },
    }
}


/// A counter button.
#[derive(Clone, Debug, PartialEq, Eq)]
pub struct CounterAction {
    pub press: PressArbiter,
    /// The key of the counter that the button shows, once it is known.
    pub counter_key: Option<String>,
    /// The settings that the press in progress began with.
    pub active: Option<CounterSettings>,
}

/// The mathematical value of a [`CounterAction`].
pub struct CounterActionView {
    pub press: PressArbiter,
    pub counter_key: Option<Seq<char>>,
    pub active: Option<CounterSettingsView>,
}

impl View for CounterAction {
    type V = CounterActionView;

    open spec fn view(&self) -> CounterActionView {
        CounterActionView {
            press: self.press,
            counter_key: match self.counter_key {
                Some(k) => Some(k@),
                None => None,
            },
            active: match self.active {
                Some(s) => Some(s@),
                None => None,
            },
        }
    }
}

/// The change that a press of the button with context `ctx` brings about
/// under settings `s`: of the long-press operation if `long`, else of the
/// short-press operation. None where the outcome does not count as a change.
pub open spec fn change_of(
    store: Map<Seq<char>, FieldView>,
    s: CounterSettingsView,
    ctx: Seq<char>,
    long: bool,
) -> Option<CounterChangedView> {
    let key = counter_key_spec(s.counter_id, ctx);
    let base = counter_value(store, key, s.initial_value);
    let next = if long {
        update_of(s.long_action, base, s.long_value, s.initial_value)
    } else {
        update_of(s.short_action, base, s.short_value, s.initial_value)
    };
    match next {
        Some(value) => Some(CounterChangedView { counter_key: key, value }),
        None => None,
    }
}

/// The store after a change, if there was one.
pub open spec fn store_after(
    store: Map<Seq<char>, FieldView>,
    change: Option<CounterChangedView>,
) -> Map<Seq<char>, FieldView> {
    match change {
        Some(c) => store.insert(c.counter_key, signed_field(c.value)),
        None => store,
    }
}

/// A press whose operation divides by zero changes and announces nothing,
/// whatever the counter holds. A press whose operation is a reset announces
/// the initial value and stores it, even where the counter already holds it.
pub proof fn law_silent_division_and_loud_reset(
    store: Map<Seq<char>, FieldView>,
    s: CounterSettingsView,
    ctx: Seq<char>,
)
    ensures
        s.short_action == Op::Divide && s.short_value == 0 ==> change_of(
            store,
            s,
            ctx,
            false,
        ).is_none() && store_after(store, change_of(store, s, ctx, false)) == store,
        s.long_action == Op::Divide && s.long_value == 0 ==> change_of(
            store,
            s,
            ctx,
            true,
        ).is_none(),
        s.short_action == Op::Reset ==> change_of(store, s, ctx, false) == Some(
            CounterChangedView {
                counter_key: counter_key_spec(s.counter_id, ctx),
                value: s.initial_value,
            },
        ),
        s.long_action == Op::Reset ==> change_of(store, s, ctx, true) == Some(
            CounterChangedView {
                counter_key: counter_key_spec(s.counter_id, ctx),
                value: s.initial_value,
            },
        ),
        s.short_action == Op::Reset ==> counter_value(
            store_after(store, change_of(store, s, ctx, false)),
            counter_key_spec(s.counter_id, ctx),
            s.initial_value,
        ) == s.initial_value,
{
}

/// The change that a release brings about: that of the short-press
/// operation, unless the long-press action fired for this press or no
/// press began.
pub open spec fn release_change(
    a: CounterActionView,
    store: Map<Seq<char>, FieldView>,
    ctx: Seq<char>,
) -> Option<CounterChangedView> {
    match a.active {
        Some(s) if a.press.outcome() == PressOutcome::Short => change_of(store, s, ctx, false),
        _ => None,
    }
}

/// The change that the deadline of the press with `epoch` brings about:
/// that of the long-press operation, if that press is still held.
pub open spec fn deadline_change(
    a: CounterActionView,
    store: Map<Seq<char>, FieldView>,
    ctx: Seq<char>,
    epoch: u64,
) -> Option<CounterChangedView> {
    match a.active {
        Some(s) if a.press.fires(epoch) => change_of(store, s, ctx, true),
        _ => None,
    }
}

/// Applies one of the two configured operations to the counter in the
/// store and returns the change to announce, if it counts as one.
fn act(
    settings: &CounterSettings,
    ctx_id: &str,
    long: bool,
    counters: &mut serde_json::Map<String, serde_json::Value>,
) -> (change: Option<CounterChanged>)
    ensures
        match change {
            Some(c) => change_of(fields(*old(counters)), settings@, ctx_id@, long) == Some(c@),
            None => change_of(fields(*old(counters)), settings@, ctx_id@, long).is_none(),
        },
        fields(*final(counters)) == store_after(
            fields(*old(counters)),
            change_of(fields(*old(counters)), settings@, ctx_id@, long),
        ),
{
    let key = counter_key(settings.counter_id.as_str(), ctx_id);
    let base = read_counter(counters, key.as_str(), settings.initial_value);
    let next = if long {
        update(settings.long_action, base, settings.long_value, settings.initial_value)
    } else {
        update(settings.short_action, base, settings.short_value, settings.initial_value)
    };
    match next {
        Some(value) => {
            write_counter(counters, key.as_str(), value);
            Some(CounterChanged { counter_key: key, value })
        },
        None => None,
    }
}

impl CounterAction {
    /// Creates a counter button that knows neither its counter nor any
    /// settings yet.
    pub fn new() -> (a: CounterAction)
        ensures
            a@ == (CounterActionView {
                press: PressArbiter {
                    seq: 0,
                    phase: PressPhase::Idle,
                    delay_ms: DEFAULT_LONG_PRESS_MS,
                },
                counter_key: None,
                active: None,
            }),
    {
        CounterAction {
            press: PressArbiter::new(DEFAULT_LONG_PRESS_MS),
            counter_key: None,
            active: None,
        }
    }

    /// Takes new settings: the button now shows the counter they name,
    /// which is set up with its initial value if it is new. Returns the
    /// value to draw.
    pub fn did_receive_settings(
        &mut self,
        settings: &serde_json::Map<String, serde_json::Value>,
        ctx_id: &str,
        counters: &mut serde_json::Map<String, serde_json::Value>,
    ) -> (current: i64)
        ensures
            ({
                let s = parsed_settings(fields(*settings));
                let key = counter_key_spec(s.counter_id, ctx_id@);
                &&& final(self)@ == (CounterActionView { counter_key: Some(key), ..old(self)@ })
                &&& current == counter_value(fields(*old(counters)), key, s.initial_value)
                &&& fields(*final(counters)) == initialised(
                    fields(*old(counters)),
                    key,
                    s.initial_value,
                )
            }),
    {
        let s = parse_settings(settings);
        let key = counter_key(s.counter_id.as_str(), ctx_id);
        let current = init_or_load_counter(counters, key.as_str(), s.initial_value);
        self.counter_key = Some(key);
        current
    }

    /// The button goes down with the settings of the moment: the counter
    /// they name is set up if it is new, a press begins with their
    /// long-press delay, and the settings are kept for the release. Returns
    /// the value to draw and the deadline to schedule.
    pub fn key_down(
        &mut self,
        settings: &serde_json::Map<String, serde_json::Value>,
        ctx_id: &str,
        counters: &mut serde_json::Map<String, serde_json::Value>,
    ) -> (r: (i64, Deadline))
        ensures
            ({
                let s = parsed_settings(fields(*settings));
                let key = counter_key_spec(s.counter_id, ctx_id@);
                let press = (PressArbiter {
                    delay_ms: s.long_press_ms,
                    ..old(self).press
                }).pressed();
                &&& final(self)@ == (CounterActionView {
                    press,
                    counter_key: Some(key),
                    active: Some(s),
                })
                &&& r.0 == counter_value(fields(*old(counters)), key, s.initial_value)
                &&& r.1 == (Deadline { epoch: press.seq, delay_ms: s.long_press_ms })
                &&& fields(*final(counters)) == initialised(
                    fields(*old(counters)),
                    key,
                    s.initial_value,
                )
            }),
    {
        let s = parse_settings(settings);
        let key = counter_key(s.counter_id.as_str(), ctx_id);
        let current = init_or_load_counter(counters, key.as_str(), s.initial_value);
        self.counter_key = Some(key);
        self.press.set_delay(s.long_press_ms);
        self.active = Some(s);
        let deadline = self.press.begin_press();
        (current, deadline)
    }

    /// The deadline of the press with `epoch` arrived. If that press is
    /// still held, the long-press operation is applied to the counter as
    /// the store now holds it; the change, if it counts as one, is stored
    /// and returned for the host to announce and draw. A deadline of a press
    /// that was released or superseded does nothing.
    pub fn long_press(
        &mut self,
        epoch: u64,
        ctx_id: &str,
        counters: &mut serde_json::Map<String, serde_json::Value>,
    ) -> (change: Option<CounterChanged>)
        ensures
            final(self)@ == (CounterActionView {
                press: old(self).press.after_deadline(epoch),
                ..old(self)@
            }),
            match change {
                Some(c) => deadline_change(old(self)@, fields(*old(counters)), ctx_id@, epoch)
                    == Some(c@),
                None => deadline_change(
                    old(self)@,
                    fields(*old(counters)),
                    ctx_id@,
                    epoch,
                ).is_none(),
            },
            fields(*final(counters)) == store_after(
                fields(*old(counters)),
                deadline_change(old(self)@, fields(*old(counters)), ctx_id@, epoch),
            ),
    {
        if self.press.on_deadline(epoch) {
            match &self.active {
                Some(s) => act(s, ctx_id, true, counters),
                None => None,
            }
        } else {
            None
        }
    }

    /// The button goes up. Unless the long-press action fired for this
    /// press, the short-press operation is applied to the counter as the
    /// store now holds it; the change, if it counts as one, is stored and
    /// returned for the host to announce and draw.
    pub fn key_up(
        &mut self,
        ctx_id: &str,
        counters: &mut serde_json::Map<String, serde_json::Value>,
    ) -> (r: (PressOutcome, Option<CounterChanged>))
        ensures
            r.0 == old(self).press.outcome(),
            final(self)@ == (CounterActionView { press: old(self).press.released(), ..old(self)@ }),
            match r.1 {
                Some(c) => release_change(old(self)@, fields(*old(counters)), ctx_id@) == Some(c@),
                None => release_change(old(self)@, fields(*old(counters)), ctx_id@).is_none(),
            },
            fields(*final(counters)) == store_after(
                fields(*old(counters)),
                release_change(old(self)@, fields(*old(counters)), ctx_id@),
            ),
    {
        let outcome = self.press.end_press();
        let change = match outcome {
            PressOutcome::LongAlreadyFired => None,
            PressOutcome::Short => match &self.active {
                Some(s) => act(s, ctx_id, false, counters),
                None => None,
            },
        };
        (outcome, change)
    }

    /// Another button announced a change. Returns the value to draw if the
    /// change is to the counter that this button shows.
    pub fn on_notify(&self, ctx_id: &str, event: &CounterChanged) -> (value: Option<i64>)
        ensures
            value == if event.counter_key@ == (match self@.counter_key {
                Some(k) => k,
                None => ctx_id@,
            }) {
                Some(event.value)
            } else {
                None
            },
    {
        let mine = match &self.counter_key {
            Some(k) => same_text(event.counter_key.as_str(), k.as_str()),
            None => same_text(event.counter_key.as_str(), ctx_id),
        };
        if mine {
            Some(event.value)
        } else {
            None
        }
    }
}

} // verus!
