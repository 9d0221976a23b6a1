//! What buttons tell each other.

use vstd::prelude::*;

verus! {

/// The name of the topic on which counter changes are announced.
pub const COUNTER_CHANGED: &'static str = "counter_changed";

/// Announced whenever a counter's value changes: to the counter buttons
/// that show the same counter, and to the formula buttons that read it.
#[derive(Clone, Debug, PartialEq, Eq)]
pub struct CounterChanged {
    pub counter_key: String,
    pub value: i64,
}

/// The mathematical value of a [`CounterChanged`].
pub struct CounterChangedView {
    pub counter_key: Seq<char>,
    pub value: i64,
}

impl View for CounterChanged {
    type V = CounterChangedView;

    open spec fn view(&self) -> CounterChangedView {
        CounterChangedView { counter_key: self.counter_key@, value: self.value }
    }
}

} // verus!
