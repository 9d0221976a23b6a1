//! Decision logic for deck buttons that count, count down, time, or show a
//! formula: press arbitration, tick scheduling, anchored persistence, and the
//! per-button policies built from them.
//!
//! The buttons decide and their host acts. Every event that the host
//! delivers (a press, a release, a deadline, a tick, new settings) is one
//! call that changes the button's state and returns what the host is to
//! draw, store, schedule or announce.

// Primitives.
pub mod arith;
pub mod epoch;
pub mod text;
pub mod json;
pub mod settings;

// The timing engine.
pub mod press;
pub mod tick;
pub mod anchor;
pub mod effects;

// Formulas.
pub mod formula;
pub mod lexer;
pub mod rpn;
pub mod eval;
pub mod grammar;
pub mod spelling;

// The buttons.
pub mod state;
pub mod topics;
pub mod counter;
pub mod computed;
pub mod timer;
pub mod stopwatch;
pub mod render;
