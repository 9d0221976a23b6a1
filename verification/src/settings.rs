//! Reading single settings out of a JSON object. A number may be given as
//! a JSON number or as text that spells one; anything else counts as not
//! given, and the caller substitutes its default.

use vstd::prelude::*;
use crate::json::{field_at, read_field, Field, FieldView};
use crate::press::DEFAULT_LONG_PRESS_MS;
use crate::text::{parse_i64, parse_u64, parsed_i64, parsed_u64, trim, trimmed};

verus! {

/// The text that a field gives, if it is text.
pub open spec fn text_of(f: FieldView) -> Option<Seq<char>> {
    match f {
        FieldView::Text(s) => Some(s),
        _ => None,
    }
}

/// The unsigned integer that a field gives: a number that reads as `u64`,
/// or text that spells one once trimmed.
pub open spec fn unsigned_of(f: FieldView) -> Option<u64> {
    match f {
        FieldView::Number(u, _) => u,
        FieldView::Text(s) => parsed_u64(trimmed(s)),
        _ => None,
    }
}

/// The signed integer that a field gives: a number that reads as `i64`,
/// or text that spells one once trimmed.
pub open spec fn signed_of(f: FieldView) -> Option<i64> {
    match f {
        FieldView::Number(_, i) => i,
        FieldView::Text(s) => parsed_i64(trimmed(s)),
        _ => None,
    }
}

/// The truth value that a field gives, if it is one.
pub open spec fn flag_of(f: FieldView) -> Option<bool> {
    match f {
        FieldView::Flag(b) => Some(b),
        _ => None,
    }
}

/// The text setting under `k`.
pub fn get_str(v: &serde_json::Map<String, serde_json::Value>, k: &str) -> (r: Option<String>)
    ensures
        match r {
            Some(s) => text_of(field_at(*v, k@)) == Some(s@),
            None => text_of(field_at(*v, k@)).is_none(),
        },
{
    match read_field(v, k) {
        Field::Text(s) => Some(s),
        _ => None,
    }
}

/// The signed integer setting under `k`.
pub fn get_i64(v: &serde_json::Map<String, serde_json::Value>, k: &str) -> (r: Option<i64>)
    ensures
        r == signed_of(field_at(*v, k@)),
{
    match read_field(v, k) {
        Field::Number(_, i) => i,
        Field::Text(s) => parse_i64(trim(s.as_str())),
        _ => None,
    }
}

/// The unsigned integer setting under `k`.
pub fn get_u64(v: &serde_json::Map<String, serde_json::Value>, k: &str) -> (r: Option<u64>)
    ensures
        r == unsigned_of(field_at(*v, k@)),
{
    match read_field(v, k) {
        Field::Number(u, _) => u,
        Field::Text(s) => parse_u64(trim(s.as_str())),
        _ => None,
    }
}

/// The truth-value setting under `k`.
pub fn get_bool(v: &serde_json::Map<String, serde_json::Value>, k: &str) -> (r: Option<bool>)
    ensures
        r == flag_of(field_at(*v, k@)),
{
    match read_field(v, k) {
        Field::Flag(b) => Some(b),
        _ => None,
    }
}

/// The long-press delay that a field configures, in milliseconds: the
/// default where it gives none.
pub open spec fn long_press_of(f: FieldView) -> u64 {
    match unsigned_of(f) {
        Some(ms) => ms,
        None => DEFAULT_LONG_PRESS_MS,
    }
}

} // verus!
