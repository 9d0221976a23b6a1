//! Keys and values of the shared counter store.

use vstd::prelude::*;
use crate::json::{at, fields, put_i64, read_field, signed_at, signed_field, Field, FieldView};
use crate::text::{blank, lemma_trimmed_empty_iff_blank, trim};

verus! {

/// The store key of a button's counter: the shared counter id, or the
/// button's own context id when no shared id is configured.
pub open spec fn counter_key_spec(counter_id: Seq<char>, ctx_id: Seq<char>) -> Seq<char> {
    if blank(counter_id) {
        ctx_id
    } else {
        counter_id
    }
}

/// Resolves the counter key for a button. A blank `counter_id` selects the
/// button's own context id (a per-key counter); anything else names a shared
/// counter and is used verbatim.
pub fn counter_key(counter_id: &str, ctx_id: &str) -> (key: String)
    ensures
        key@ == counter_key_spec(counter_id@, ctx_id@),
{
    proof {
        lemma_trimmed_empty_iff_blank(counter_id@);
    }
    if trim(counter_id).is_empty() {
        ctx_id.to_owned()
    } else {
        counter_id.to_owned()
    }
}


/// The value of the counter under `key`: the integer stored there, or
/// `initial` where none is.
pub open spec fn counter_value(
    store: Map<Seq<char>, FieldView>,
    key: Seq<char>,
    initial: i64,
) -> i64 {
    match signed_at(store, key) {
        Some(v) => v,
        None => initial,
    }
}

/// The store once the counter under `key` is set up: a key that is missing
/// gets `initial`, anything that is there stays.
pub open spec fn initialised(store: Map<Seq<char>, FieldView>, key: Seq<char>, initial: i64) -> Map<
    Seq<char>,
    FieldView,
> {
    if at(store, key) is Absent {
        store.insert(key, signed_field(initial))
    } else {
        store
    }
}

/// Loads the counter under `key`, storing `initial` first if the key is
/// not there yet. Returns the counter's value.
pub fn init_or_load_counter(
    counters: &mut serde_json::Map<String, serde_json::Value>,
    key: &str,
    initial: i64,
) -> (value: i64)
    ensures
        value == counter_value(fields(*old(counters)), key@, initial),
        fields(*final(counters)) == initialised(fields(*old(counters)), key@, initial),
        counter_value(fields(*final(counters)), key@, initial) == value,
{
    match read_field(counters, key) {
        Field::Number(_, Some(v)) => v,
        Field::Absent => {
            put_i64(counters, key, initial);
            initial
        },
        _ => initial,
    }
}

/// Reads the counter under `key`; `initial` where none is stored.
pub fn read_counter(
    counters: &serde_json::Map<String, serde_json::Value>,
    key: &str,
    initial: i64,
) -> (value: i64)
    ensures
        value == counter_value(fields(*counters), key@, initial),
{
    match read_field(counters, key) {
        Field::Number(_, Some(v)) => v,
        _ => initial,
    }
}

/// Stores `value` as the counter under `key`. Telling the other buttons
/// is left to the caller.
pub fn write_counter(
    counters: &mut serde_json::Map<String, serde_json::Value>,
    key: &str,
    value: i64,
)
    ensures
        fields(*final(counters)) == fields(*old(counters)).insert(key@, signed_field(value)),
        counter_value(fields(*final(counters)), key@, value) == value,
{
    put_i64(counters, key, value);
}

/// A counter that was written reads back as written, and every other
/// counter reads as before.
pub proof fn law_write_then_read(
    store: Map<Seq<char>, FieldView>,
    key: Seq<char>,
    value: i64,
    other: Seq<char>,
    initial: i64,
)
    ensures
        counter_value(store.insert(key, signed_field(value)), key, initial) == value,
        other != key ==> counter_value(store.insert(key, signed_field(value)), other, initial)
            == counter_value(store, other, initial),
{
}

} // verus!
