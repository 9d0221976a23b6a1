//! The boundary to `serde_json`: settings and persisted records arrive and
//! leave as JSON objects, and the buttons read them field by field.

use vstd::prelude::*;

verus! {

/// A JSON object of `serde_json`, opaque here: what it holds is read
/// through [`fields`].
#[verifier::external_type_specification]
#[verifier::external_body]
#[verifier::reject_recursive_types(K)]
#[verifier::reject_recursive_types(V)]
pub struct ExJsonMap<K, V>(serde_json::Map<K, V>);

/// A JSON value of `serde_json`, opaque here.
#[verifier::external_type_specification]
#[verifier::external_body]
pub struct ExJsonValue(serde_json::Value);

/// What one field of a JSON object holds, as far as the buttons read it.
/// A number is kept by its two integer readings: as `u64` and as `i64`,
/// each absent where the number does not fit or is no integer.
pub enum Field {
    /// The object has no such key.
    Absent,
    /// A number, as it reads as `u64` and as `i64`.
    Number(Option<u64>, Option<i64>),
    /// A string.
    Text(String),
    /// A truth value.
    Flag(bool),
    /// Null, an array, or an object.
    Other,
}

/// The mathematical value of a [`Field`].
pub enum FieldView {
    Absent,
    Number(Option<u64>, Option<i64>),
    Text(Seq<char>),
    Flag(bool),
    Other,
}

impl View for Field {
    type V = FieldView;

    open spec fn view(&self) -> FieldView {
        match self {
            Field::Absent => FieldView::Absent,
            Field::Number(u, i) => FieldView::Number(*u, *i),
            Field::Text(s) => FieldView::Text(s@),
            Field::Flag(b) => FieldView::Flag(*b),
            Field::Other => FieldView::Other,
        }
    }
}

/// What a JSON object holds: for each key that is present, its field.
pub uninterp spec fn fields(
    m: serde_json::Map<String, serde_json::Value>,
) -> Map<Seq<char>, FieldView>;

/// The field that `store` holds under `key`, `Absent` where the key is
/// missing.
pub open spec fn at(store: Map<Seq<char>, FieldView>, key: Seq<char>) -> FieldView {
    if store.contains_key(key) {
        store[key]
    } else {
        FieldView::Absent
    }
}

/// The field of `m` under `key`, `Absent` where the key is missing.
pub open spec fn field_at(
    m: serde_json::Map<String, serde_json::Value>,
    key: Seq<char>,
) -> FieldView {
    at(fields(m), key)
}

/// The `i64` that `store` holds under `key`, if it holds an integer there
/// that fits.
pub open spec fn signed_at(store: Map<Seq<char>, FieldView>, key: Seq<char>) -> Option<i64> {
    if store.contains_key(key) {
        match store[key] {
            FieldView::Number(_, Some(v)) => Some(v),
            _ => None,
        }
    } else {
        None
    }
}

/// The `u64` that `store` holds under `key`, if it holds an integer there
/// that fits.
pub open spec fn unsigned_at(store: Map<Seq<char>, FieldView>, key: Seq<char>) -> Option<u64> {
    if store.contains_key(key) {
        match store[key] {
            FieldView::Number(Some(v), _) => Some(v),
            _ => None,
        }
    } else {
        None
    }
}

/// The contents of an object without fields.
pub open spec fn no_fields() -> Map<Seq<char>, FieldView> {
    Map::empty()
}

/// The field that stores the unsigned integer `v`.
pub open spec fn unsigned_field(v: u64) -> FieldView {
    FieldView::Number(
        Some(v),
        if v <= i64::MAX {
            Some(v as i64)
        } else {
            None
        },
    )
}

/// The field that stores the signed integer `v`.
pub open spec fn signed_field(v: i64) -> FieldView {
    FieldView::Number(
        if v >= 0 {
            Some(v as u64)
        } else {
            None
        },
        Some(v),
    )
}

/// Calls `serde_json::Map::get` and reads the value found with
/// `Number::as_u64` and `Number::as_i64`. Trusted: the result is the field
/// that the object holds under `key`.
#[verifier::external_body]
pub(crate) fn read_field(m: &serde_json::Map<String, serde_json::Value>, key: &str) -> (r: Field)
    ensures
        r@ == field_at(*m, key@),
{
    match m.get(key) {
        None => Field::Absent,
        Some(serde_json::Value::Number(n)) => Field::Number(n.as_u64(), n.as_i64()),
        Some(serde_json::Value::String(s)) => Field::Text(s.clone()),
        Some(serde_json::Value::Bool(b)) => Field::Flag(*b),
        Some(_) => Field::Other,
    }
}

/// Calls `serde_json::Map::new`. Trusted: the new object holds no field.
#[verifier::external_body]
pub(crate) fn new_object() -> (r: serde_json::Map<String, serde_json::Value>)
    ensures
        fields(r) == no_fields(),
{
    serde_json::Map::new()
}

/// Calls `serde_json::Map::insert` with a number made by `Value::from`.
/// Trusted: afterwards the object holds `v` under `key`, readable as `u64`
/// and, where it fits, as `i64`; every other field is as before.
#[verifier::external_body]
pub(crate) fn put_u64(m: &mut serde_json::Map<String, serde_json::Value>, key: &str, v: u64)
    ensures
        fields(*final(m)) == fields(*old(m)).insert(key@, unsigned_field(v)),
{
    m.insert(key.to_string(), serde_json::Value::from(v));
}

/// Calls `serde_json::Map::insert` with a number made by `Value::from`.
/// Trusted: afterwards the object holds `v` under `key`, readable as `i64`
/// and, where it is not negative, as `u64`; every other field is as before.
#[verifier::external_body]
pub(crate) fn put_i64(m: &mut serde_json::Map<String, serde_json::Value>, key: &str, v: i64)
    ensures
        fields(*final(m)) == fields(*old(m)).insert(key@, signed_field(v)),
{
    m.insert(key.to_string(), serde_json::Value::from(v));
}

} // verus!
