//! Anchored persistence: a duration is stored together with the wall-clock
//! time at which it was stored, if it was running, so that the time that
//! passes while nothing runs is accounted for when it is loaded again.

use vstd::prelude::*;
use crate::arith::{capped_sum, floored_diff};
use crate::json::{
    fields, new_object, no_fields, put_u64, read_field, unsigned_at, unsigned_field, Field,
    FieldView,
};
use crate::tick::Direction;

verus! {

/// A duration as it is stored: the milliseconds accumulated when it was
/// stored, and the wall-clock time of that moment if it was running.
#[derive(Clone, Copy, Debug, PartialEq, Eq, Structural)]
pub struct PersistedSnapshot {
    pub accumulated_ms: u64,
    pub anchor_unix_ms: Option<u64>,
}

/// A duration as it is loaded: its present value, and whether it was
/// running when it was stored.
#[derive(Clone, Copy, Debug, PartialEq, Eq, Structural)]
pub struct Restored {
    pub value_ms: u64,
    pub was_running: bool,
}

/// The time that passed between `anchor` and `now`; none where the clock
/// reads earlier than the anchor.
pub open spec fn elapsed_since(anchor: u64, now: u64) -> u64 {
    floored_diff(now, anchor)
}

/// The snapshot of a duration taken at `now`.
pub open spec fn persisted(accumulated_ms: u64, running: bool, now: u64) -> PersistedSnapshot {
    PersistedSnapshot {
        accumulated_ms,
        anchor_unix_ms: if running {
            Some(now)
        } else {
            None
        },
    }
}

/// The duration that a snapshot stands for at `now`.
pub open spec fn restored(record: PersistedSnapshot, now: u64, direction: Direction) -> Restored {
    match record.anchor_unix_ms {
        Some(anchor) => Restored {
            value_ms: match direction {
                Direction::CountUp => capped_sum(record.accumulated_ms, elapsed_since(anchor, now)),
                Direction::CountDown => floored_diff(
                    record.accumulated_ms,
                    elapsed_since(anchor, now),
                ),
            },
            was_running: true,
        },
        None => Restored { value_ms: record.accumulated_ms, was_running: false },
    }
}

/// Takes the snapshot of a duration: a running one is stamped with the
/// present time `now`, a paused one carries no anchor.
pub fn to_persisted(accumulated_ms: u64, running: bool, now: u64) -> (record: PersistedSnapshot)
    ensures
        record == persisted(accumulated_ms, running, now),
{
    PersistedSnapshot {
        accumulated_ms,
        anchor_unix_ms: if running {
            Some(now)
        } else {
            None
        },
    }
}

/// Reads a snapshot at the present time `now`. Without an anchor the
/// stored value is returned as it is. With one, the time since the anchor
/// (none, if the clock went backward) is added to a count-up, saturating,
/// or taken from a count-down, stopping at zero.
pub fn from_persisted(record: &PersistedSnapshot, now: u64, direction: Direction) -> (r: Restored)
    ensures
        r == restored(*record, now, direction),
{
    match record.anchor_unix_ms {
        Some(anchor) => {
            let elapsed = now.saturating_sub(anchor);
            let value_ms = match direction {
                Direction::CountUp => record.accumulated_ms.saturating_add(elapsed),
                Direction::CountDown => record.accumulated_ms.saturating_sub(elapsed),
            };
            Restored { value_ms, was_running: true }
        },
        None => Restored { value_ms: record.accumulated_ms, was_running: false },
    }
}

/// A duration stored while running and loaded later has moved by exactly
/// the time between the two clock readings: up for a count-up (saturating),
/// down for a count-down (stopping at zero); one stored while paused comes
/// back unchanged, whatever the clock says.
pub proof fn law_persist_round_trip(accumulated_ms: u64, stored_at: u64, loaded_at: u64)
    requires
        stored_at <= loaded_at,
    ensures
        restored(persisted(accumulated_ms, true, stored_at), loaded_at, Direction::CountUp)
            == (Restored {
            value_ms: capped_sum(accumulated_ms, (loaded_at - stored_at) as u64),
            was_running: true,
        }),
        restored(persisted(accumulated_ms, true, stored_at), loaded_at, Direction::CountDown)
            == (Restored {
            value_ms: floored_diff(accumulated_ms, (loaded_at - stored_at) as u64),
            was_running: true,
        }),
        restored(persisted(accumulated_ms, false, stored_at), loaded_at, Direction::CountUp)
            == (Restored { value_ms: accumulated_ms, was_running: false }),
        restored(persisted(accumulated_ms, false, stored_at), loaded_at, Direction::CountDown)
            == (Restored { value_ms: accumulated_ms, was_running: false }),
{
}

/// The snapshot that a stored record holds: the duration under
/// `value_key`, 0 where none is stored, and the anchor under
/// `anchor_unix_ms` if there is one.
pub open spec fn decoded(
    store: Map<Seq<char>, FieldView>,
    value_key: Seq<char>,
) -> PersistedSnapshot {
    PersistedSnapshot {
        accumulated_ms: match unsigned_at(store, value_key) {
            Some(v) => v,
            None => 0,
        },
        anchor_unix_ms: unsigned_at(store, "anchor_unix_ms"@),
    }
}

/// The record that stores a snapshot, with the duration under `value_key`.
pub open spec fn encoded(record: PersistedSnapshot, value_key: Seq<char>) -> Map<
    Seq<char>,
    FieldView,
> {
    let base = no_fields().insert(value_key, unsigned_field(record.accumulated_ms));
    match record.anchor_unix_ms {
        Some(anchor) => base.insert("anchor_unix_ms"@, unsigned_field(anchor)),
        None => base,
    }
}

fn unsigned_of(entry: &serde_json::Map<String, serde_json::Value>, key: &str) -> (r: Option<u64>)
    ensures
        r == unsigned_at(fields(*entry), key@),
{
    match read_field(entry, key) {
        Field::Number(Some(v), _) => Some(v),
        _ => None,
    }
}

/// Reads a snapshot from its stored record.
pub fn decode_snapshot(
    entry: &serde_json::Map<String, serde_json::Value>,
    value_key: &str,
) -> (record: PersistedSnapshot)
    ensures
        record == decoded(fields(*entry), value_key@),
{
    let accumulated_ms = match unsigned_of(entry, value_key) {
        Some(v) => v,
        None => 0,
    };
    PersistedSnapshot { accumulated_ms, anchor_unix_ms: unsigned_of(entry, "anchor_unix_ms") }
}

/// Writes a snapshot as a record to store.
pub fn encode_snapshot(record: &PersistedSnapshot, value_key: &str) -> (entry: serde_json::Map<
    String,
    serde_json::Value,
>)
    ensures
        fields(entry) == encoded(*record, value_key@),
{
    let mut entry = new_object();
    put_u64(&mut entry, value_key, record.accumulated_ms);
    match record.anchor_unix_ms {
        Some(anchor) => {
            put_u64(&mut entry, "anchor_unix_ms", anchor);
        },
        None => {},
    }
    entry
}

/// A record written from a snapshot reads back as the same snapshot,
/// provided the duration is not stored under the anchor's own key.
pub proof fn law_record_round_trip(record: PersistedSnapshot, value_key: Seq<char>)
    requires
        value_key != "anchor_unix_ms"@,
    ensures
        decoded(encoded(record, value_key), value_key) == record,
{
}

} // verus!
