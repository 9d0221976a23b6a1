use deck_counter::anchor::{
    decode_snapshot, encode_snapshot, from_persisted, to_persisted, PersistedSnapshot, Restored,
};
use deck_counter::tick::Direction;
use serde_json::Value;

#[test]
fn running_snapshot_carries_the_anchor() {
    assert_eq!(
        to_persisted(5_000, true, 1_700_000_000_000),
        PersistedSnapshot { accumulated_ms: 5_000, anchor_unix_ms: Some(1_700_000_000_000) }
    );
}

#[test]
fn paused_snapshot_carries_no_anchor() {
    assert_eq!(
        to_persisted(5_000, false, 1_700_000_000_000),
        PersistedSnapshot { accumulated_ms: 5_000, anchor_unix_ms: None }
    );
}

#[test]
fn round_trip_count_up() {
    let t0 = 1_000_000u64;
    let record = to_persisted(5_000, true, t0);
    assert_eq!(
        from_persisted(&record, t0 + 2_500, Direction::CountUp),
        Restored { value_ms: 7_500, was_running: true }
    );
}

#[test]
fn round_trip_count_down() {
    let t0 = 1_000_000u64;
    // A count-down of 60 s of which 5 s have passed.
    let record = to_persisted(60_000 - 5_000, true, t0);
    assert_eq!(
        from_persisted(&record, t0 + 2_500, Direction::CountDown),
        Restored { value_ms: 60_000 - 7_500, was_running: true }
    );
    // A count-down of 6 s of which 5 s have passed runs out meanwhile.
    let record = to_persisted(6_000 - 5_000, true, t0);
    assert_eq!(
        from_persisted(&record, t0 + 2_500, Direction::CountDown),
        Restored { value_ms: 0, was_running: true }
    );
}

#[test]
fn paused_record_comes_back_verbatim() {
    let record = to_persisted(5_000, false, 10);
    assert_eq!(
        from_persisted(&record, 999_999, Direction::CountUp),
        Restored { value_ms: 5_000, was_running: false }
    );
    assert_eq!(
        from_persisted(&record, 999_999, Direction::CountDown),
        Restored { value_ms: 5_000, was_running: false }
    );
}

#[test]
fn clock_going_backward_counts_as_no_time() {
    let record = to_persisted(5_000, true, 2_000);
    assert_eq!(
        from_persisted(&record, 1_000, Direction::CountUp),
        Restored { value_ms: 5_000, was_running: true }
    );
    assert_eq!(
        from_persisted(&record, 1_000, Direction::CountDown),
        Restored { value_ms: 5_000, was_running: true }
    );
}

#[test]
fn count_up_saturates_on_restore() {
    let record = PersistedSnapshot { accumulated_ms: u64::MAX - 10, anchor_unix_ms: Some(0) };
    assert_eq!(
        from_persisted(&record, 1_000, Direction::CountUp),
        Restored { value_ms: u64::MAX, was_running: true }
    );
}

#[test]
fn encoded_record_has_the_stored_fields() {
    let entry = encode_snapshot(
        &PersistedSnapshot { accumulated_ms: 1_234, anchor_unix_ms: Some(99) },
        "elapsed_ms",
    );
    assert_eq!(entry.len(), 2);
    assert_eq!(entry.get("elapsed_ms"), Some(&Value::from(1_234u64)));
    assert_eq!(entry.get("anchor_unix_ms"), Some(&Value::from(99u64)));

    let entry = encode_snapshot(
        &PersistedSnapshot { accumulated_ms: 7, anchor_unix_ms: None },
        "remaining_ms",
    );
    assert_eq!(entry.len(), 1);
    assert_eq!(entry.get("remaining_ms"), Some(&Value::from(7u64)));
}

#[test]
fn record_round_trip() {
    for record in [
        PersistedSnapshot { accumulated_ms: 0, anchor_unix_ms: None },
        PersistedSnapshot { accumulated_ms: 61_000, anchor_unix_ms: Some(1_700_000_000_000) },
        PersistedSnapshot { accumulated_ms: u64::MAX, anchor_unix_ms: Some(u64::MAX) },
    ] {
        let entry = encode_snapshot(&record, "remaining_ms");
        assert_eq!(decode_snapshot(&entry, "remaining_ms"), record);
    }
}

#[test]
fn decode_tolerates_missing_and_malformed_fields() {
    let mut entry = serde_json::Map::new();
    assert_eq!(
        decode_snapshot(&entry, "elapsed_ms"),
        PersistedSnapshot { accumulated_ms: 0, anchor_unix_ms: None }
    );
    entry.insert("elapsed_ms".to_string(), Value::from("12"));
    entry.insert("anchor_unix_ms".to_string(), Value::from(-5i64));
    assert_eq!(
        decode_snapshot(&entry, "elapsed_ms"),
        PersistedSnapshot { accumulated_ms: 0, anchor_unix_ms: None }
    );
}
