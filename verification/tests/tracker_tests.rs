use presence::decay::{DecayCalculator, Opacity};
use presence::store::{Operation, OperationResult, StoreError, StoreReply};
use presence::tracker::PresenceTracker;

fn keys_of(grid_size: u32) -> Vec<String> {
    (0..grid_size).map(|slot| format!("{}", slot)).collect()
}

fn empty_values(grid_size: usize) -> Vec<Option<String>> {
    vec![None; grid_size]
}

/// A store that holds its entries in memory and carries a pipeline out in
/// order, so that a write is seen by the read that follows it.
fn carry_out(entries: &mut Vec<(String, String)>, ops: Vec<Operation>) -> StoreReply {
    let mut results = Vec::new();
    for op in ops {
        match op {
            Operation::SetValue { key, value, ttl_seconds } => {
                if ttl_seconds == 0 {
                    results.push(OperationResult::Refused);
                } else {
                    entries.retain(|(k, _)| *k != key);
                    entries.push((key, value));
                    results.push(OperationResult::Stored);
                }
            }
            Operation::MultiGet { keys } => {
                let values = keys
                    .iter()
                    .map(|key| entries.iter().find(|(k, _)| k == key).map(|(_, v)| v.clone()))
                    .collect();
                results.push(OperationResult::Values(values));
            }
        }
    }
    Ok(results)
}

#[test]
fn keys_are_decimal_numerals() {
    assert_eq!(PresenceTracker::key(0), "0");
    assert_eq!(PresenceTracker::key(5), "5");
    assert_eq!(PresenceTracker::key(80), "80");
    assert_eq!(PresenceTracker::key(u32::MAX), "4294967295");
}

#[test]
fn keys_do_not_collide() {
    let keys = keys_of(81);
    for slot in 0..81u32 {
        assert_eq!(PresenceTracker::key(slot), keys[slot as usize]);
        for other in 0..slot {
            assert_ne!(PresenceTracker::key(slot), PresenceTracker::key(other));
        }
    }
}

#[test]
fn pipeline_is_a_write_followed_by_a_read_of_the_grid() {
    let ops = PresenceTracker::pipeline(5, 1_700_000_000, 120, 81);
    assert_eq!(
        ops,
        vec![
            Operation::SetValue {
                key: "5".to_string(),
                value: "1700000000".to_string(),
                ttl_seconds: 120,
            },
            Operation::MultiGet { keys: keys_of(81) },
        ]
    );
}

#[test]
fn pipeline_of_the_smallest_grid() {
    let ops = PresenceTracker::pipeline(0, -7, 1, 1);
    assert_eq!(
        ops,
        vec![
            Operation::SetValue { key: "0".to_string(), value: "-7".to_string(), ttl_seconds: 1 },
            Operation::MultiGet { keys: vec!["0".to_string()] },
        ]
    );
}

#[test]
fn pipeline_reads_every_slot_once_and_in_order() {
    let ops = PresenceTracker::pipeline(299, 0, 120, 300);
    assert_eq!(ops.len(), 2);
    match &ops[1] {
        Operation::MultiGet { keys } => assert_eq!(*keys, keys_of(300)),
        other => panic!("expected a read, found {:?}", other),
    }
    match &ops[0] {
        Operation::SetValue { key, .. } => assert_eq!(key, "299"),
        other => panic!("expected a write, found {:?}", other),
    }
}

#[test]
fn reply_with_write_and_values_is_the_snapshot() {
    let mut values = empty_values(81);
    values[5] = Some("1699999940".to_string());
    values[80] = Some("junk".to_string());
    let reply = Ok(vec![OperationResult::Stored, OperationResult::Values(values.clone())]);
    assert_eq!(PresenceTracker::read_snapshot(reply, 81), Ok(values));
}

#[test]
fn errors_of_the_round_trip_are_passed_on() {
    assert_eq!(
        PresenceTracker::read_snapshot(Err(StoreError::Transport), 81),
        Err(StoreError::Transport)
    );
    assert_eq!(
        PresenceTracker::read_snapshot(Err(StoreError::Rejected), 81),
        Err(StoreError::Rejected)
    );
    assert_eq!(
        PresenceTracker::read_snapshot(Err(StoreError::Malformed), 81),
        Err(StoreError::Malformed)
    );
}

#[test]
fn refused_write_fails_the_request() {
    let reply = Ok(vec![OperationResult::Refused, OperationResult::Values(empty_values(81))]);
    assert_eq!(PresenceTracker::read_snapshot(reply, 81), Err(StoreError::Rejected));
    let short = Ok(vec![OperationResult::Refused, OperationResult::Values(empty_values(3))]);
    assert_eq!(PresenceTracker::read_snapshot(short, 81), Err(StoreError::Rejected));
}

#[test]
fn reply_of_the_wrong_length_is_malformed() {
    assert_eq!(PresenceTracker::read_snapshot(Ok(vec![]), 81), Err(StoreError::Malformed));
    assert_eq!(
        PresenceTracker::read_snapshot(Ok(vec![OperationResult::Stored]), 81),
        Err(StoreError::Malformed)
    );
    assert_eq!(
        PresenceTracker::read_snapshot(Ok(vec![OperationResult::Values(empty_values(81))]), 81),
        Err(StoreError::Malformed)
    );
    let long = Ok(vec![
        OperationResult::Stored,
        OperationResult::Values(empty_values(81)),
        OperationResult::Stored,
    ]);
    assert_eq!(PresenceTracker::read_snapshot(long, 81), Err(StoreError::Malformed));
}

#[test]
fn reply_in_the_wrong_order_is_malformed() {
    let swapped = Ok(vec![OperationResult::Values(empty_values(81)), OperationResult::Stored]);
    assert_eq!(PresenceTracker::read_snapshot(swapped, 81), Err(StoreError::Malformed));
    let two_writes = Ok(vec![OperationResult::Stored, OperationResult::Stored]);
    assert_eq!(PresenceTracker::read_snapshot(two_writes, 81), Err(StoreError::Malformed));
    let two_refusals = Ok(vec![OperationResult::Refused, OperationResult::Refused]);
    assert_eq!(PresenceTracker::read_snapshot(two_refusals, 81), Err(StoreError::Malformed));
    let two_reads = Ok(vec![
        OperationResult::Values(empty_values(81)),
        OperationResult::Values(empty_values(81)),
    ]);
    assert_eq!(PresenceTracker::read_snapshot(two_reads, 81), Err(StoreError::Malformed));
}

#[test]
fn read_that_does_not_cover_the_grid_is_malformed() {
    for len in [0usize, 1, 80, 82] {
        let reply = Ok(vec![OperationResult::Stored, OperationResult::Values(empty_values(len))]);
        assert_eq!(PresenceTracker::read_snapshot(reply, 81), Err(StoreError::Malformed));
    }
    let none = Ok(vec![OperationResult::Stored, OperationResult::Values(empty_values(0))]);
    assert_eq!(PresenceTracker::read_snapshot(none, 0), Ok(empty_values(0)));
}

#[test]
fn transport_error_yields_store_error() {
    let outcome = PresenceTracker::heartbeat_and_snapshot(5, 1_700_000_000, 120, 81, |_ops| {
        Err(StoreError::Transport)
    });
    assert_eq!(outcome, Err(StoreError::Transport));
}

#[test]
fn rejected_and_malformed_round_trips_yield_their_errors() {
    let rejected =
        PresenceTracker::heartbeat_and_snapshot(5, 0, 120, 81, |_ops| Err(StoreError::Rejected));
    assert_eq!(rejected, Err(StoreError::Rejected));
    let malformed =
        PresenceTracker::heartbeat_and_snapshot(5, 0, 120, 81, |_ops| Err(StoreError::Malformed));
    assert_eq!(malformed, Err(StoreError::Malformed));
    let empty = PresenceTracker::heartbeat_and_snapshot(5, 0, 120, 81, |_ops| Ok(Vec::new()));
    assert_eq!(empty, Err(StoreError::Malformed));
}

#[test]
fn store_is_handed_the_heartbeat_pipeline() {
    let mut sent: Vec<Operation> = Vec::new();
    let outcome = PresenceTracker::heartbeat_and_snapshot(7, 1234, 60, 9, |ops| {
        sent = ops;
        Ok(vec![OperationResult::Stored, OperationResult::Values(empty_values(9))])
    });
    assert_eq!(outcome, Ok(empty_values(9)));
    assert_eq!(sent, PresenceTracker::pipeline(7, 1234, 60, 9));
    assert_eq!(
        sent[0],
        Operation::SetValue { key: "7".to_string(), value: "1234".to_string(), ttl_seconds: 60 }
    );
}

#[test]
fn heartbeat_is_seen_in_its_own_snapshot() {
    let mut entries: Vec<(String, String)> = vec![("3".to_string(), "940".to_string())];
    let snapshot =
        PresenceTracker::heartbeat_and_snapshot(5, 1000, 120, 9, |ops| carry_out(&mut entries, ops))
            .unwrap();
    assert_eq!(snapshot.len(), 9);
    assert_eq!(snapshot[5], Some("1000".to_string()));
    assert_eq!(snapshot[3], Some("940".to_string()));
    assert_eq!(snapshot[4], None);
    let grid = DecayCalculator::compute_grid(&snapshot, 1000, 120);
    assert_eq!(grid[5], Opacity { numer: 120, denom: 120 });
    assert_eq!(grid[3], Opacity { numer: 60, denom: 120 });
    assert_eq!(grid[4], Opacity { numer: 0, denom: 120 });
}

#[test]
fn later_heartbeat_overwrites_the_earlier_one() {
    let mut entries: Vec<(String, String)> = Vec::new();
    PresenceTracker::heartbeat_and_snapshot(5, 1000, 120, 9, |ops| carry_out(&mut entries, ops))
        .unwrap();
    let snapshot =
        PresenceTracker::heartbeat_and_snapshot(5, 1030, 120, 9, |ops| carry_out(&mut entries, ops))
            .unwrap();
    assert_eq!(snapshot[5], Some("1030".to_string()));
    assert_eq!(entries.len(), 1);
}

#[test]
fn store_that_refuses_the_write_fails_the_request() {
    let mut entries: Vec<(String, String)> = Vec::new();
    let outcome =
        PresenceTracker::heartbeat_and_snapshot(5, 1000, 0, 9, |ops| carry_out(&mut entries, ops));
    assert_eq!(outcome, Err(StoreError::Rejected));
}
