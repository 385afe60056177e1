//! One heartbeat and one snapshot per request.
//!
//! The tracker records that a slot is active now and, in the same round
//! trip, asks for the last heartbeat of every slot of the grid. It builds
//! the pipeline, hands it to the store once, and reads the reply. Nothing is
//! retried, and a failed round trip fails the request: an error from the
//! store is passed on as it is, never turned into an empty snapshot.

use vstd::prelude::*;
use crate::decimal::{decimal_text, format_decimal, lemma_decimal_text_injective};
use crate::store::{
    reply_view, Operation, OperationResult, OperationResultView, OperationView, PresenceSnapshot,
    StoreError, StoreReply,
};

verus! {

/// The store key of a slot: the canonical numeral of its index.
pub open spec fn slot_key(slot: int) -> Seq<char> {
    decimal_text(slot)
}

/// The keys of all slots of a grid, in slot order.
pub open spec fn grid_keys(grid_size: u32) -> Seq<Seq<char>> {
    Seq::new(grid_size as nat, |slot: int| slot_key(slot))
}

/// The pipeline of one request: the heartbeat of `slot`, stamped `now` and
/// to expire after `ttl_seconds`, followed by the read of the whole grid.
pub open spec fn heartbeat_pipeline(slot: u32, now: i64, ttl_seconds: u32, grid_size: u32) -> Seq<
    OperationView,
> {
    seq![
        OperationView::SetValue {
            key: slot_key(slot as int),
            value: decimal_text(now as int),
            ttl_seconds,
        },
        OperationView::MultiGet { keys: grid_keys(grid_size) },
    ]
}

/// What a reply to the heartbeat pipeline amounts to.
///
/// An error of the round trip stands. Answers count only if they are the
/// two that the pipeline asks for: the acknowledgement of the write, then
/// the values read. A refused write fails the request, and so does a read
/// that does not cover the grid slot for slot.
pub open spec fn snapshot_of(
    reply: Result<Seq<OperationResultView>, StoreError>,
    grid_size: u32,
) -> Result<Seq<Option<Seq<char>>>, StoreError> {
    match reply {
        Err(error) => Err(error),
        Ok(results) => if results.len() != 2 {
            Err(StoreError::Malformed)
        } else {
            match (results[0], results[1]) {
                (OperationResultView::Stored, OperationResultView::Values(values)) => if values.len()
                    == grid_size {
                    Ok(values)
                } else {
                    Err(StoreError::Malformed)
                },
                (OperationResultView::Refused, OperationResultView::Values(_)) => Err(
                    StoreError::Rejected,
                ),
                _ => Err(StoreError::Malformed),
            }
        },
    }
}

/// A snapshot, or the error in its place, with its texts as sequences of
/// characters.
pub open spec fn outcome_view(outcome: Result<PresenceSnapshot, StoreError>) -> Result<
    Seq<Option<Seq<char>>>,
    StoreError,
> {
    match outcome {
        Ok(snapshot) => Ok(snapshot.deep_view()),
        Err(error) => Err(error),
    }
}

/// Records heartbeats and takes snapshots of the grid.
pub struct PresenceTracker;

impl PresenceTracker {
    /// The store key of `slot`.
    pub fn key(slot: u32) -> (key: String)
        ensures
            key@ == slot_key(slot as int),
    {
        format_decimal(slot as i64)
    }

    /// The pipeline of one request: the heartbeat of `slot` first, then the
    /// read of all `grid_size` slots.
    pub fn pipeline(slot: u32, now: i64, ttl_seconds: u32, grid_size: u32) -> (ops: Vec<Operation>)
        requires
            slot < grid_size,
        ensures
            ops.deep_view() == heartbeat_pipeline(slot, now, ttl_seconds, grid_size),
    {
        let mut keys: Vec<String> = Vec::new();
        let mut next: u32 = 0;
        while next < grid_size
            invariant
                next <= grid_size,
                keys.len() == next,
                forall|s: int| 0 <= s < next ==> (#[trigger] keys[s])@ == slot_key(s),
            decreases grid_size - next,
        {
            keys.push(Self::key(next));
            next += 1;
        }
        assert(keys.deep_view() =~= grid_keys(grid_size));
        let mut ops: Vec<Operation> = Vec::new();
        ops.push(
            Operation::SetValue { key: Self::key(slot), value: format_decimal(now), ttl_seconds },
        );
        ops.push(Operation::MultiGet { keys });
        assert(ops.deep_view() =~= heartbeat_pipeline(slot, now, ttl_seconds, grid_size));
        ops
    }

    /// Reads the reply to a heartbeat pipeline as a snapshot of the grid.
    pub fn read_snapshot(reply: StoreReply, grid_size: u32) -> (outcome: Result<
        PresenceSnapshot,
        StoreError,
    >)
        ensures
            outcome_view(outcome) == snapshot_of(reply_view(reply), grid_size),
    {
        match reply {
            Err(error) => Err(error),
            Ok(mut results) => {
                if results.len() != 2 {
                    return Err(StoreError::Malformed);
                }
                let ghost answers = results.deep_view();
                let second = results.pop();
                let first = results.pop();
                match (first, second) {
                    (Some(OperationResult::Stored), Some(OperationResult::Values(values))) => {
                        assert(answers[0] == OperationResultView::Stored);
                        assert(answers[1] == OperationResultView::Values(values.deep_view()));
                        if values.len() == grid_size as usize {
                            Ok(values)
                        } else {
                            Err(StoreError::Malformed)
                        }
                    },
                    (Some(OperationResult::Refused), Some(OperationResult::Values(values))) => {
                        assert(answers[0] == OperationResultView::Refused);
                        assert(answers[1] == OperationResultView::Values(values.deep_view()));
                        Err(StoreError::Rejected)
                    },
                    (Some(head), Some(tail)) => {
                        assert(answers[0] == head.deep_view());
                        assert(answers[1] == tail.deep_view());
                        Err(StoreError::Malformed)
                    },
                    _ => Err(StoreError::Malformed),
                }
            },
        }
    }

    /// Records the heartbeat of `slot` and takes a snapshot of the grid, in
    /// one round trip through `store`.
    ///
    /// `store` carries a pipeline to the presence store and brings the
    /// reply back. It is called once, with the heartbeat pipeline, and its
    /// reply decides the outcome: an error of the round trip is passed on,
    /// and so is a reply that does not answer the pipeline.
    pub fn heartbeat_and_snapshot<F>(
        slot: u32,
        now: i64,
        ttl_seconds: u32,
        grid_size: u32,
        store: F,
    ) -> (outcome: Result<PresenceSnapshot, StoreError>) where
        F: FnOnce(Vec<Operation>) -> StoreReply,

        requires
            slot < grid_size,
            forall|ops: Vec<Operation>|
                ops.deep_view() == heartbeat_pipeline(slot, now, ttl_seconds, grid_size)
                    ==> store.requires((ops,)),
        ensures
            exists|ops: Vec<Operation>, reply: StoreReply|
                {
                    &&& ops.deep_view() == heartbeat_pipeline(slot, now, ttl_seconds, grid_size)
                    &&& #[trigger] store.ensures((ops,), reply)
                    &&& outcome_view(outcome) == snapshot_of(reply_view(reply), grid_size)
                },
    {
        let ops = Self::pipeline(slot, now, ttl_seconds, grid_size);
        let ghost sent = ops;
        let reply = store(ops);
        let ghost answered = reply;
        let outcome = Self::read_snapshot(reply, grid_size);
        assert(store.ensures((sent,), answered));
        outcome
    }
}

/// Distinct slots have distinct store keys.
pub proof fn lemma_slot_keys_distinct(a: int, b: int)
    requires
        slot_key(a) == slot_key(b),
    ensures
        a == b,
{
    lemma_decimal_text_injective(a, b);
}

} // verus!
