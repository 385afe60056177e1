//! The presence store as the tracker sees it.
//!
//! The store is a remote key-value service with expiring keys. The tracker
//! talks to it in pipelines: batches of operations that travel in one round
//! trip and are answered as a unit. This module holds the vocabulary of that
//! exchange; carrying a pipeline to the store is the caller's business.

use vstd::prelude::*;

verus! {

/// One operation of a pipeline.
#[derive(Debug, PartialEq, Eq)]
pub enum Operation {
    /// Write `value` under `key`, to expire after `ttl_seconds`.
    SetValue { key: String, value: String, ttl_seconds: u32 },
    /// Read the values under `keys`, in their order.
    MultiGet { keys: Vec<String> },
}

/// An operation with its texts as sequences of characters.
pub enum OperationView {
    SetValue { key: Seq<char>, value: Seq<char>, ttl_seconds: u32 },
    MultiGet { keys: Seq<Seq<char>> },
}

impl DeepView for Operation {
    type V = OperationView;

    open spec fn deep_view(&self) -> OperationView {
        match *self {
            Operation::SetValue { key, value, ttl_seconds } => OperationView::SetValue {
                key: key@,
                value: value@,
                ttl_seconds,
            },
            Operation::MultiGet { keys } => OperationView::MultiGet { keys: keys.deep_view() },
        }
    }
}

/// The store's answer to one operation of a pipeline.
#[derive(Debug, PartialEq, Eq)]
pub enum OperationResult {
    /// A write was carried out.
    Stored,
    /// A write was refused.
    Refused,
    /// The values read, one for each key asked for and in the order of the
    /// keys, with `None` for a key that is missing or has expired.
    Values(Vec<Option<String>>),
}

/// An answer with its texts as sequences of characters.
pub enum OperationResultView {
    Stored,
    Refused,
    Values(Seq<Option<Seq<char>>>),
}

impl DeepView for OperationResult {
    type V = OperationResultView;

    open spec fn deep_view(&self) -> OperationResultView {
        match *self {
            OperationResult::Stored => OperationResultView::Stored,
            OperationResult::Refused => OperationResultView::Refused,
            OperationResult::Values(values) => OperationResultView::Values(values.deep_view()),
        }
    }
}

/// Why a pipeline brought no data. A pipeline fails as a unit: whatever the
/// reason, there is no snapshot for this request.
#[derive(Clone, Copy, Debug, PartialEq, Eq, Structural)]
pub enum StoreError {
    /// The pipeline did not reach the store, or no answer came back.
    Transport,
    /// The store answered that it would not carry the pipeline out.
    Rejected,
    /// The answer could not be read as the answer to the pipeline sent.
    Malformed,
}

/// The stored value of every slot of a grid, in slot order, as one read
/// found them: the text under the slot's key, or `None` where the key is
/// missing or has expired.
pub type PresenceSnapshot = Vec<Option<String>>;

/// What comes back from one round trip: the answers to the operations of
/// the pipeline, in their order, or the reason why there are none.
pub type StoreReply = Result<Vec<OperationResult>, StoreError>;

/// A reply with its texts as sequences of characters.
pub open spec fn reply_view(reply: StoreReply) -> Result<Seq<OperationResultView>, StoreError> {
    match reply {
        Ok(results) => Ok(results.deep_view()),
        Err(error) => Err(error),
    }
}

} // verus!
