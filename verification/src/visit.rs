//! One visit, from the inbound token to what goes out.
//!
//! A visit resolves the visitor's slot, spends the one round trip to the
//! store, turns the snapshot into visibility weights and computes the token
//! for the next visit. What leaves a visit is all that a renderer needs: the
//! weights, the visitor's slot and the size of the grid.

use vstd::prelude::*;
use crate::decay::{shown_decay, DecayCalculator, VisibilityGrid};
use crate::grid::DEFAULT_GRID_EDGE;
use crate::identity::{token_slot, IdentityResolver};
use crate::rotate::{rotated, TokenRotator, ROTATION_OFFSET};
use crate::store::{reply_view, Operation, OperationResultView, StoreError, StoreReply};
use crate::tracker::{heartbeat_pipeline, snapshot_of, PresenceTracker};

verus! {

/// The number of slots of a grid, unless configured otherwise: those of a
/// square grid with the default edge.
pub const DEFAULT_GRID_SIZE: u32 = DEFAULT_GRID_EDGE * DEFAULT_GRID_EDGE;

/// The seconds that a heartbeat lives, unless configured otherwise.
pub const DEFAULT_TTL_SECONDS: u32 = 120;

/// What a deployment can choose.
#[derive(Clone, Copy, Debug, PartialEq, Eq)]
pub struct PresenceConfig {
    /// The number of slots of the grid.
    pub grid_size: u32,
    /// The seconds after which a heartbeat expires.
    pub ttl_seconds: u32,
    /// The number of slots by which a token moves on between visits.
    pub rotation_offset: u32,
}

/// What one visit hands to the renderer and back to the client.
#[derive(Debug, PartialEq, Eq)]
pub struct Presence {
    /// The visibility weight of every slot, in slot order.
    pub grid: VisibilityGrid,
    /// The visitor's slot.
    pub slot: u32,
    /// The number of slots of the grid.
    pub grid_size: u32,
    /// The token that the client is to bring to the next visit.
    pub next_token: u32,
}

impl Presence {
    /// What holds of every presence that a visit hands out: the visitor's
    /// slot and the next token lie on the grid, and every slot of the grid
    /// has a weight, which is a fraction between zero and one.
    pub open spec fn wf(self) -> bool {
        &&& self.slot < self.grid_size
        &&& self.next_token < self.grid_size
        &&& self.grid.len() == self.grid_size
        &&& forall|s: int| 0 <= s < self.grid.len() ==> (#[trigger] self.grid[s]).wf()
    }
}

/// What a visit of `slot` at `now` amounts to when the store sends `reply`:
/// the error that the reply stands for, or the presence computed from its
/// snapshot, with the visitor's own slot in full.
pub open spec fn presents(
    config: PresenceConfig,
    slot: u32,
    now: i64,
    reply: Result<Seq<OperationResultView>, StoreError>,
    outcome: Result<Presence, StoreError>,
) -> bool {
    match snapshot_of(reply, config.grid_size) {
        Err(error) => outcome == Err::<Presence, StoreError>(error),
        Ok(snapshot) => {
            &&& outcome matches Ok(presence)
            &&& presence.slot == slot
            &&& presence.grid_size == config.grid_size
            &&& presence.next_token == rotated(
                slot as int,
                config.grid_size as int,
                config.rotation_offset as int,
            )
            &&& presence.grid.len() == config.grid_size
            &&& forall|s: int|
                0 <= s < config.grid_size ==> #[trigger] presence.grid[s] == shown_decay(
                    snapshot,
                    slot,
                    s,
                    now,
                    config.ttl_seconds,
                )
        },
    }
}

impl PresenceConfig {
    /// A configuration is usable when its grid has a slot at all.
    pub open spec fn wf(self) -> bool {
        self.grid_size > 0
    }

    /// What a visit of `slot` at `now` comes to, given the store's reply to
    /// its heartbeat pipeline.
    ///
    /// A failed round trip fails the visit: no grid is made up in place of
    /// the one that could not be read.
    pub fn present(&self, slot: u32, now: i64, reply: StoreReply) -> (outcome: Result<
        Presence,
        StoreError,
    >)
        requires
            slot < self.grid_size,
        ensures
            presents(*self, slot, now, reply_view(reply), outcome),
            outcome matches Ok(presence) ==> presence.wf(),
    {
        match PresenceTracker::read_snapshot(reply, self.grid_size) {
            Err(error) => Err(error),
            Ok(snapshot) => {
                let grid = DecayCalculator::compute_grid_for(
                    &snapshot,
                    now,
                    self.ttl_seconds,
                    slot,
                );
                let next_token = TokenRotator::new(self.rotation_offset).next_token(
                    slot,
                    self.grid_size,
                );
                Ok(Presence { grid, slot, grid_size: self.grid_size, next_token })
            },
        }
    }

    /// Runs one visit: resolves the visitor's slot from `raw_token`, sends
    /// the heartbeat pipeline through `store`, once, and presents the reply.
    pub fn visit<F>(&self, raw_token: Option<&str>, now: i64, store: F) -> (outcome: Result<
        Presence,
        StoreError,
    >) where F: FnOnce(Vec<Operation>) -> StoreReply
        requires
            self.wf(),
            forall|slot: u32, ops: Vec<Operation>|
                slot < self.grid_size && ops.deep_view() == heartbeat_pipeline(
                    slot,
                    now,
                    self.ttl_seconds,
                    self.grid_size,
                ) ==> store.requires((ops,)),
        ensures
            exists|slot: u32, ops: Vec<Operation>, reply: StoreReply|
                {
                    &&& slot < self.grid_size
                    &&& token_slot(raw_token.deep_view(), self.grid_size) matches Some(named)
                        ==> slot == named
                    &&& ops.deep_view() == heartbeat_pipeline(
                        slot,
                        now,
                        self.ttl_seconds,
                        self.grid_size,
                    )
                    &&& #[trigger] store.ensures((ops,), reply)
                    &&& #[trigger] presents(*self, slot, now, reply_view(reply), outcome)
                },
            outcome matches Ok(presence) ==> presence.wf(),
    {
        let slot = IdentityResolver::resolve(raw_token, self.grid_size);
        let ops = PresenceTracker::pipeline(slot, now, self.ttl_seconds, self.grid_size);
        let ghost sent = ops;
        let reply = store(ops);
        let ghost answered = reply;
        let outcome = self.present(slot, now, reply);
        assert(store.ensures((sent,), answered));
        assert(presents(*self, slot, now, reply_view(answered), outcome));
        outcome
    }
}

impl Default for PresenceConfig {
    fn default() -> (config: Self)
        ensures
            config.grid_size == DEFAULT_GRID_SIZE,
            config.ttl_seconds == DEFAULT_TTL_SECONDS,
            config.rotation_offset == ROTATION_OFFSET,
            config.wf(),
    {
        PresenceConfig {
            grid_size: DEFAULT_GRID_SIZE,
            ttl_seconds: DEFAULT_TTL_SECONDS,
            rotation_offset: ROTATION_OFFSET,
        }
    }
}

} // verus!
