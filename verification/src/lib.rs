//! A time-decaying presence tracker.
//!
//! Visitors are assigned to the slots of a fixed grid. Each visit records a
//! heartbeat for the visitor's slot in a remote key-value store and reads the
//! last heartbeat of every slot back in the same round trip. The time elapsed
//! since a slot's last heartbeat becomes a visibility weight between zero and
//! one, and the visitor is handed a rotated token for the next visit.
//!
//! The library computes; it neither talks to the network nor reads the
//! clock. The caller brings the time and a function that carries a pipeline
//! to the store, and draws what comes out.
//!
//! - [`visit`]: one visit from token to outcome, and the configuration.
//! - [`identity`]: from the inbound token to a slot.
//! - [`tracker`]: the heartbeat pipeline and the reading of its reply.
//! - [`store`]: the vocabulary of the exchange with the store.
//! - [`decay`]: from heartbeat ages to visibility weights.
//! - [`rotate`]: the token for the next visit.
//! - [`grid`]: slots and cells of the square grid.
//! - [`decimal`]: the decimal notation of keys, timestamps and tokens.
//! - [`cookie`]: tokens in and out of `Cookie` headers.
//! - [`random`]: the library's one source of chance.

pub mod cookie;
pub mod decay;
pub mod decimal;
pub mod grid;
pub mod identity;
pub mod random;
pub mod rotate;
pub mod store;
pub mod tracker;
pub mod visit;
