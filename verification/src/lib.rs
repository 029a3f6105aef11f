//! Relay engine for passing messages between two independent chains.
//!
//! The library tracks outbound and inbound message-lane state on both
//! chains, selects batches of undelivered messages under count, weight and
//! size ceilings, builds proofs anchored to finalized headers, prices the
//! resulting transactions, and encodes the runtime calls that carry them.

pub mod account;
pub mod batch;
pub mod calls;
pub mod chains;
pub mod cli;
pub mod conversion;
pub mod extrinsic;
pub mod lane;
pub mod proofs;
pub mod relay;
pub mod scale;
