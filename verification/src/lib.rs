//! A per-owner, address-derived record store with a lazy, exactly-once
//! asset-issuance step and a bounded in-place bitmask mutation protocol.
//!
//! Records are located by a deterministic address derived from a namespace
//! tag and an owner identity, provisioned lazily with a funding check sized
//! to the record's capacity, and mutated only through a length-clamped
//! partial overwrite of their purchase bitmask.

pub mod addr;
pub mod errors;
pub mod record;
pub mod issuance;
pub mod ops;
pub mod store;
