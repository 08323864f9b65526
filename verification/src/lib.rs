//! A horizontally sharded record store.
//!
//! A registry of capacity-bounded shard nodes routes writes to shards with
//! free capacity, spawns new shards on overflow, and answers aggregate
//! queries by merging every shard's filtered records under a size-limited
//! chunked transfer protocol. A companion backup component moves a
//! hash-verified snapshot of a shard's data in fixed-size chunks.

use vstd::prelude::*;

pub mod aggregate;
pub mod backup;
pub mod codec;
pub mod errors;
pub mod profile_models;
pub mod query;
pub mod registry;
pub mod store;
pub mod store_requests;
pub mod store_social;
pub mod text;
pub mod validation;
pub mod wire;
pub mod wire_lists;
pub mod wire_models;
pub mod wire_records;

verus! {

/// Number of bytes in one backup chunk.
pub const CHUNK_SIZE: usize = 1048576;

} // verus!
