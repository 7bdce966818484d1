//! Core of a blog-style web backend: the ephemeral session/token service,
//! the unified error taxonomy, the connection-pool accounting model, and the
//! binary content ingestion pipeline for attachment uploads.

pub mod errors;
pub mod ingest;
pub mod parse;
pub mod pool;
pub mod token;

use vstd::prelude::*;

verus! {

/// Seconds a session token lives after `issue` or `refresh`.
pub const TOKEN_TTL_SECS: u64 = 180;

} // verus!
