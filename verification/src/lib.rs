//! Resumable lead-ingestion and email-verification engine.
//!
//! The library holds the verified core: credential rotation under rate
//! limiting, cursor-based pagination with checkpointing, windowed reads over
//! stored records, and the candidate-address verification loop. All outward
//! I/O (HTTP, storage, terminal) is performed by the surrounding application,
//! which drives the state machines defined here and mirrors their commits.

use vstd::prelude::*;

pub mod apikey;
pub mod db;
pub mod emails;
pub mod leads;
pub mod list;
pub mod strutil;

verus! {

/// Failure taxonomy of the engine.
///
/// `PoolExhausted` is returned by a rotation on the last credential;
/// `AuthExhausted` is the terminal form reported when a fetch or verification
/// run hits rate limiting with no credential left. `UpstreamFailure` covers
/// transport errors and non-success statuses other than rate limiting,
/// `DecodeFailure` a response that does not match the expected schema.
/// `PersistenceFailure` is a refused local insert (a duplicate record id in a
/// batch); `NoChanges` a commit request that names no field to change.
#[derive(Debug, Clone, Copy, PartialEq, Eq, Structural)]
pub enum CoreError {
    NoCredentialsAvailable,
    PoolExhausted,
    AuthExhausted,
    UpstreamFailure,
    DecodeFailure,
    PersistenceFailure,
    NoChanges,
}

} // verus!
