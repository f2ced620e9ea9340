//! The four ways in which registering or acquiring can fail.
use vstd::prelude::*;

use crate::PgError;

verus! {

/// Why a registration or an acquisition failed.
pub enum ScopeError {
    /// The connection URI is not a well-formed PostgreSQL connection string.
    /// Detected before any network activity.
    ConfigParseError(PgError),
    /// The pooling engine could not build the pool (unreachable host,
    /// authentication failure, minimum idle connections not reached in time).
    PoolBuildFailure(PgError),
    /// No pool was ever successfully registered under this scope name.
    ScopeNotFound(String),
    /// The pool of the scope could not hand out a connection: it timed out,
    /// or the connection attempt failed.
    AcquisitionFailure(bb8::RunError<PgError>),
}

} // verus!
