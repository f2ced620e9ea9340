//! The parts of building and using a pool that decide something: reading
//! the connection URI, and sorting the engine's failures into the library's
//! error kinds.
use vstd::prelude::*;

use crate::error::ScopeError;
use crate::PgError;

verus! {

/// Whether the PostgreSQL client accepts `s` as a connection string, in
/// URL form (`postgres://...`) or in key-value form (`host=... user=...`).
pub uninterp spec fn pg_config_parses(s: Seq<char>) -> bool;

/// Relies on `tokio_postgres::Config`'s `FromStr`: the outcome depends on
/// the text alone.
#[verifier::external_body]
fn parse_pg_config(s: &str) -> (r: Result<tokio_postgres::Config, PgError>)
    ensures
        r is Ok == pg_config_parses(s@),
{
    s.parse::<tokio_postgres::Config>()
}

/// The outcome of parsing a connection URI: a parsed configuration is kept,
/// a parse failure becomes `ConfigParseError` carrying the client's error.
pub fn config_parsed(parsed: Result<tokio_postgres::Config, PgError>) -> (r: Result<
    tokio_postgres::Config,
    ScopeError,
>)
    ensures
        match parsed {
            Ok(c) => r == Ok::<tokio_postgres::Config, ScopeError>(c),
            Err(e) => r == Err::<tokio_postgres::Config, ScopeError>(
                ScopeError::ConfigParseError(e),
            ),
        },
{
    match parsed {
        Ok(c) => Ok(c),
        Err(e) => Err(ScopeError::ConfigParseError(e)),
    }
}

/// Parses the connection URI of a pool, before any network activity.
/// Fails with `ConfigParseError` exactly when the client rejects the text.
pub fn parse_uri(uri: &str) -> (r: Result<tokio_postgres::Config, ScopeError>)
    ensures
        r is Ok <==> pg_config_parses(uri@),
        r is Err ==> r->Err_0 is ConfigParseError,
{
    config_parsed(parse_pg_config(uri))
}

/// The outcome of the engine's pool build: a built pool is kept, any engine
/// failure becomes `PoolBuildFailure` carrying the cause.
pub fn build_outcome<P>(built: Result<P, PgError>) -> (r: Result<P, ScopeError>)
    ensures
        match built {
            Ok(p) => r == Ok::<P, ScopeError>(p),
            Err(e) => r == Err::<P, ScopeError>(ScopeError::PoolBuildFailure(e)),
        },
{
    match built {
        Ok(p) => Ok(p),
        Err(e) => Err(ScopeError::PoolBuildFailure(e)),
    }
}

/// The outcome of checking a connection out of a pool: a connection is
/// kept, the engine's error is passed on unchanged as `AcquisitionFailure`.
pub fn acquire_outcome<C>(got: Result<C, bb8::RunError<PgError>>) -> (r: Result<C, ScopeError>)
    ensures
        match got {
            Ok(c) => r == Ok::<C, ScopeError>(c),
            Err(e) => r == Err::<C, ScopeError>(ScopeError::AcquisitionFailure(e)),
        },
{
    match got {
        Ok(c) => Ok(c),
        Err(e) => Err(ScopeError::AcquisitionFailure(e)),
    }
}

} // verus!
