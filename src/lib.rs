//! Named, independently configured connection pools to a PostgreSQL
//! database, addressed by a scope string.
//!
//! The library holds the registry that maps scope names to pools, the
//! preparation of a pool from a configuration descriptor, and the error
//! taxonomy. The steps that wait on the network (building a pool, checking a
//! connection out) take their inputs from here and hand their outcomes back.
use vstd::prelude::*;

pub mod config;
pub mod engine;
pub mod error;
pub mod factory;
pub mod registry;

verus! {

/// Connection manager of the pooling engine for unencrypted PostgreSQL.
pub type PgManager = bb8_postgres::PostgresConnectionManager<tokio_postgres::NoTls>;

/// A pool of PostgreSQL connections.
pub type PgPool = bb8::Pool<PgManager>;

/// A connection checked out of a [`PgPool`], returned to it on drop.
pub type PgConn<'a> = bb8::PooledConnection<'a, PgManager>;

/// The error type of the PostgreSQL client.
pub type PgError = tokio_postgres::Error;

} // verus!
