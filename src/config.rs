//! The configuration descriptor that a caller supplies for each registration.
use std::time::Duration;

use vstd::prelude::*;

verus! {

/// What a pool is built from. Implemented by any source of configuration
/// (environment, file, fixed values); read once per registration.
pub trait DbConfig {
    /// The PostgreSQL connection string.
    fn uri(&self) -> String;

    /// The number of idle connections the pool keeps open.
    fn min(&self) -> u32;

    /// The largest number of connections the pool holds.
    fn max(&self) -> u32;

    /// How long a connection may live before it is closed.
    fn lifetime(&self) -> Duration;

    /// How long a connection above the minimum may stay idle.
    fn idle_timeout(&self) -> Duration;

    /// How long establishing or waiting for a connection may take.
    fn connect_timeout(&self) -> Duration;
}

} // verus!
