//! Connection-pool configuration: an explicit value a caller hands to
//! whichever backend builds its pool, instead of ambient per-call lookups.

use vstd::prelude::*;

verus! {

/// How a backend's connection pool is to be built.
#[derive(Clone, Copy, Debug)]
pub struct PoolConfig {
    /// How many idle connections the pool keeps ready, when set.
    pub min_idle: Option<u32>,
    /// Whether a connection is validated when checked out.
    pub test_on_check_out: bool,
}

impl PoolConfig {
    /// The configuration a file-backed store uses: validate on checkout,
    /// no idle minimum.
    pub fn sqlite_defaults() -> (c: Self)
        ensures
            c == (PoolConfig { min_idle: None, test_on_check_out: true }),
    {
        PoolConfig { min_idle: None, test_on_check_out: true }
    }

    /// The configuration a server-backed store uses: validate on checkout
    /// and keep two idle connections ready.
    pub fn postgres_defaults() -> (c: Self)
        ensures
            c == (PoolConfig { min_idle: Some(2u32), test_on_check_out: true }),
    {
        PoolConfig { min_idle: Some(2), test_on_check_out: true }
    }
}

} // verus!
