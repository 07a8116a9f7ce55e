//! Where the installer keeps its records and its cached catalog.

use vstd::prelude::*;

verus! {

/// Days after which the cached catalog is fetched again.
pub const CACHE_EXPIRY_DAYS: u32 = 5;

/// Seconds in a day.
pub const SECS_PER_DAY: u64 = 86400;

#[derive(Debug, Clone)]
pub struct Config {
    pub db_path: String,
    pub cache_path: String,
    pub cache_expiry_days: u32,
}

impl Config {
    /// A configuration over the given record and cache locations, with the
    /// default expiry of the cached catalog.
    pub fn with_paths(db_path: String, cache_path: String) -> (r: Config)
        ensures
            r.db_path == db_path,
            r.cache_path == cache_path,
            r.cache_expiry_days == CACHE_EXPIRY_DAYS,
    {
        Config { db_path, cache_path, cache_expiry_days: CACHE_EXPIRY_DAYS }
    }

    /// Whether a cached catalog of the given age, in whole seconds and
    /// nanoseconds, is older than the expiry period.
    pub fn manifest_is_stale(&self, age_secs: u64, age_nanos: u32) -> (r: bool)
        ensures
            r == (age_secs as int > self.cache_expiry_days as int * SECS_PER_DAY || (age_secs
                as int == self.cache_expiry_days as int * SECS_PER_DAY && age_nanos > 0)),
    {
        let limit: u64 = self.cache_expiry_days as u64 * SECS_PER_DAY;
        age_secs > limit || (age_secs == limit && age_nanos > 0)
    }
}

} // verus!
