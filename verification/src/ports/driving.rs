//! Driving ports: how outside actors drive the cache.

use vstd::prelude::*;

verus! {

/// A command-line interface to the cache.
pub trait CliPort {
    /// Shows a cache entry.
    fn display_entry(&self, key: &str, value: &str);

    /// Shows statistics.
    fn display_stats(&self, hits: u64, misses: u64, size: usize);

    /// Shows an error.
    fn display_error(&self, error: &str);
}

/// An HTTP interface to the cache.
pub trait HttpPort {
    /// Handles a read.
    fn handle_get(&self, key: &str) -> Option<String>;

    /// Handles a write.
    fn handle_set(&self, key: &str, value: &str) -> Result<(), String>;

    /// Handles a removal.
    fn handle_delete(&self, key: &str) -> Result<(), String>;
}

} // verus!
