//! Counters of what the file system has done.

use vstd::prelude::*;

verus! {

/// Event counters. Each wraps to 0 after `u64::MAX` events.
#[derive(Debug, Clone, Copy, PartialEq, Eq, Structural)]
pub struct FileSystemStats {
    /// Inode loads answered from the cache.
    pub cache_hits: u64,
    /// Inode loads that had to read the store.
    pub cache_misses: u64,
    /// Garbage collection runs started.
    pub gc_runs: u64,
    /// Tombstones whose last chunks were deleted.
    pub tombstones_processed: u64,
    /// Chunks deleted by garbage collection.
    pub gc_chunks_deleted: u64,
}

/// The counter that follows `from` after `n` more events.
pub open spec fn counted(from: u64, n: u64) -> u64 {
    ((from + n) % 0x1_0000_0000_0000_0000) as u64
}

/// Counter `from` after `n` more events.
pub(crate) fn count(from: u64, n: u64) -> (r: u64)
    ensures
        r == counted(from, n),
{
    from.wrapping_add(n)
}

impl FileSystemStats {
    /// The counters once one more garbage collection run has started.
    pub open spec fn run_started(self) -> Self {
        FileSystemStats { gc_runs: counted(self.gc_runs, 1), ..self }
    }

    /// Counters of a file system that has done nothing yet.
    pub fn new() -> (stats: Self)
        ensures
            stats == (FileSystemStats {
                cache_hits: 0,
                cache_misses: 0,
                gc_runs: 0,
                tombstones_processed: 0,
                gc_chunks_deleted: 0,
            }),
    {
        FileSystemStats {
            cache_hits: 0,
            cache_misses: 0,
            gc_runs: 0,
            tombstones_processed: 0,
            gc_chunks_deleted: 0,
        }
    }
}

/// A counter grows by exactly the number of events, and starts over at 0 after the largest
/// number.
pub proof fn counters_count_every_event(from: u64, n: u64)
    ensures
        from + n <= u64::MAX ==> counted(from, n) == from + n,
        from + n > u64::MAX ==> counted(from, n) == from + n - u64::MAX - 1,
        counted(from, 0) == from,
{
}

/// Counting events in two parts comes to the same as counting them at once.
pub proof fn counting_in_parts(from: u64, m: u64, n: u64)
    requires
        m + n <= u64::MAX,
    ensures
        counted(counted(from, m), n) == counted(from, (m + n) as u64),
{
}

} // verus!
