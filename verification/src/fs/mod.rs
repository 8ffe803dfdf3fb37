//! The file system: identifiers, records, and the decisions behind each operation.

pub mod clock;
pub mod collect;
pub mod errors;
pub mod failures;
pub mod file_id;
pub mod gc;
pub mod inode;
pub mod key_codec;
pub mod metrics;
pub mod mount;
pub mod ops;
pub mod reclaim;
pub mod store;

use vstd::prelude::*;

pub use self::clock::get_current_time;
pub use self::file_id::EncodedFileId;
pub use self::ops::ZeroFS;

verus! {

/// Bytes of file data held by one chunk.
pub const CHUNK_SIZE: usize = 256 * 1024;

/// Number of shards that the global statistics are spread over.
pub const STATS_SHARDS: usize = 100;

/// Most hard links one inode can have: a link's position takes 16 bits of a file id.
pub const MAX_HARDLINKS_PER_INODE: u32 = 0xFFFF;

/// Largest inode id: it takes 48 bits of a file id.
pub const MAX_INODE_ID: u64 = 0xFFFF_FFFF_FFFF;

} // verus!
