//! The state of a mounted file system, and the decisions behind its operations.
//!
//! The store and the cache are reached from outside. Each operation is cut at the points where
//! it waits for them: a function says what to ask for, and the next one takes the answer.

use vstd::prelude::*;

use super::errors::FsError;
use super::gc::{GcRound, RoundModel};
use super::inode::{Inode, InodeId};
use super::key_codec::{
    inode_key_bytes, inode_key_layout, inode_keys_distinct, number_at, KeyCodec, PREFIX_INODE,
};
use super::metrics::{count, counted, FileSystemStats};
use super::MAX_INODE_ID;

verus! {

/// A mounted file system.
pub struct ZeroFS {
    /// The inode id to hand out next.
    pub next_inode_id: u64,
    /// What the file system has done so far.
    pub stats: FileSystemStats,
}

/// How a load of an inode goes on after the cache has been asked.
pub enum LoadInode {
    /// The cache had the inode.
    Cached(Inode),
    /// The record under this key has to be read.
    Read(Vec<u8>),
}

/// An inode to put into the cache.
pub struct CacheEntry {
    pub inode_id: InodeId,
    pub inode: Inode,
}

/// An inode record to put into the store.
pub struct InodeRecord {
    pub key: Vec<u8>,
    pub data: Vec<u8>,
}

/// The counter of inode ids after it has handed one out, or refused to.
pub open spec fn next_after_allocation(next: u64) -> u64 {
    if next > MAX_INODE_ID {
        (MAX_INODE_ID + 2) as u64
    } else {
        (next + 1) as u64
    }
}

/// The inode id that the counter hands out.
pub open spec fn allocated(next: u64) -> Result<InodeId, FsError> {
    if next > MAX_INODE_ID {
        Err(FsError::NoSpace)
    } else {
        Ok(next)
    }
}

/// What a read of one record comes to: a failed read is an I/O error, and a missing record is
/// reported as such.
pub open spec fn record_of<T, E>(read: Result<Option<T>, E>) -> Result<T, FsError> {
    match read {
        Err(_) => Err(FsError::IoError),
        Ok(None) => Err(FsError::NotFound),
        Ok(Some(record)) => Ok(record),
    }
}

/// What decoding a loaded record comes to.
pub open spec fn decoded_of<E>(inode_id: InodeId, decoded: Result<Inode, E>) -> Result<
    CacheEntry,
    FsError,
> {
    match decoded {
        Ok(inode) => Ok(CacheEntry { inode_id, inode }),
        Err(_) => Err(FsError::InvalidData),
    }
}

impl ZeroFS {
    /// Hands out a fresh inode id. Once the ids are used up every call fails, and the counter
    /// stays at a value that says so.
    pub fn allocate_inode(&mut self) -> (id: Result<InodeId, FsError>)
        ensures
            id == allocated(old(self).next_inode_id),
            *final(self) == (ZeroFS {
                next_inode_id: next_after_allocation(old(self).next_inode_id),
                ..*old(self)
            }),
    {
        let id: u64 = self.next_inode_id;
        if id > MAX_INODE_ID {
            self.next_inode_id = MAX_INODE_ID + 2;
            return Err(FsError::NoSpace);
        }
        self.next_inode_id = id + 1;
        Ok(id)
    }

    /// Starts to load an inode, given what the cache holds for it. A hit ends the load; a miss
    /// asks for the inode's record. Either is counted.
    pub fn load_inode(&mut self, inode_id: InodeId, cached: Option<Inode>) -> (load: LoadInode)
        ensures
            match cached {
                Some(inode) => {
                    &&& load == LoadInode::Cached(inode)
                    &&& *final(self) == (ZeroFS {
                        stats: FileSystemStats {
                            cache_hits: counted(old(self).stats.cache_hits, 1),
                            ..old(self).stats
                        },
                        ..*old(self)
                    })
                },
                None => {
                    &&& load matches LoadInode::Read(key)
                    &&& key@ == inode_key_bytes(inode_id)
                    &&& *final(self) == (ZeroFS {
                        stats: FileSystemStats {
                            cache_misses: counted(old(self).stats.cache_misses, 1),
                            ..old(self).stats
                        },
                        ..*old(self)
                    })
                },
            },
    {
        match cached {
            Some(inode) => {
                self.stats.cache_hits = count(self.stats.cache_hits, 1);
                LoadInode::Cached(inode)
            },
            None => {
                self.stats.cache_misses = count(self.stats.cache_misses, 1);
                LoadInode::Read(KeyCodec::inode_key(inode_id))
            },
        }
    }

    /// Starts to save an inode, given its encoding. Returns the record to write.
    pub fn save_inode<E>(inode_id: InodeId, encoded: Result<Vec<u8>, E>) -> (record: Result<
        InodeRecord,
        FsError,
    >)
        ensures
            match encoded {
                Ok(data) => {
                    &&& record matches Ok(r)
                    &&& r.key@ == inode_key_bytes(inode_id)
                    &&& r.data == data
                },
                Err(_) => record == Err::<InodeRecord, FsError>(FsError::InvalidData),
            },
    {
        match encoded {
            Ok(data) => Ok(InodeRecord { key: KeyCodec::inode_key(inode_id), data }),
            Err(_) => Err(FsError::InvalidData),
        }
    }

    /// Finishes a save, given whether the record was written. Returns the inode to drop from
    /// the cache, which may hold what the record replaced.
    pub fn saved_inode<E>(inode_id: InodeId, write: Result<(), E>) -> (stale: Result<
        InodeId,
        FsError,
    >)
        ensures
            stale == match write {
                Ok(_) => Ok(inode_id),
                Err(_) => Err(FsError::IoError),
            },
    {
        match write {
            Ok(_) => Ok(inode_id),
            Err(_) => Err(FsError::IoError),
        }
    }

    /// Finishes a lookup of a name in a directory, given the read of the directory entry. The
    /// outcome of decoding the entry is handed on as it is.
    pub fn lookup_by_name<E>(read: Result<Option<Result<InodeId, FsError>>, E>) -> (found: Result<
        InodeId,
        FsError,
    >)
        ensures
            found == match record_of(read) {
                Ok(decoded) => decoded,
                Err(e) => Err(e),
            },
    {
        match stored_record(read) {
            Ok(decoded) => decoded,
            Err(e) => Err(e),
        }
    }

    /// Starts a garbage collection run: counts it, and opens its first round.
    pub fn run_garbage_collection(&mut self) -> (round: GcRound)
        ensures
            round.wf(),
            round@ == RoundModel::empty(),
            *final(self) == (ZeroFS { stats: old(self).stats.run_started(), ..*old(self) }),
    {
        self.stats.gc_runs = count(self.stats.gc_runs, 1);
        GcRound::new()
    }
}

/// What a read of one record comes to.
pub fn stored_record<T, E>(read: Result<Option<T>, E>) -> (record: Result<T, FsError>)
    ensures
        record == record_of(read),
{
    match read {
        Err(_) => Err(FsError::IoError),
        Ok(None) => Err(FsError::NotFound),
        Ok(Some(record)) => Ok(record),
    }
}

/// Finishes a load, given the outcome of decoding the inode's record. Returns the inode, to be
/// put into the cache under its id as well.
pub fn decoded_inode<E>(inode_id: InodeId, decoded: Result<Inode, E>) -> (loaded: Result<
    CacheEntry,
    FsError,
>)
    ensures
        loaded == decoded_of(inode_id, decoded),
{
    match decoded {
        Ok(inode) => Ok(CacheEntry { inode_id, inode }),
        Err(_) => Err(FsError::InvalidData),
    }
}

/// The counter of inode ids after `calls` allocations.
pub open spec fn counter_after(next: u64, calls: nat) -> u64
    decreases calls,
{
    if calls == 0 {
        next
    } else {
        next_after_allocation(counter_after(next, (calls - 1) as nat))
    }
}

proof fn lemma_counter_after(next: u64, calls: nat)
    ensures
        next + calls <= MAX_INODE_ID + 1 ==> counter_after(next, calls) == next + calls,
        next + calls > MAX_INODE_ID ==> counter_after(next, calls) > MAX_INODE_ID,
    decreases calls,
{
    if calls > 0 {
        lemma_counter_after(next, (calls - 1) as nat);
    }
}

/// Allocations hand out consecutive ids up to `MAX_INODE_ID`, and fail from then on.
pub proof fn allocations_are_consecutive(next: u64, calls: nat)
    ensures
        allocated(counter_after(next, calls)) == if next + calls <= MAX_INODE_ID {
            Ok::<InodeId, FsError>((next + calls) as u64)
        } else {
            Err::<InodeId, FsError>(FsError::NoSpace)
        },
{
    lemma_counter_after(next, calls);
}

/// No two allocations hand out the same id.
pub proof fn allocations_are_distinct(next: u64, a: nat, b: nat)
    requires
        a < b,
        allocated(counter_after(next, a)) is Ok,
        allocated(counter_after(next, b)) is Ok,
    ensures
        allocated(counter_after(next, a)) != allocated(counter_after(next, b)),
{
    lemma_counter_after(next, a);
    lemma_counter_after(next, b);
}

/// Once an allocation has failed every later one fails, and the counter exceeds every id.
pub proof fn exhaustion_is_permanent(next: u64, calls: nat)
    requires
        allocated(next) is Err,
    ensures
        allocated(counter_after(next, calls)) == Err::<InodeId, FsError>(FsError::NoSpace),
        counter_after(next, calls) > MAX_INODE_ID,
{
    lemma_counter_after(next, calls);
}

/// An allocation hands out the number at which the counter stands, and moves the counter on by
/// one. With all numbers of 48 bits handed out it fails, and the counter is put beyond them.
/// Nothing else changes.
pub proof fn allocation_hands_out_the_counter(fs: &mut ZeroFS, id: Result<InodeId, FsError>)
    requires
        call_ensures(ZeroFS::allocate_inode, (fs,), id),
    ensures
        final(fs).stats == old(fs).stats,
        old(fs).next_inode_id < 0x1_0000_0000_0000 ==> {
            &&& id == Ok::<InodeId, FsError>(old(fs).next_inode_id)
            &&& final(fs).next_inode_id == old(fs).next_inode_id + 1
        },
        old(fs).next_inode_id >= 0x1_0000_0000_0000 ==> {
            &&& id == Err::<InodeId, FsError>(FsError::NoSpace)
            &&& final(fs).next_inode_id == 0x1_0000_0000_0001
        },
{
}

/// Every number that an allocation hands out is above all that were handed out before: the
/// counter stands above it afterwards.
pub proof fn allocation_never_goes_back(fs: &mut ZeroFS, id: Result<InodeId, FsError>)
    requires
        call_ensures(ZeroFS::allocate_inode, (fs,), id),
    ensures
        id matches Ok(n) ==> old(fs).next_inode_id <= n < final(fs).next_inode_id,
        id is Err ==> final(fs).next_inode_id > MAX_INODE_ID,
{
}

/// A load returns what the cache holds, or asks for the record under the key that spells the
/// inode's own number. It counts one hit or one miss, and changes nothing else.
pub proof fn load_goes_by_the_inode(
    fs: &mut ZeroFS,
    inode_id: InodeId,
    cached: Option<Inode>,
    load: LoadInode,
)
    requires
        call_ensures(ZeroFS::load_inode, (fs, inode_id, cached), load),
    ensures
        final(fs).next_inode_id == old(fs).next_inode_id,
        final(fs).stats.gc_runs == old(fs).stats.gc_runs,
        final(fs).stats.tombstones_processed == old(fs).stats.tombstones_processed,
        final(fs).stats.gc_chunks_deleted == old(fs).stats.gc_chunks_deleted,
        cached matches Some(inode) ==> {
            &&& load == LoadInode::Cached(inode)
            &&& final(fs).stats.cache_misses == old(fs).stats.cache_misses
            &&& old(fs).stats.cache_hits < u64::MAX ==> final(fs).stats.cache_hits == old(
                fs,
            ).stats.cache_hits + 1
        },
        cached is None ==> {
            &&& load matches LoadInode::Read(key)
            &&& key@.len() == 9
            &&& key@[0] == PREFIX_INODE
            &&& number_at(key@, 1) == inode_id
            &&& final(fs).stats.cache_hits == old(fs).stats.cache_hits
            &&& old(fs).stats.cache_misses < u64::MAX ==> final(fs).stats.cache_misses == old(
                fs,
            ).stats.cache_misses + 1
        },
{
    inode_key_layout(inode_id);
}

/// A save writes the encoded inode, unchanged, under the key that spells the inode's own number.
pub proof fn save_goes_by_the_inode<E>(
    inode_id: InodeId,
    encoded: Result<Vec<u8>, E>,
    record: Result<InodeRecord, FsError>,
)
    requires
        call_ensures(ZeroFS::save_inode::<E>, (inode_id, encoded), record),
    ensures
        encoded matches Ok(data) ==> {
            &&& record matches Ok(r)
            &&& r.data@ == data@
            &&& r.key@.len() == 9
            &&& r.key@[0] == PREFIX_INODE
            &&& number_at(r.key@, 1) == inode_id
        },
        encoded is Err ==> record == Err::<InodeRecord, FsError>(FsError::InvalidData),
{
    inode_key_layout(inode_id);
}

/// A load reads under the very key that a save of the same inode writes under, and under no key
/// that a save of another inode writes under.
pub proof fn load_reads_where_save_writes<E>(
    saved: InodeId,
    encoded: Result<Vec<u8>, E>,
    record: InodeRecord,
    fs: &mut ZeroFS,
    loaded: InodeId,
    key: Vec<u8>,
)
    requires
        call_ensures(
            ZeroFS::save_inode::<E>,
            (saved, encoded),
            Ok::<InodeRecord, FsError>(record),
        ),
        call_ensures(ZeroFS::load_inode, (fs, loaded, None::<Inode>), LoadInode::Read(key)),
    ensures
        key@ == record.key@ <==> saved == loaded,
{
    inode_keys_distinct(saved, loaded);
}

/// The inode that a save drops from the cache is the one that was saved, and it is dropped only
/// once the record is written.
pub proof fn save_drops_what_it_replaced<E>(
    inode_id: InodeId,
    write: Result<(), E>,
    stale: Result<InodeId, FsError>,
)
    requires
        call_ensures(ZeroFS::saved_inode::<E>, (inode_id, write), stale),
    ensures
        write is Ok ==> stale == Ok::<InodeId, FsError>(inode_id),
        write is Err ==> stale == Err::<InodeId, FsError>(FsError::IoError),
{
}

/// A read that finds a record hands it on as it is. One that finds none is `NotFound`, and one
/// that fails is an I/O error.
pub proof fn reads_hand_on_what_is_stored<T, E>(
    read: Result<Option<T>, E>,
    record: Result<T, FsError>,
)
    requires
        call_ensures(stored_record::<T, E>, (read,), record),
    ensures
        read matches Ok(Some(stored)) ==> record == Ok::<T, FsError>(stored),
        read matches Ok(None) ==> record == Err::<T, FsError>(FsError::NotFound),
        read is Err ==> record == Err::<T, FsError>(FsError::IoError),
{
}

/// A load that has read a record caches the inode that the record holds, under the number that
/// was asked for. A record that holds none is invalid data.
pub proof fn loads_hand_on_what_is_decoded<E>(
    inode_id: InodeId,
    decoded: Result<Inode, E>,
    loaded: Result<CacheEntry, FsError>,
)
    requires
        call_ensures(decoded_inode::<E>, (inode_id, decoded), loaded),
    ensures
        decoded matches Ok(inode) ==> loaded matches Ok(entry) && entry.inode_id == inode_id
            && entry.inode == inode,
        decoded is Err ==> loaded == Err::<CacheEntry, FsError>(FsError::InvalidData),
{
}

/// A lookup finds exactly the inode that the directory entry holds. A missing entry is
/// `NotFound`, a failed read an I/O error, and what a broken entry decodes to is handed on.
pub proof fn lookups_find_what_is_entered<E>(
    read: Result<Option<Result<InodeId, FsError>>, E>,
    found: Result<InodeId, FsError>,
)
    requires
        call_ensures(ZeroFS::lookup_by_name::<E>, (read,), found),
    ensures
        read matches Ok(Some(entry)) ==> found == entry,
        read matches Ok(None) ==> found == Err::<InodeId, FsError>(FsError::NotFound),
        read is Err ==> found == Err::<InodeId, FsError>(FsError::IoError),
{
}

/// The start of a collection run counts one run, changes nothing else, and opens a round that
/// has decided nothing and may delete ten thousand chunks.
pub proof fn run_starts_with_a_full_budget(fs: &mut ZeroFS, round: GcRound)
    requires
        call_ensures(ZeroFS::run_garbage_collection, (fs,), round),
    ensures
        final(fs).next_inode_id == old(fs).next_inode_id,
        final(fs).stats.cache_hits == old(fs).stats.cache_hits,
        final(fs).stats.cache_misses == old(fs).stats.cache_misses,
        final(fs).stats.tombstones_processed == old(fs).stats.tombstones_processed,
        final(fs).stats.gc_chunks_deleted == old(fs).stats.gc_chunks_deleted,
        old(fs).stats.gc_runs < u64::MAX ==> final(fs).stats.gc_runs == old(fs).stats.gc_runs + 1,
        old(fs).stats.gc_runs == u64::MAX ==> final(fs).stats.gc_runs == 0,
        round@.updates.len() == 0,
        round@.deleted == 0,
        round@.completed == 0,
        !round@.incomplete,
        round@.remaining == 10_000,
        round@.pending is None,
{
}

} // verus!
