//! What loads and saves of inodes achieve together: laws about the store and the cache.
//!
//! The store is modelled as a map from keys to records, and the cache as a map from inode ids to
//! inodes. The encoding of inodes is left open: the laws hold for any `decode`.

use vstd::prelude::*;

use super::errors::FsError;
use super::inode::{Inode, InodeId, ROOT_INODE};
use super::key_codec::{
    chunk_key_bytes, inode_and_chunk_keys_disjoint, inode_key_bytes, inode_keys_distinct,
};
use super::mount::{new_root, Mount, MountStep};
use super::ops::{decoded_of, record_of, CacheEntry};

verus! {

/// The records of the store and the inodes in the cache.
#[verifier::ext_equal]
pub struct Store {
    pub records: Map<Seq<u8>, Seq<u8>>,
    pub cached: Map<InodeId, Inode>,
}

/// A decoder of inode records: what a record holds, or that it does not hold an inode.
pub type Decoder = spec_fn(Seq<u8>) -> Result<Inode, ()>;

/// An encoder of inodes into records.
pub type Encoder = spec_fn(Inode) -> Seq<u8>;

impl Store {
    /// What a read that does not fail gives for `key`.
    pub open spec fn read(self, key: Seq<u8>) -> Result<Option<Seq<u8>>, ()> {
        if self.records.contains_key(key) {
            Ok(Some(self.records[key]))
        } else {
            Ok(None)
        }
    }

    /// What a load of an inode that is not in the cache comes to.
    pub open spec fn fetched(self, inode_id: InodeId, decode: Decoder) -> Result<
        CacheEntry,
        FsError,
    > {
        match record_of(self.read(inode_key_bytes(inode_id))) {
            Ok(data) => decoded_of(inode_id, decode(data)),
            Err(e) => Err(e),
        }
    }

    /// What a load of an inode returns.
    pub open spec fn load(self, inode_id: InodeId, decode: Decoder) -> Result<Inode, FsError> {
        if self.cached.contains_key(inode_id) {
            Ok(self.cached[inode_id])
        } else {
            match self.fetched(inode_id, decode) {
                Ok(entry) => Ok(entry.inode),
                Err(e) => Err(e),
            }
        }
    }

    /// The store and the cache after a load of an inode.
    pub open spec fn after_load(self, inode_id: InodeId, decode: Decoder) -> Store {
        if self.cached.contains_key(inode_id) {
            self
        } else {
            match self.fetched(inode_id, decode) {
                Ok(entry) => Store {
                    cached: self.cached.insert(entry.inode_id, entry.inode),
                    ..self
                },
                Err(_) => self,
            }
        }
    }

    /// The store and the cache after a save of an inode encoded as `data`.
    pub open spec fn after_save(self, inode_id: InodeId, data: Seq<u8>) -> Store {
        Store {
            records: self.records.insert(inode_key_bytes(inode_id), data),
            cached: self.cached.remove(inode_id),
        }
    }

    /// The store and the cache after the cache has dropped an inode of its own accord.
    pub open spec fn after_eviction(self, inode_id: InodeId) -> Store {
        Store { cached: self.cached.remove(inode_id), ..self }
    }

    /// The store and the cache after the deletion of a chunk.
    pub open spec fn after_chunk_deletion(self, inode_id: InodeId, chunk_index: u64) -> Store {
        Store { records: self.records.remove(chunk_key_bytes(inode_id, chunk_index)), ..self }
    }

    /// Whether the store holds a record of the root directory.
    pub open spec fn has_root(self) -> bool {
        self.records.contains_key(inode_key_bytes(ROOT_INODE))
    }

    /// The store and the cache after a mount at time `now`.
    pub open spec fn after_mount(self, now: (u64, u32), encode: Encoder) -> Store {
        match Mount::started().with_root(self.has_root(), now).step {
            MountStep::WriteRoot(root) => Store {
                records: self.records.insert(inode_key_bytes(ROOT_INODE), encode(root)),
                ..self
            },
            _ => self,
        }
    }

    /// Whether every cached inode is what its record says.
    pub open spec fn coherent(self, decode: Decoder) -> bool {
        forall|id: InodeId| #[trigger]
            self.cached.contains_key(id) ==> self.records.contains_key(inode_key_bytes(id))
                && decode(self.records[inode_key_bytes(id)]) == Ok::<Inode, ()>(self.cached[id])
    }
}

/// A load after a save returns the saved inode, whatever the store and the cache held before.
pub proof fn load_returns_what_was_saved(
    store: Store,
    inode_id: InodeId,
    inode: Inode,
    data: Seq<u8>,
    decode: Decoder,
)
    requires
        decode(data) == Ok::<Inode, ()>(inode),
    ensures
        store.after_save(inode_id, data).load(inode_id, decode) == Ok::<Inode, FsError>(inode),
{
}

/// A save of one inode does not change what a load of another returns.
pub proof fn save_leaves_other_inodes(
    store: Store,
    saved: InodeId,
    data: Seq<u8>,
    other: InodeId,
    decode: Decoder,
)
    requires
        saved != other,
    ensures
        store.after_save(saved, data).load(other, decode) == store.load(other, decode),
{
    inode_keys_distinct(saved, other);
}

/// A load of an inode that is neither cached nor stored fails with `NotFound`.
pub proof fn load_of_a_missing_inode_fails(store: Store, inode_id: InodeId, decode: Decoder)
    requires
        !store.cached.contains_key(inode_id),
        !store.records.contains_key(inode_key_bytes(inode_id)),
    ensures
        store.load(inode_id, decode) == Err::<Inode, FsError>(FsError::NotFound),
{
}

/// A load changes no record, and what a later load returns is the same.
pub proof fn load_is_repeatable(store: Store, first: InodeId, second: InodeId, decode: Decoder)
    ensures
        store.after_load(first, decode).records == store.records,
        store.after_load(first, decode).load(second, decode) == store.load(second, decode),
{
}

/// Loads, saves and evictions that follow one another keep the cache coherent, so that no load
/// returns an inode that an earlier save has replaced.
pub proof fn cache_stays_coherent(
    store: Store,
    inode_id: InodeId,
    data: Seq<u8>,
    decode: Decoder,
)
    requires
        store.coherent(decode),
    ensures
        store.after_load(inode_id, decode).coherent(decode),
        store.after_save(inode_id, data).coherent(decode),
        store.after_eviction(inode_id).coherent(decode),
{
    let saved = store.after_save(inode_id, data);
    assert forall|id: InodeId| #[trigger] saved.cached.contains_key(id) implies saved.records.contains_key(
        inode_key_bytes(id),
    ) && decode(saved.records[inode_key_bytes(id)]) == Ok::<Inode, ()>(saved.cached[id]) by {
        assert(store.cached.contains_key(id));
        inode_keys_distinct(inode_id, id);
    }
    let evicted = store.after_eviction(inode_id);
    assert forall|id: InodeId| #[trigger]
        evicted.cached.contains_key(id) implies evicted.records.contains_key(inode_key_bytes(id))
        && decode(evicted.records[inode_key_bytes(id)]) == Ok::<Inode, ()>(evicted.cached[id]) by {
        assert(store.cached.contains_key(id));
    }
    let loaded = store.after_load(inode_id, decode);
    assert forall|id: InodeId| #[trigger]
        loaded.cached.contains_key(id) implies loaded.records.contains_key(inode_key_bytes(id))
        && decode(loaded.records[inode_key_bytes(id)]) == Ok::<Inode, ()>(loaded.cached[id]) by {
        if id != inode_id {
            assert(store.cached.contains_key(id));
        }
    }
}

/// As long as the cache is coherent, a load returns the same whether or not the cache has
/// dropped an inode.
pub proof fn eviction_is_invisible(
    store: Store,
    evicted: InodeId,
    loaded: InodeId,
    decode: Decoder,
)
    requires
        store.coherent(decode),
    ensures
        store.after_eviction(evicted).load(loaded, decode) == store.load(loaded, decode),
{
    if evicted == loaded && store.cached.contains_key(loaded) {
        assert(store.records.contains_key(inode_key_bytes(loaded)));
    }
}

/// Deleting chunks of file data, as garbage collection does, does not change what a load of any
/// inode returns.
pub proof fn chunk_deletion_leaves_inodes(
    store: Store,
    dead: InodeId,
    chunk_index: u64,
    loaded: InodeId,
    decode: Decoder,
)
    ensures
        store.after_chunk_deletion(dead, chunk_index).load(loaded, decode) == store.load(
            loaded,
            decode,
        ),
{
    inode_and_chunk_keys_disjoint(loaded, dead, chunk_index);
}

/// After a mount there is a record of the root directory. On a store without one it is the new
/// root, and with an empty cache a load returns it.
pub proof fn mount_leaves_a_root(store: Store, now: (u64, u32), encode: Encoder, decode: Decoder)
    requires
        decode(encode(Inode::Directory(new_root(now)))) == Ok::<Inode, ()>(
            Inode::Directory(new_root(now)),
        ),
    ensures
        store.after_mount(now, encode).records.contains_key(inode_key_bytes(ROOT_INODE)),
        !store.has_root() && !store.cached.contains_key(ROOT_INODE) ==> store.after_mount(
            now,
            encode,
        ).load(ROOT_INODE, decode) == Ok::<Inode, FsError>(Inode::Directory(new_root(now))),
{
}

/// A mount of a store that was mounted before changes no record, whatever the time.
pub proof fn remount_changes_nothing(
    store: Store,
    now: (u64, u32),
    later: (u64, u32),
    encode: Encoder,
)
    ensures
        store.after_mount(now, encode).after_mount(later, encode) == store.after_mount(now, encode),
{
}

/// A mount changes what no load of an inode other than the root returns.
pub proof fn mount_leaves_other_inodes(
    store: Store,
    now: (u64, u32),
    encode: Encoder,
    other: InodeId,
    decode: Decoder,
)
    requires
        other != ROOT_INODE,
    ensures
        store.after_mount(now, encode).load(other, decode) == store.load(other, decode),
{
    inode_keys_distinct(ROOT_INODE, other);
}

} // verus!
