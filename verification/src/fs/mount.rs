//! Mounting: what is read and written when a file system is opened.
//!
//! A mount reads the inode counter, makes sure that there is a root directory, and loads the
//! shards of the global statistics. `Mount` says what to do next and takes each answer.

use vstd::prelude::*;

use super::errors::FsError;
use super::inode::{DirectoryInode, Inode, InodeId, ROOT_INODE};
use super::metrics::FileSystemStats;
use super::ops::{allocated, allocations_are_consecutive, counter_after, ZeroFS};
use super::{MAX_INODE_ID, STATS_SHARDS};

verus! {

/// Mode of a new root directory: everyone may create entries, only owners may remove theirs.
pub const ROOT_MODE: u32 = 0o1777;

/// The user and group that own what the file system itself creates.
pub fn get_current_uid_gid() -> (owner: (u32, u32))
    ensures
        owner == (0u32, 0u32),
{
    (0, 0)
}

/// The directory that a new file system starts with, created at time `now`: empty, its own
/// parent, and linked twice, by `.` and `..`.
pub open spec fn new_root(now: (u64, u32)) -> DirectoryInode {
    DirectoryInode {
        mtime: now.0,
        mtime_nsec: now.1,
        ctime: now.0,
        ctime_nsec: now.1,
        atime: now.0,
        atime_nsec: now.1,
        mode: ROOT_MODE,
        uid: 0,
        gid: 0,
        entry_count: 0,
        parent: ROOT_INODE,
        nlink: 2,
    }
}

/// What a mount does next.
pub enum MountStep {
    /// Read the inode counter.
    ReadCounter,
    /// Look for the record of inode `ROOT_INODE`.
    ReadRoot,
    /// Write this as inode `ROOT_INODE`.
    WriteRoot(Inode),
    /// Read this shard of the statistics.
    ReadShard(usize),
    /// Nothing: the file system is ready.
    Ready,
}

/// A mount under way.
pub struct Mount {
    /// What to do next.
    pub step: MountStep,
    /// The inode id that the file system will hand out first.
    pub next_inode_id: u64,
}

impl Mount {
    /// What holds of a mount at every point: the shard to read exists.
    pub open spec fn wf(self) -> bool {
        self.step matches MountStep::ReadShard(shard) ==> shard < STATS_SHARDS
    }

    /// A mount that has done nothing.
    pub open spec fn started() -> Self {
        Mount { step: MountStep::ReadCounter, next_inode_id: 1 }
    }

    /// The mount once the counter is known. A store without one starts at 1.
    pub open spec fn with_counter(self, counter: Option<u64>) -> Self {
        Mount {
            step: MountStep::ReadRoot,
            next_inode_id: match counter {
                Some(next) => next,
                None => 1,
            },
        }
    }

    /// The mount once it is known whether there is a root directory.
    pub open spec fn with_root(self, present: bool, now: (u64, u32)) -> Self {
        Mount {
            step: if present {
                MountStep::ReadShard(0)
            } else {
                MountStep::WriteRoot(Inode::Directory(new_root(now)))
            },
            ..self
        }
    }

    /// The mount once the new root directory is written.
    pub open spec fn with_root_written(self) -> Self {
        Mount { step: MountStep::ReadShard(0), ..self }
    }

    /// The mount once it is done with a shard.
    pub open spec fn past_shard(self, shard: usize) -> Self {
        Mount {
            step: if shard + 1 < STATS_SHARDS {
                MountStep::ReadShard((shard + 1) as usize)
            } else {
                MountStep::Ready
            },
            ..self
        }
    }

    /// Starts a mount.
    pub fn new() -> (mount: Self)
        ensures
            mount.wf(),
            mount == Mount::started(),
    {
        Mount { step: MountStep::ReadCounter, next_inode_id: 1 }
    }

    /// Takes the outcome of decoding the inode counter that the store holds, if it holds one. A
    /// failed read and a counter that cannot be decoded end the mount with their error.
    pub fn counter_read<E>(&mut self, read: Result<Option<Result<u64, E>>, E>) -> (result: Result<
        (),
        E,
    >)
        requires
            old(self).step is ReadCounter,
        ensures
            final(self).wf(),
            match read {
                Ok(None) => {
                    &&& result is Ok
                    &&& *final(self) == old(self).with_counter(None)
                },
                Ok(Some(Ok(next))) => {
                    &&& result is Ok
                    &&& *final(self) == old(self).with_counter(Some(next))
                },
                Ok(Some(Err(e))) => {
                    &&& result == Err::<(), E>(e)
                    &&& *final(self) == *old(self)
                },
                Err(e) => {
                    &&& result == Err::<(), E>(e)
                    &&& *final(self) == *old(self)
                },
            },
    {
        self.next_inode_id = match read {
            Ok(None) => 1,
            Ok(Some(Ok(next))) => next,
            Ok(Some(Err(e))) => return Err(e),
            Err(e) => return Err(e),
        };
        self.step = MountStep::ReadRoot;
        Ok(())
    }

    /// Takes whether the store holds a record of inode `ROOT_INODE`, and the time to stamp a new
    /// one with. A failed read ends the mount with its error.
    pub fn root_read<E>(&mut self, read: Result<bool, E>, now: (u64, u32)) -> (result: Result<
        (),
        E,
    >)
        requires
            old(self).step is ReadRoot,
        ensures
            final(self).wf(),
            match read {
                Ok(present) => {
                    &&& result is Ok
                    &&& *final(self) == old(self).with_root(present, now)
                },
                Err(e) => {
                    &&& result == Err::<(), E>(e)
                    &&& *final(self) == *old(self)
                },
            },
    {
        match read {
            Ok(true) => {
                self.step = MountStep::ReadShard(0);
                Ok(())
            },
            Ok(false) => {
                let (uid, gid) = get_current_uid_gid();
                let root = DirectoryInode {
                    mtime: now.0,
                    mtime_nsec: now.1,
                    ctime: now.0,
                    ctime_nsec: now.1,
                    atime: now.0,
                    atime_nsec: now.1,
                    mode: ROOT_MODE,
                    uid,
                    gid,
                    entry_count: 0,
                    parent: ROOT_INODE,
                    nlink: 2,
                };
                self.step = MountStep::WriteRoot(Inode::Directory(root));
                Ok(())
            },
            Err(e) => Err(e),
        }
    }

    /// Takes whether the new root directory was written. A failed write ends the mount with its
    /// error.
    pub fn root_written<E>(&mut self, write: Result<(), E>) -> (result: Result<(), E>)
        requires
            old(self).step is WriteRoot,
        ensures
            final(self).wf(),
            match write {
                Ok(_) => {
                    &&& result is Ok
                    &&& *final(self) == old(self).with_root_written()
                },
                Err(e) => {
                    &&& result == Err::<(), E>(e)
                    &&& *final(self) == *old(self)
                },
            },
    {
        match write {
            Ok(_) => {
                self.step = MountStep::ReadShard(0);
                Ok(())
            },
            Err(e) => Err(e),
        }
    }

    /// Takes the outcome of decoding the shard of the statistics last asked for, or `None` if the
    /// store holds none. Returns what to load, and into which shard. A shard that cannot be
    /// decoded is passed over like one that is not there. A failed read ends the mount with its
    /// error.
    pub fn shard_read<S, D, E>(&mut self, read: Result<Option<Result<S, D>>, E>) -> (load: Result<
        Option<(usize, S)>,
        E,
    >)
        requires
            old(self).wf(),
            old(self).step is ReadShard,
        ensures
            final(self).wf(),
            match read {
                Ok(decoded) => {
                    &&& *final(self) == old(self).past_shard(old(self).step->ReadShard_0)
                    &&& load == Ok::<Option<(usize, S)>, E>(
                        match decoded {
                            Some(Ok(data)) => Some((old(self).step->ReadShard_0, data)),
                            Some(Err(_)) => None,
                            None => None,
                        },
                    )
                },
                Err(e) => {
                    &&& *final(self) == *old(self)
                    &&& load == Err::<Option<(usize, S)>, E>(e)
                },
            },
    {
        let decoded = match read {
            Ok(decoded) => decoded,
            Err(e) => return Err(e),
        };
        let shard: usize = match self.step {
            MountStep::ReadShard(shard) => shard,
            _ => 0,
        };
        self.step = if shard + 1 < STATS_SHARDS {
            MountStep::ReadShard(shard + 1)
        } else {
            MountStep::Ready
        };
        match decoded {
            Some(Ok(data)) => Ok(Some((shard, data))),
            Some(Err(_)) => Ok(None),
            None => Ok(None),
        }
    }

    /// The mounted file system.
    pub fn finish(self) -> (fs: ZeroFS)
        requires
            self.step is Ready,
        ensures
            fs.next_inode_id == self.next_inode_id,
            fs.stats == (FileSystemStats {
                cache_hits: 0,
                cache_misses: 0,
                gc_runs: 0,
                tombstones_processed: 0,
                gc_chunks_deleted: 0,
            }),
    {
        ZeroFS { next_inode_id: self.next_inode_id, stats: FileSystemStats::new() }
    }
}

/// The mount after `n` more shards, starting with `shard`.
pub open spec fn past_shards(mount: Mount, shard: usize, n: nat) -> Mount
    decreases n,
{
    if n == 0 {
        mount
    } else {
        past_shards(mount.past_shard(shard), (shard + 1) as usize, (n - 1) as nat)
    }
}

proof fn lemma_past_shards(mount: Mount, shard: usize, n: nat)
    requires
        mount.step == MountStep::ReadShard(shard),
        shard + n <= STATS_SHARDS,
        shard < STATS_SHARDS,
    ensures
        past_shards(mount, shard, n) == (Mount {
            step: if shard + n < STATS_SHARDS {
                MountStep::ReadShard((shard + n) as usize)
            } else {
                MountStep::Ready
            },
            ..mount
        }),
    decreases n,
{
    if n > 0 && shard + 1 < STATS_SHARDS {
        lemma_past_shards(mount.past_shard(shard), (shard + 1) as usize, (n - 1) as nat);
    } else if n > 0 {
        assert(past_shards(mount.past_shard(shard), (shard + 1) as usize, 0)
            == mount.past_shard(shard));
    }
}

/// A whole mount of a store that holds `counter`, and a root directory if `root_present`.
pub open spec fn mounted(counter: Option<u64>, root_present: bool, now: (u64, u32)) -> Mount {
    let after_root = Mount::started().with_counter(counter).with_root(root_present, now);
    let at_shards = if root_present {
        after_root
    } else {
        after_root.with_root_written()
    };
    past_shards(at_shards, 0, STATS_SHARDS as nat)
}

/// A mount asks for each shard of the statistics once, in order: after `n` of them it asks for
/// shard `n`, and after all of them it is ready.
pub proof fn shards_are_read_in_order(mount: Mount, n: nat)
    requires
        mount.step == MountStep::ReadShard(0),
        n <= STATS_SHARDS,
    ensures
        past_shards(mount, 0, n).step == if n < STATS_SHARDS {
            MountStep::ReadShard(n as usize)
        } else {
            MountStep::Ready
        },
        past_shards(mount, 0, n).next_inode_id == mount.next_inode_id,
{
    lemma_past_shards(mount, 0, n);
}

/// Every mount ends ready, and resumes the inode counter that the store holds, or starts it at 1.
pub proof fn mount_resumes_the_counter(counter: Option<u64>, root_present: bool, now: (u64, u32))
    ensures
        mounted(counter, root_present, now).step is Ready,
        mounted(counter, root_present, now).next_inode_id == match counter {
            Some(next) => next,
            None => 1,
        },
{
    let after_root = Mount::started().with_counter(counter).with_root(root_present, now);
    let at_shards = if root_present {
        after_root
    } else {
        after_root.with_root_written()
    };
    lemma_past_shards(at_shards, 0, STATS_SHARDS as nat);
}

/// A mount writes a root directory if and only if the store has none: an empty one, owned by
/// the user and group that own what the file system itself creates.
pub proof fn mount_writes_only_a_missing_root(
    counter: Option<u64>,
    root_present: bool,
    now: (u64, u32),
)
    ensures
        ({
            let step = Mount::started().with_counter(counter).with_root(root_present, now).step;
            &&& step is WriteRoot <==> !root_present
            &&& !root_present ==> step == MountStep::WriteRoot(Inode::Directory(new_root(now)))
            &&& root_present ==> step == MountStep::ReadShard(0)
        }),
{
}

/// A file system mounted on a store without a counter hands out 1, 2, 3 and so on, so that no
/// new inode ever takes the number of the root directory.
pub proof fn fresh_file_system_never_reuses_the_root(
    root_present: bool,
    now: (u64, u32),
    calls: nat,
)
    ensures
        ({
            let next = mounted(None, root_present, now).next_inode_id;
            let id = allocated(counter_after(next, calls));
            &&& id != Ok::<InodeId, FsError>(ROOT_INODE)
            &&& 1 + calls <= MAX_INODE_ID ==> id == Ok::<InodeId, FsError>((1 + calls) as u64)
        }),
{
    mount_resumes_the_counter(None, root_present, now);
    allocations_are_consecutive(1, calls);
}

/// A mount starts at the counter that the store holds, whatever it is, and at 1 if there is none.
/// It then looks for the root directory. A counter that cannot be read or decoded ends the mount
/// with that error, and changes nothing.
pub proof fn counter_is_taken_as_stored<E>(
    mount: &mut Mount,
    read: Result<Option<Result<u64, E>>, E>,
    result: Result<(), E>,
)
    requires
        old(mount).step is ReadCounter,
        call_ensures(Mount::counter_read::<E>, (mount, read), result),
    ensures
        read matches Ok(Some(Ok(stored))) ==> result is Ok && final(mount).next_inode_id == stored
            && final(mount).step is ReadRoot,
        read matches Ok(None) ==> result is Ok && final(mount).next_inode_id == 1
            && final(mount).step is ReadRoot,
        read matches Ok(Some(Err(e))) ==> result == Err::<(), E>(e) && *final(mount) == *old(mount),
        read matches Err(e) ==> result == Err::<(), E>(e) && *final(mount) == *old(mount),
{
}

/// On a store without a root directory a mount writes one with all three times set to `now`,
/// open to everyone with the sticky bit, owned by user and group 0, empty, its own parent, and
/// linked twice. On a store with one it writes none and goes on to the first shard. A failed
/// read ends the mount with its error.
pub proof fn root_is_written_as_new<E>(
    mount: &mut Mount,
    read: Result<bool, E>,
    now: (u64, u32),
    result: Result<(), E>,
)
    requires
        old(mount).step is ReadRoot,
        call_ensures(Mount::root_read::<E>, (mount, read, now), result),
    ensures
        final(mount).next_inode_id == old(mount).next_inode_id,
        read matches Ok(false) ==> {
            &&& result is Ok
            &&& final(mount).step matches MountStep::WriteRoot(Inode::Directory(root))
            &&& (root.mtime, root.mtime_nsec) == now
            &&& (root.ctime, root.ctime_nsec) == now
            &&& (root.atime, root.atime_nsec) == now
            &&& root.mode == 0o1777
            &&& root.uid == 0
            &&& root.gid == 0
            &&& root.entry_count == 0
            &&& root.parent == 0
            &&& root.nlink == 2
        },
        read matches Ok(true) ==> result is Ok && final(mount).step == MountStep::ReadShard(0),
        read matches Err(e) ==> result == Err::<(), E>(e) && *final(mount) == *old(mount),
{
}

/// Two first mounts at different times write roots that differ in their times alone.
pub proof fn new_roots_differ_in_time_alone(now: (u64, u32), later: (u64, u32))
    ensures
        new_root(later) == (DirectoryInode {
            mtime: later.0,
            mtime_nsec: later.1,
            ctime: later.0,
            ctime_nsec: later.1,
            atime: later.0,
            atime_nsec: later.1,
            ..new_root(now)
        }),
        new_root(now) == new_root(later) <==> now == later,
{
    let (a, b) = (new_root(now), new_root(later));
    if a == b {
        assert(a.mtime == b.mtime && a.mtime_nsec == b.mtime_nsec);
    }
}

/// Once the new root is written a mount goes on to the first shard, with the counter as it was.
/// A failed write ends the mount with its error.
pub proof fn written_root_leads_to_the_shards<E>(
    mount: &mut Mount,
    write: Result<(), E>,
    result: Result<(), E>,
)
    requires
        old(mount).step is WriteRoot,
        call_ensures(Mount::root_written::<E>, (mount, write), result),
    ensures
        final(mount).next_inode_id == old(mount).next_inode_id,
        write is Ok ==> result is Ok && final(mount).step == MountStep::ReadShard(0),
        write matches Err(e) ==> result == Err::<(), E>(e) && *final(mount) == *old(mount),
{
}

/// What a shard decodes to is loaded into that same shard, unchanged. A shard that is missing or
/// cannot be decoded is passed over. Either way the next of the hundred shards follows, and after
/// the last the mount is ready. A failed read ends the mount with its error.
pub proof fn shards_are_loaded_in_place<S, D, E>(
    mount: &mut Mount,
    shard: usize,
    read: Result<Option<Result<S, D>>, E>,
    load: Result<Option<(usize, S)>, E>,
)
    requires
        old(mount).step == MountStep::ReadShard(shard),
        shard < 100,
        call_ensures(Mount::shard_read::<S, D, E>, (mount, read), load),
    ensures
        final(mount).next_inode_id == old(mount).next_inode_id,
        read matches Ok(Some(Ok(data))) ==> load == Ok::<Option<(usize, S)>, E>(
            Some((shard, data)),
        ),
        read matches Ok(Some(Err(_))) ==> load == Ok::<Option<(usize, S)>, E>(None),
        read matches Ok(None) ==> load == Ok::<Option<(usize, S)>, E>(None),
        read is Ok && shard < 99 ==> final(mount).step == MountStep::ReadShard((shard + 1) as usize),
        read is Ok && shard == 99 ==> final(mount).step is Ready,
        read matches Err(e) ==> load == Err::<Option<(usize, S)>, E>(e) && *final(mount) == *old(
            mount,
        ),
{
}

/// A mount starts by reading the counter.
pub proof fn mount_starts_with_the_counter(mount: Mount)
    requires
        call_ensures(Mount::new, (), mount),
    ensures
        mount.step is ReadCounter,
{
}

/// The mounted file system hands out first the number that the mount arrived at, and has counted
/// nothing.
pub proof fn mounted_file_system_is_fresh(mount: Mount, fs: ZeroFS)
    requires
        mount.step is Ready,
        call_ensures(Mount::finish, (mount,), fs),
    ensures
        fs.next_inode_id == mount.next_inode_id,
        fs.stats.cache_hits == 0,
        fs.stats.cache_misses == 0,
        fs.stats.gc_runs == 0,
        fs.stats.tombstones_processed == 0,
        fs.stats.gc_chunks_deleted == 0,
{
}

} // verus!
