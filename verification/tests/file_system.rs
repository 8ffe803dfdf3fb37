use std::collections::HashMap;

use zerofs::fs::clock::timestamp;
use zerofs::fs::errors::FsError;
use zerofs::fs::inode::{DirectoryInode, FileInode, Inode, ROOT_INODE};
use zerofs::fs::key_codec::{KeyCodec, PREFIX_CHUNK, PREFIX_INODE};
use zerofs::fs::mount::{get_current_uid_gid, Mount, MountStep};
use zerofs::fs::ops::{decoded_inode, stored_record, LoadInode};
use zerofs::fs::{
    get_current_time, EncodedFileId, ZeroFS, CHUNK_SIZE, MAX_HARDLINKS_PER_INODE, MAX_INODE_ID,
    STATS_SHARDS,
};

/// Records and cache of an in-memory file system. Records are encoded as tuples.
struct World {
    fs: ZeroFS,
    records: HashMap<Vec<u8>, Vec<u8>>,
    cache: HashMap<u64, Inode>,
}

type Times = (u64, u32, u64, u32, u64, u32);

fn encode(inode: &Inode) -> Result<Vec<u8>, ()> {
    match inode {
        Inode::File(f) => {
            let times: Times =
                (f.mtime, f.mtime_nsec, f.ctime, f.ctime_nsec, f.atime, f.atime_nsec);
            bincode::serialize(&(0u8, times, f.size, f.mode, f.uid, f.gid, f.parent, f.nlink))
                .map_err(|_| ())
        }
        Inode::Directory(d) => {
            let times: Times =
                (d.mtime, d.mtime_nsec, d.ctime, d.ctime_nsec, d.atime, d.atime_nsec);
            bincode::serialize(&(
                1u8,
                times,
                d.entry_count,
                d.mode,
                d.uid,
                d.gid,
                Some(d.parent),
                d.nlink,
            ))
            .map_err(|_| ())
        }
    }
}

fn decode(data: &[u8]) -> Result<Inode, ()> {
    let (kind, times, count, mode, uid, gid, parent, nlink) =
        bincode::deserialize::<(u8, Times, u64, u32, u32, u32, Option<u64>, u32)>(data)
            .map_err(|_| ())?;
    let (mtime, mtime_nsec, ctime, ctime_nsec, atime, atime_nsec) = times;
    if kind == 0 {
        Ok(Inode::File(FileInode {
            size: count,
            mtime,
            mtime_nsec,
            ctime,
            ctime_nsec,
            atime,
            atime_nsec,
            mode,
            uid,
            gid,
            parent,
            nlink,
        }))
    } else {
        Ok(Inode::Directory(DirectoryInode {
            mtime,
            mtime_nsec,
            ctime,
            ctime_nsec,
            atime,
            atime_nsec,
            mode,
            uid,
            gid,
            entry_count: count,
            parent: parent.unwrap_or(ROOT_INODE),
            nlink,
        }))
    }
}

fn save(records: &mut HashMap<Vec<u8>, Vec<u8>>, id: u64, inode: &Inode) -> Result<u64, FsError> {
    let record = ZeroFS::save_inode(id, encode(inode))?;
    records.insert(record.key, record.data);
    ZeroFS::saved_inode(id, Ok::<(), ()>(()))
}

impl World {
    fn mount(mut records: HashMap<Vec<u8>, Vec<u8>>, counter: Option<u64>) -> World {
        let mut mount = Mount::new();
        let mut shards = Vec::new();
        loop {
            match &mount.step {
                MountStep::ReadCounter => {
                    mount.counter_read(Ok::<_, ()>(counter.map(Ok))).unwrap();
                }
                MountStep::ReadRoot => {
                    let present = records.contains_key(&KeyCodec::inode_key(ROOT_INODE));
                    mount.root_read(Ok::<_, ()>(present), get_current_time()).unwrap();
                }
                MountStep::WriteRoot(root) => {
                    save(&mut records, ROOT_INODE, root).unwrap();
                    mount.root_written(Ok::<(), ()>(())).unwrap();
                }
                MountStep::ReadShard(shard) => {
                    shards.push(*shard);
                    assert_eq!(mount.shard_read(Ok::<Option<Result<u64, ()>>, ()>(None)), Ok(None));
                }
                MountStep::Ready => break,
            }
        }
        assert_eq!(shards, (0..STATS_SHARDS).collect::<Vec<usize>>());
        World { fs: mount.finish(), records, cache: HashMap::new() }
    }

    fn new_in_memory() -> World {
        World::mount(HashMap::new(), None)
    }

    fn load_inode(&mut self, id: u64) -> Result<Inode, FsError> {
        match self.fs.load_inode(id, self.cache.get(&id).copied()) {
            LoadInode::Cached(inode) => Ok(inode),
            LoadInode::Read(key) => {
                let data = stored_record(Ok::<_, ()>(self.records.get(&key).cloned()))?;
                let entry = decoded_inode(id, decode(&data))?;
                self.cache.insert(entry.inode_id, entry.inode);
                Ok(entry.inode)
            }
        }
    }

    fn save_inode(&mut self, id: u64, inode: &Inode) -> Result<(), FsError> {
        let stale = save(&mut self.records, id, inode)?;
        self.cache.remove(&stale);
        Ok(())
    }
}

fn file_of_size(size: u64) -> FileInode {
    FileInode {
        size,
        mtime: 1234567890,
        mtime_nsec: 123456789,
        ctime: 1234567891,
        ctime_nsec: 234567890,
        atime: 1234567892,
        atime_nsec: 345678901,
        mode: 0o644,
        uid: 1000,
        gid: 1000,
        parent: Some(0),
        nlink: 1,
    }
}

#[test]
fn test_create_filesystem() {
    let mut fs = World::new_in_memory();

    let root_inode = fs.load_inode(0).unwrap();
    match root_inode {
        Inode::Directory(dir) => {
            assert_eq!(dir.mode, 0o1777);
            let (expected_uid, expected_gid) = get_current_uid_gid();
            assert_eq!(dir.uid, expected_uid);
            assert_eq!(dir.gid, expected_gid);
            assert_eq!(dir.entry_count, 0);
        }
        _ => panic!("Root should be a directory"),
    }
}

#[test]
fn test_allocate_inode() {
    let mut fs = World::new_in_memory().fs;

    let inode1 = fs.allocate_inode().unwrap();
    let inode2 = fs.allocate_inode().unwrap();
    let inode3 = fs.allocate_inode().unwrap();

    assert_ne!(inode1, 0);
    assert_ne!(inode2, 0);
    assert_ne!(inode3, 0);
    assert_ne!(inode1, inode2);
    assert_ne!(inode2, inode3);
    assert_ne!(inode1, inode3);
}

#[test]
fn test_save_and_load_inode() {
    let mut fs = World::new_in_memory();

    let file_inode = file_of_size(1024);

    let inode = Inode::File(file_inode.clone());
    let inode_id = fs.fs.allocate_inode().unwrap();

    fs.save_inode(inode_id, &inode).unwrap();

    let loaded_inode = fs.load_inode(inode_id).unwrap();
    match loaded_inode {
        Inode::File(f) => {
            assert_eq!(f.size, file_inode.size);
            assert_eq!(f.mtime, file_inode.mtime);
            assert_eq!(f.ctime, file_inode.ctime);
            assert_eq!(f.mode, file_inode.mode);
            assert_eq!(f.uid, file_inode.uid);
            assert_eq!(f.gid, file_inode.gid);
        }
        _ => panic!("Expected File inode"),
    }
}

#[test]
fn test_inode_key_generation() {
    let key0 = KeyCodec::inode_key(0);
    assert_eq!(key0[0], PREFIX_INODE);
    assert_eq!(&key0[1..9], &0u64.to_be_bytes());

    let key42 = KeyCodec::inode_key(42);
    assert_eq!(key42[0], PREFIX_INODE);
    assert_eq!(&key42[1..9], &42u64.to_be_bytes());

    let key999 = KeyCodec::inode_key(999);
    assert_eq!(key999[0], PREFIX_INODE);
    assert_eq!(&key999[1..9], &999u64.to_be_bytes());
}

#[test]
fn test_chunk_key_generation() {
    let key = KeyCodec::chunk_key(1, 0);
    assert_eq!(key[0], PREFIX_CHUNK);
    assert_eq!(&key[1..9], &1u64.to_be_bytes());
    assert_eq!(&key[9..17], &0u64.to_be_bytes());

    let key = KeyCodec::chunk_key(42, 10);
    assert_eq!(key[0], PREFIX_CHUNK);
    assert_eq!(&key[1..9], &42u64.to_be_bytes());
    assert_eq!(&key[9..17], &10u64.to_be_bytes());

    let key = KeyCodec::chunk_key(999, 999);
    assert_eq!(key[0], PREFIX_CHUNK);
    assert_eq!(&key[1..9], &999u64.to_be_bytes());
    assert_eq!(&key[9..17], &999u64.to_be_bytes());
}

#[test]
fn test_load_nonexistent_inode() {
    let mut fs = World::new_in_memory();

    let result = fs.load_inode(999);
    match result {
        Err(FsError::NotFound) => {}
        other => panic!("Expected NFS3ERR_NOENT, got {other:?}"),
    }
}

#[test]
fn test_max_inode_id_limit() {
    let mut fs = World::new_in_memory().fs;

    fs.next_inode_id = MAX_INODE_ID;

    let id = fs.allocate_inode().unwrap();
    assert_eq!(id, MAX_INODE_ID);

    let result = fs.allocate_inode();
    assert!(matches!(result, Err(FsError::NoSpace)));

    assert!(fs.next_inode_id > MAX_INODE_ID);
}

#[test]
fn test_dir_entry_encoding() {
    // Root directory (0)
    let encoded = EncodedFileId::from(0u64);
    let (inode, pos) = encoded.decode();
    assert_eq!(inode, 0);
    assert_eq!(pos, 0);

    // Regular inode with position 0
    let encoded = EncodedFileId::new(42, 0);
    assert_eq!(encoded.inode_id(), 42);
    assert_eq!(encoded.position(), 0);
    let (inode, pos) = encoded.decode();
    assert_eq!(inode, 42);
    assert_eq!(pos, 0);

    // Hardlink with position
    let encoded = EncodedFileId::new(100, 5);
    assert_eq!(encoded.inode_id(), 100);
    assert_eq!(encoded.position(), 5);
    let (inode, pos) = encoded.decode();
    assert_eq!(inode, 100);
    assert_eq!(pos, 5);

    // Maximum position
    let encoded = EncodedFileId::new(1000, 65535);
    let (inode, pos) = encoded.decode();
    assert_eq!(inode, 1000);
    assert_eq!(pos, 65535);

    // Large inode ID (near max)
    let large_id = MAX_INODE_ID;
    let encoded = EncodedFileId::new(large_id, 0);
    let (inode, pos) = encoded.decode();
    assert_eq!(inode, large_id);
    assert_eq!(pos, 0);

    // Converting from raw u64
    let raw_value = (42u64 << 16) | 5; // Should be 2752517
    let from_raw = EncodedFileId::from(raw_value);
    assert_eq!(from_raw.inode_id(), 42);
    assert_eq!(from_raw.position(), 5);
    assert_eq!(from_raw.as_raw(), raw_value);
}

#[test]
fn file_ids_convert_both_ways() {
    let id = EncodedFileId::new(42, 5);
    assert_eq!(id.as_raw(), 2752517);
    let raw: u64 = id.into();
    assert_eq!(raw, 2752517);
    assert_eq!(EncodedFileId::from(raw), id);
    assert_eq!(EncodedFileId::from_inode(42).as_raw(), 42 * 65536);
    let (inode, pos) = EncodedFileId::from(u64::MAX).decode();
    assert_eq!((inode, pos), (MAX_INODE_ID, 65535));
    assert_eq!(EncodedFileId::new(inode, pos).as_raw(), u64::MAX);
}

#[test]
fn ids_are_equal_exactly_for_the_same_link() {
    assert_eq!(EncodedFileId::from_inode(42), EncodedFileId::new(42, 0));
    assert_eq!(EncodedFileId::new(42, 5), EncodedFileId::new(42, 5));
    assert_ne!(EncodedFileId::new(42, 5), EncodedFileId::new(42, 6));
    assert_ne!(EncodedFileId::new(42, 5), EncodedFileId::new(43, 5));
    assert_ne!(EncodedFileId::from_inode(42), EncodedFileId::from_inode(43));
}

#[test]
fn every_number_is_the_id_it_decodes_to() {
    for raw in [0u64, 1, 65535, 65536, 0x1234_5678_9ABC_DEF0, u64::MAX] {
        let id = EncodedFileId::from(raw);
        let (inode_id, position) = id.decode();
        assert!(inode_id <= MAX_INODE_ID);
        assert_eq!(EncodedFileId::new(inode_id, position), id);
        assert_eq!((id.inode_id(), id.position()), (inode_id, position));
        assert_eq!(u64::from(id), raw);
        assert_eq!(u64::from(id), id.as_raw());
        assert_eq!(EncodedFileId::from(u64::from(id)), id);
    }
}

#[test]
fn oversized_inode_id_is_cut_to_48_bits() {
    assert_eq!(EncodedFileId::new(MAX_INODE_ID + 1, 7).decode(), (0, 7));
    assert_eq!(EncodedFileId::new(u64::MAX, 1).decode(), (MAX_INODE_ID, 1));
}

#[test]
fn constants() {
    assert_eq!(CHUNK_SIZE, 262144);
    assert_eq!(STATS_SHARDS, 100);
    assert_eq!(MAX_HARDLINKS_PER_INODE, 65535);
    assert_eq!(MAX_INODE_ID, (1u64 << 48) - 1);
}

#[test]
fn keys_do_not_collide() {
    let key = KeyCodec::inode_key(0x0102030405060708);
    assert_eq!(key, vec![PREFIX_INODE, 1, 2, 3, 4, 5, 6, 7, 8]);
    assert_ne!(KeyCodec::inode_key(1), KeyCodec::inode_key(256));
    assert_ne!(KeyCodec::chunk_key(1, 2), KeyCodec::chunk_key(2, 1));
    assert_eq!(KeyCodec::chunk_key(1, u64::MAX).len(), 17);
    assert_ne!(PREFIX_INODE, PREFIX_CHUNK);
}

#[test]
fn exhausted_ids_stay_exhausted() {
    let mut fs = World::new_in_memory().fs;
    for counter in [MAX_INODE_ID + 1, MAX_INODE_ID + 2, u64::MAX] {
        fs.next_inode_id = counter;
        assert_eq!(fs.allocate_inode(), Err(FsError::NoSpace));
        assert_eq!(fs.next_inode_id, MAX_INODE_ID + 2);
        assert_eq!(fs.allocate_inode(), Err(FsError::NoSpace));
        assert_eq!(fs.next_inode_id, MAX_INODE_ID + 2);
    }
}

#[test]
fn ids_of_a_fresh_file_system_are_consecutive() {
    let mut fs = World::new_in_memory().fs;
    let ids: Vec<u64> = (0..5).map(|_| fs.allocate_inode().unwrap()).collect();
    assert_eq!(ids, vec![1, 2, 3, 4, 5]);
    assert_eq!(fs.next_inode_id, 6);
}

#[test]
fn mount_resumes_a_stored_counter() {
    let mut fs = World::mount(HashMap::new(), Some(77)).fs;
    assert_eq!(fs.next_inode_id, 77);
    assert_eq!(fs.allocate_inode(), Ok(77));
}

#[test]
fn new_root_has_the_mount_time() {
    let mut mount = Mount::new();
    mount.counter_read(Ok::<_, ()>(None)).unwrap();
    mount.root_read(Ok::<_, ()>(false), (11, 22)).unwrap();
    match mount.step {
        MountStep::WriteRoot(Inode::Directory(root)) => {
            assert_eq!((root.mtime, root.mtime_nsec), (11, 22));
            assert_eq!((root.ctime, root.ctime_nsec), (11, 22));
            assert_eq!((root.atime, root.atime_nsec), (11, 22));
            assert_eq!(root.parent, 0);
            assert_eq!(root.nlink, 2);
        }
        _ => panic!("a root should be written"),
    }
}

#[test]
fn remount_keeps_the_root() {
    let mut first = World::new_in_memory();
    let root = first.load_inode(ROOT_INODE).unwrap();
    let records = first.records.clone();
    let mut second = World::mount(records.clone(), Some(1));
    assert_eq!(second.records, records);
    assert_eq!(second.load_inode(ROOT_INODE), Ok(root));
}

#[test]
fn decoded_shards_are_loaded() {
    let mut mount = Mount::new();
    mount.counter_read(Ok::<_, ()>(Some(Ok(5)))).unwrap();
    mount.root_read(Ok::<_, ()>(true), (0, 0)).unwrap();
    assert_eq!(mount.shard_read(Ok::<Option<Result<&str, ()>>, ()>(None)), Ok(None));
    let decoded: Result<&str, ()> = Ok("stats");
    assert_eq!(mount.shard_read(Ok::<_, ()>(Some(decoded))), Ok(Some((1, "stats"))));
    assert!(matches!(mount.step, MountStep::ReadShard(2)));
}

#[test]
fn shard_that_cannot_be_decoded_is_passed_over() {
    let mut mount = Mount::new();
    mount.counter_read(Ok::<_, ()>(Some(Ok(5)))).unwrap();
    mount.root_read(Ok::<_, ()>(true), (0, 0)).unwrap();
    let garbled: Result<u64, &str> = Err("garbled");
    assert_eq!(mount.shard_read(Ok::<_, ()>(Some(garbled))), Ok(None));
    assert!(matches!(mount.step, MountStep::ReadShard(1)));
}

#[test]
fn save_replaces_what_the_cache_held() {
    let mut fs = World::new_in_memory();
    let old_inode = Inode::File(file_of_size(1));
    let new_inode = Inode::File(file_of_size(2));
    let other = Inode::File(file_of_size(3));
    fs.save_inode(8, &other).unwrap();
    fs.save_inode(7, &old_inode).unwrap();
    assert_eq!(fs.load_inode(7), Ok(old_inode));
    assert!(fs.cache.contains_key(&7));
    fs.save_inode(7, &new_inode).unwrap();
    assert!(!fs.cache.contains_key(&7));
    assert_eq!(fs.load_inode(7), Ok(new_inode));
    assert_eq!(fs.load_inode(7), Ok(new_inode));
    assert_eq!(fs.load_inode(8), Ok(other));
    assert_eq!(fs.fs.stats.cache_hits, 1);
    assert_eq!(fs.fs.stats.cache_misses, 3);
}

#[test]
fn failures_of_load_and_save() {
    assert_eq!(stored_record(Err::<Option<u8>, &str>("down")), Err(FsError::IoError));
    assert_eq!(stored_record(Ok::<Option<u8>, &str>(None)), Err(FsError::NotFound));
    assert_eq!(stored_record(Ok::<Option<u8>, &str>(Some(3))), Ok(3));
    assert!(matches!(decoded_inode(7, Err("torn")), Err(FsError::InvalidData)));
    assert!(matches!(ZeroFS::save_inode(7, Err("odd")), Err(FsError::InvalidData)));
    assert_eq!(ZeroFS::saved_inode(7, Err("down")), Err(FsError::IoError));
    assert_eq!(ZeroFS::saved_inode(7, Ok::<(), &str>(())), Ok(7));
    let mut fs = World::new_in_memory();
    fs.records.insert(KeyCodec::inode_key(7), vec![1, 2, 3]);
    assert_eq!(fs.load_inode(7), Err(FsError::InvalidData));
}

#[test]
fn lookup_outcomes() {
    assert_eq!(ZeroFS::lookup_by_name(Ok::<_, ()>(Some(Ok(9)))), Ok(9));
    assert_eq!(
        ZeroFS::lookup_by_name(Ok::<_, ()>(Some(Err(FsError::InvalidData)))),
        Err(FsError::InvalidData)
    );
    assert_eq!(ZeroFS::lookup_by_name(Ok::<_, ()>(None)), Err(FsError::NotFound));
    assert_eq!(ZeroFS::lookup_by_name(Err("down")), Err(FsError::IoError));
}

#[test]
fn counters_wrap() {
    let mut fs = World::new_in_memory().fs;
    fs.stats.cache_misses = u64::MAX;
    fs.load_inode(3, None);
    assert_eq!(fs.stats.cache_misses, 0);
    fs.stats.gc_runs = u64::MAX;
    fs.run_garbage_collection();
    assert_eq!(fs.stats.gc_runs, 0);
}

#[test]
fn time_is_plausible() {
    let (secs, nanos) = get_current_time();
    assert!(secs > 1_600_000_000);
    assert!(nanos < 1_000_000_000);
    assert_eq!(timestamp(Some((5, 6))), (5, 6));
    assert_eq!(timestamp(None), (0, 0));
}

#[test]
fn mount_ends_with_the_first_error() {
    let mut mount = Mount::new();
    assert_eq!(mount.counter_read(Err("counter")), Err("counter"));
    assert!(matches!(mount.step, MountStep::ReadCounter));
    assert_eq!(mount.counter_read(Ok(Some(Err("garbled")))), Err("garbled"));
    assert!(matches!(mount.step, MountStep::ReadCounter));
    mount.counter_read(Ok::<_, &str>(Some(Ok(5)))).unwrap();
    assert_eq!(mount.root_read(Err("root"), (1, 2)), Err("root"));
    assert!(matches!(mount.step, MountStep::ReadRoot));
    mount.root_read(Ok::<_, &str>(false), (1, 2)).unwrap();
    assert_eq!(mount.root_written(Err("write")), Err("write"));
    assert!(matches!(mount.step, MountStep::WriteRoot(_)));
    mount.root_written(Ok::<(), &str>(())).unwrap();
    assert_eq!(mount.shard_read(Err::<Option<Result<u8, ()>>, &str>("shard")), Err("shard"));
    assert!(matches!(mount.step, MountStep::ReadShard(0)));
    assert_eq!(mount.next_inode_id, 5);
}
