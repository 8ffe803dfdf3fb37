use std::collections::{BTreeMap, BTreeSet};

use zerofs::fs::collect::{collect, collect_round, Request, RoundReplies};
use zerofs::fs::errors::FsError;
use zerofs::fs::gc::{GcRound, ScannedEntry, TombstoneWrite, MAX_CHUNKS_PER_ROUND};
use zerofs::fs::key_codec::KeyCodec;
use zerofs::fs::metrics::FileSystemStats;
use zerofs::fs::ZeroFS;

const CHUNK: u64 = 262144;

const WRITTEN: Result<(), ()> = Ok(());

/// An item that a scan yields.
fn item<T>(value: T) -> Option<Result<T, ()>> {
    Some(Ok(value))
}

fn tombstone(inode_id: u64, size: u64) -> ScannedEntry {
    ScannedEntry::Tombstone { inode_id, size }
}

/// A store with tombstones (inode and size, by key) and chunk keys.
struct World {
    tombstones: BTreeMap<Vec<u8>, (u64, u64)>,
    chunks: BTreeSet<Vec<u8>>,
    stats: FileSystemStats,
}

impl World {
    fn new(files: &[(u64, u64)]) -> World {
        let mut tombstones = BTreeMap::new();
        let mut chunks = BTreeSet::new();
        for (i, (inode_id, size)) in files.iter().enumerate() {
            tombstones.insert(vec![i as u8], (*inode_id, *size));
            for chunk in 0..(size + CHUNK - 1) / CHUNK {
                chunks.insert(KeyCodec::chunk_key(*inode_id, chunk));
            }
        }
        World { tombstones, chunks, stats: FileSystemStats::new() }
    }

    /// Runs one round and returns whether another is due.
    fn round(&mut self) -> bool {
        let mut round = GcRound::new();
        let mut scan = self.tombstones.clone().into_iter();
        while let Some((key, (inode_id, size))) = round.next_entry(scan.next().map(Ok::<_, ()>)) {
            if let Some(keys) = round.visit(key, ScannedEntry::Tombstone { inode_id, size }) {
                for key in keys {
                    assert!(self.chunks.remove(&key));
                }
                round.record_deleted(WRITTEN).unwrap();
            }
        }
        if let Some(batch) = round.batch() {
            for write in batch {
                match write {
                    TombstoneWrite::Delete { key } => {
                        self.tombstones.remove(&key);
                    }
                    TombstoneWrite::Put { key, size } => {
                        if let Some(tombstone) = self.tombstones.get_mut(&key) {
                            tombstone.1 = size;
                        }
                    }
                }
            }
        }
        round.finish(WRITTEN, &mut self.stats).unwrap()
    }
}

#[test]
fn small_files_go_in_one_round() {
    let mut world = World::new(&[(1, 0), (2, 1), (3, CHUNK), (4, CHUNK + 1)]);
    assert!(!world.round());
    assert!(world.tombstones.is_empty());
    assert!(world.chunks.is_empty());
    assert_eq!(world.stats.gc_chunks_deleted, 4);
    assert_eq!(world.stats.tombstones_processed, 3);
}

#[test]
fn empty_scan_counts_nothing() {
    let mut world = World::new(&[]);
    assert!(!world.round());
    assert_eq!(world.stats, FileSystemStats::new());
    assert!(GcRound::new().batch().is_none());
}

#[test]
fn file_of_exactly_one_budget_goes_in_one_round() {
    let mut world = World::new(&[(1, MAX_CHUNKS_PER_ROUND * CHUNK)]);
    assert!(!world.round());
    assert!(world.tombstones.is_empty());
    assert_eq!(world.stats.gc_chunks_deleted, 10_000);
}

#[test]
fn large_file_is_shrunk_from_its_end() {
    let mut world = World::new(&[(1, 10_003 * CHUNK - 5), (2, 10)]);
    assert!(world.round());
    assert_eq!(world.tombstones.get(&vec![0u8]), Some(&(1, 3 * CHUNK)));
    assert_eq!(world.tombstones.get(&vec![1u8]), Some(&(2, 10)));
    assert_eq!(world.stats.gc_chunks_deleted, 10_000);
    assert_eq!(world.stats.tombstones_processed, 0);
    let left: Vec<Vec<u8>> = vec![
        KeyCodec::chunk_key(1, 0),
        KeyCodec::chunk_key(1, 1),
        KeyCodec::chunk_key(1, 2),
        KeyCodec::chunk_key(2, 0),
    ];
    assert_eq!(world.chunks.iter().cloned().collect::<Vec<Vec<u8>>>(), left);
    assert!(!world.round());
    assert!(world.tombstones.is_empty());
    assert!(world.chunks.is_empty());
    assert_eq!(world.stats.gc_chunks_deleted, 10_004);
    assert_eq!(world.stats.tombstones_processed, 2);
}

#[test]
fn spent_budget_leaves_the_rest_for_another_round() {
    let mut world = World::new(&[(1, MAX_CHUNKS_PER_ROUND * CHUNK), (2, 0)]);
    assert!(world.round());
    assert_eq!(world.tombstones.len(), 1);
    assert!(!world.round());
    assert!(world.tombstones.is_empty());
    assert_eq!(world.stats.tombstones_processed, 1);
}

#[test]
fn run_of_several_rounds_reclaims_everything() {
    let mut world = World::new(&[(1, 7_000 * CHUNK), (2, 7_000 * CHUNK), (3, 12_000 * CHUNK)]);
    let mut rounds = 1;
    while world.round() {
        rounds += 1;
    }
    assert_eq!(rounds, 3);
    assert!(world.tombstones.is_empty());
    assert!(world.chunks.is_empty());
    assert_eq!(world.stats.gc_chunks_deleted, 26_000);
    assert_eq!(world.stats.tombstones_processed, 3);
}

#[test]
fn pauses_come_at_every_thousand_chunks() {
    let mut round = GcRound::new();
    assert!(round.visit(vec![1], tombstone(1, 999 * CHUNK)).is_some());
    assert!(!round.record_deleted(WRITTEN).unwrap());
    assert!(round.visit(vec![2], tombstone(2, 1)).is_some());
    assert!(round.record_deleted(WRITTEN).unwrap());
    assert!(round.visit(vec![3], tombstone(3, 0)).is_none());
}

#[test]
fn largest_size_is_shrunk_without_overflow() {
    let mut round = GcRound::new();
    let keys = round.visit(vec![9], tombstone(5, u64::MAX)).unwrap();
    let total = 1u64 << 46;
    assert_eq!(keys.len(), 10_000);
    assert_eq!(keys[0], KeyCodec::chunk_key(5, total - 10_000));
    assert_eq!(keys[9_999], KeyCodec::chunk_key(5, total - 1));
    round.record_deleted(WRITTEN).unwrap();
    let batch = round.batch().unwrap();
    assert_eq!(batch.len(), 1);
    match &batch[0] {
        TombstoneWrite::Put { key, size } => {
            assert_eq!(key, &vec![9u8]);
            assert_eq!(*size, (total - 10_000) * CHUNK);
        }
        _ => panic!("the tombstone should be kept"),
    }
    assert_eq!(round.next_entry(item(1)), None);
}

#[test]
fn broken_off_round_keeps_the_tombstones() {
    let mut world = World::new(&[(1, 3 * CHUNK)]);
    let mut round = GcRound::new();
    let keys = round.visit(vec![0], tombstone(1, 3 * CHUNK)).unwrap();
    for key in keys {
        world.chunks.remove(&key);
    }
    assert_eq!(round.record_deleted(Err("down")), Err(FsError::IoError));
    assert_eq!(world.tombstones.get(&vec![0u8]), Some(&(1, 3 * CHUNK)));
}

#[test]
fn failed_batch_counts_nothing() {
    let mut stats = FileSystemStats::new();
    let mut round = GcRound::new();
    assert_eq!(round.visit(vec![0], tombstone(1, 1)).unwrap(), vec![KeyCodec::chunk_key(1, 0)]);
    assert_eq!(round.record_deleted(WRITTEN), Ok(false));
    assert_eq!(round.finish(Err("down"), &mut stats), Err(FsError::IoError));
    assert_eq!(stats, FileSystemStats::new());
}

#[test]
fn other_entries_are_passed_over() {
    let mut round = GcRound::new();
    assert_eq!(round.next_entry(item(1)), Some(1));
    assert!(round.visit(vec![7], ScannedEntry::Other).is_none());
    assert!(round.batch().is_none());
    let mut stats = FileSystemStats::new();
    assert_eq!(round.finish(WRITTEN, &mut stats), Ok(false));
    assert_eq!(stats, FileSystemStats::new());
}

#[test]
fn scan_that_cannot_be_opened_ends_the_run() {
    assert_eq!(GcRound::scan_opened::<u8, &str>(Err("down")), Err(FsError::IoError));
    assert_eq!(GcRound::scan_opened::<u8, &str>(Ok(3)), Ok(3));
}

#[test]
fn error_inside_a_scan_ends_it_like_its_end() {
    let end: Option<Result<u8, &str>> = None;
    for last in [Some(Err("down")), end] {
        let mut stats = FileSystemStats::new();
        let mut round = GcRound::new();
        assert_eq!(round.next_entry(item(1)), Some(1));
        assert!(round.visit(vec![0], tombstone(1, 2 * CHUNK)).is_some());
        assert_eq!(round.record_deleted(WRITTEN), Ok(false));
        assert_eq!(round.next_entry(last), None);
        assert_eq!(round.batch().unwrap().len(), 1);
        assert_eq!(round.finish(WRITTEN, &mut stats), Ok(false));
        assert_eq!(stats.gc_chunks_deleted, 2);
        assert_eq!(stats.tombstones_processed, 1);
    }
}

#[test]
fn error_after_the_budget_is_spent_calls_for_no_other_round() {
    let mut stats = FileSystemStats::new();
    let mut round = GcRound::new();
    assert!(round.visit(vec![0], tombstone(1, MAX_CHUNKS_PER_ROUND * CHUNK)).is_some());
    round.record_deleted(WRITTEN).unwrap();
    assert_eq!(round.next_entry::<u8, &str>(Some(Err("down"))), None);
    assert_eq!(round.finish(WRITTEN, &mut stats), Ok(false));
}

#[test]
fn failed_run_is_counted_as_a_run() {
    let mut fs = ZeroFS { next_inode_id: 1, stats: FileSystemStats::new() };
    let mut round = fs.run_garbage_collection();
    assert!(round.visit(vec![0], tombstone(1, CHUNK)).is_some());
    assert_eq!(round.record_deleted(Err("down")), Err(FsError::IoError));
    assert_eq!(fs.stats, FileSystemStats { gc_runs: 1, ..FileSystemStats::new() });
}

#[test]
fn run_that_breaks_off_in_a_later_round_can_start_over() {
    let mut world = World::new(&[(1, 10_003 * CHUNK), (2, 2 * CHUNK)]);
    assert!(world.round());
    let mut broken_off = GcRound::new();
    for key in broken_off.visit(vec![0], tombstone(1, 3 * CHUNK)).unwrap() {
        world.chunks.remove(&key);
    }
    broken_off.record_deleted(WRITTEN).unwrap();
    assert!(broken_off.visit(vec![1], tombstone(2, 2 * CHUNK)).is_some());
    assert_eq!(broken_off.record_deleted(Err("down")), Err(FsError::IoError));
    assert_eq!(world.tombstones.get(&vec![0u8]), Some(&(1, 3 * CHUNK)));
    assert_eq!(world.tombstones.get(&vec![1u8]), Some(&(2, 2 * CHUNK)));
    assert_eq!(world.chunks.len(), 2);
    let mut again = GcRound::new();
    let mut scan = world.tombstones.clone().into_iter();
    while let Some((key, (inode_id, size))) = again.next_entry(scan.next().map(Ok::<_, ()>)) {
        for key in again.visit(key, tombstone(inode_id, size)).unwrap() {
            world.chunks.remove(&key);
        }
        again.record_deleted(WRITTEN).unwrap();
    }
    assert!(world.chunks.is_empty());
    assert_eq!(again.finish(WRITTEN, &mut world.stats), Ok(false));
}

fn replies(items: Vec<Result<(Vec<u8>, ScannedEntry), ()>>) -> RoundReplies {
    RoundReplies { scan: Ok(()), items, deletions: vec![], batch: Ok(()) }
}

fn file_system() -> ZeroFS {
    ZeroFS { next_inode_id: 7, stats: FileSystemStats::new() }
}

#[test]
fn whole_round_makes_its_requests_in_order() {
    let round = replies(vec![
        Ok((vec![1], tombstone(1, CHUNK + 1))),
        Ok((vec![2], ScannedEntry::Other)),
        Ok((vec![3], tombstone(3, 0))),
        Ok((vec![4], tombstone(4, 10_003 * CHUNK))),
        Ok((vec![5], tombstone(5, 1))),
    ]);
    let mut stats = FileSystemStats::new();
    let mut requests = vec![];
    assert_eq!(collect_round(&round, GcRound::new(), &mut requests, &mut stats), Ok(true));
    assert_eq!(stats.gc_chunks_deleted, 10_000);
    assert_eq!(stats.tombstones_processed, 1);
    assert_eq!(requests.len(), 4);
    assert!(matches!(requests[0], Request::OpenScan));
    match (&requests[1], &requests[2]) {
        (Request::DeleteChunks { keys: first }, Request::DeleteChunks { keys: second }) => {
            assert_eq!(first, &vec![KeyCodec::chunk_key(1, 0), KeyCodec::chunk_key(1, 1)]);
            assert_eq!(second.len(), 9_998);
            assert_eq!(second[0], KeyCodec::chunk_key(4, 5));
            assert_eq!(second[9_997], KeyCodec::chunk_key(4, 10_002));
        }
        _ => panic!("the chunks should be deleted first"),
    }
    match &requests[3] {
        Request::RewriteTombstones { writes } => {
            assert_eq!(writes.len(), 3);
            assert!(matches!(&writes[0], TombstoneWrite::Delete { key } if key == &vec![1u8]));
            assert!(matches!(&writes[1], TombstoneWrite::Delete { key } if key == &vec![3u8]));
            assert!(matches!(
                &writes[2],
                TombstoneWrite::Put { key, size } if key == &vec![4u8] && *size == 5 * CHUNK
            ));
        }
        _ => panic!("the tombstones should be rewritten last"),
    }
}

#[test]
fn whole_run_goes_on_until_a_round_is_complete() {
    let mut fs = file_system();
    let rounds = vec![
        replies(vec![Ok((vec![1], tombstone(1, 10_001 * CHUNK)))]),
        replies(vec![Ok((vec![1], tombstone(1, CHUNK)))]),
        replies(vec![]),
    ];
    let (result, requests) = collect(&mut fs, &rounds);
    assert_eq!(result, Some(Ok(())));
    assert_eq!(requests.len(), 6);
    assert!(matches!(requests[3], Request::OpenScan));
    assert_eq!(fs.next_inode_id, 7);
    assert_eq!(
        fs.stats,
        FileSystemStats {
            gc_runs: 1,
            tombstones_processed: 1,
            gc_chunks_deleted: 10_001,
            ..FileSystemStats::new()
        }
    );
}

#[test]
fn run_is_not_over_while_a_round_is_due() {
    let mut fs = file_system();
    let rounds = vec![replies(vec![Ok((vec![1], tombstone(1, 10_001 * CHUNK)))])];
    assert_eq!(collect(&mut fs, &rounds).0, None);
}

#[test]
fn failed_request_is_the_last_of_a_run() {
    let items = || vec![Ok((vec![1], tombstone(1, CHUNK))), Ok((vec![2], tombstone(2, CHUNK)))];
    let failures = [
        (RoundReplies { scan: Err(()), ..replies(items()) }, 1),
        (RoundReplies { deletions: vec![Err(())], ..replies(items()) }, 2),
        (RoundReplies { deletions: vec![Ok(()), Err(())], ..replies(items()) }, 3),
        (RoundReplies { batch: Err(()), ..replies(items()) }, 4),
    ];
    for (round, made) in failures {
        let mut fs = file_system();
        let (result, requests) = collect(&mut fs, &vec![round]);
        assert_eq!(result, Some(Err(FsError::IoError)));
        assert_eq!(requests.len(), made);
        assert_eq!(fs.stats, FileSystemStats { gc_runs: 1, ..FileSystemStats::new() });
    }
}

#[test]
fn broken_scan_still_rewrites_what_it_met() {
    let mut fs = file_system();
    let round = replies(vec![
        Ok((vec![1], tombstone(1, CHUNK))),
        Err(()),
        Ok((vec![2], tombstone(2, CHUNK))),
    ]);
    let (result, requests) = collect(&mut fs, &vec![round]);
    assert_eq!(result, Some(Ok(())));
    assert_eq!(requests.len(), 3);
    assert_eq!(fs.stats.gc_chunks_deleted, 1);
}

#[test]
fn run_without_tombstones_makes_no_write() {
    let mut fs = file_system();
    let round = replies(vec![Ok((vec![1], ScannedEntry::Other)), Ok((vec![2], ScannedEntry::Other))]);
    let (result, requests) = collect(&mut fs, &vec![round]);
    assert_eq!(result, Some(Ok(())));
    assert_eq!(requests.len(), 1);
    assert!(matches!(requests[0], Request::OpenScan));
    assert_eq!(fs.stats, FileSystemStats { gc_runs: 1, ..FileSystemStats::new() });
}
