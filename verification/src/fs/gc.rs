//! Garbage collection of deleted files.
//!
//! Deleting a file leaves a tombstone that records the inode and the size the file had. A
//! collection run scans the tombstones in rounds. Each round deletes at most
//! `MAX_CHUNKS_PER_ROUND` chunks, taking the chunks of a tombstone from the end of the file, and
//! then rewrites in one batch the tombstones it touched: one whose chunks are all gone is
//! deleted, the one at which the budget ran out is shrunk to the size that is left. Rounds
//! follow each other until one of them gets through its whole scan.

use vstd::prelude::*;

use super::errors::FsError;
use super::inode::InodeId;
use super::key_codec::{chunk_key_bytes, chunk_key_layout, number_at, KeyCodec, PREFIX_CHUNK};
use super::metrics::{count, counted, counters_count_every_event, FileSystemStats};
use super::CHUNK_SIZE;

verus! {

/// Chunks that one round may delete.
pub const MAX_CHUNKS_PER_ROUND: u64 = 10_000;

/// A round lets other tasks run whenever the chunks it has deleted are a multiple of this.
pub const YIELD_INTERVAL: u64 = 1000;

/// Chunks that `size` bytes of file data occupy.
pub open spec fn chunk_count(size: int) -> int {
    (size + CHUNK_SIZE - 1) / (CHUNK_SIZE as int)
}

/// The smaller of two numbers.
pub open spec fn smaller(a: int, b: int) -> int {
    if a <= b {
        a
    } else {
        b
    }
}

/// What a scan finds under a key.
#[derive(Clone, Copy)]
pub enum ScannedEntry {
    /// Something whose key is not that of a tombstone.
    Other,
    /// The tombstone of a deleted file: its inode, and the size that is left of it.
    Tombstone { inode_id: InodeId, size: u64 },
}

/// What a round has decided about one tombstone.
pub struct TombstoneUpdate {
    pub key: Vec<u8>,
    pub inode_id: InodeId,
    /// Size that the tombstone recorded.
    pub old_size: u64,
    /// First chunk deleted; the chunks before it are left.
    pub start_chunk: u64,
    /// Whether no chunk is left, so that the tombstone itself goes.
    pub delete_tombstone: bool,
}

/// Model of a `TombstoneUpdate`.
pub struct UpdateModel {
    pub key: Seq<u8>,
    pub inode_id: InodeId,
    pub old_size: int,
    pub start_chunk: int,
    pub delete_tombstone: bool,
}

impl View for TombstoneUpdate {
    type V = UpdateModel;

    open spec fn view(&self) -> UpdateModel {
        UpdateModel {
            key: self.key@,
            inode_id: self.inode_id,
            old_size: self.old_size as int,
            start_chunk: self.start_chunk as int,
            delete_tombstone: self.delete_tombstone,
        }
    }
}

/// One write of the batch that ends a round.
pub enum TombstoneWrite {
    /// Delete the tombstone.
    Delete { key: Vec<u8> },
    /// Record that `size` bytes of the file are left.
    Put { key: Vec<u8>, size: u64 },
}

/// Model of a `TombstoneWrite`.
pub enum WriteModel {
    Delete { key: Seq<u8> },
    Put { key: Seq<u8>, size: int },
}

impl View for TombstoneWrite {
    type V = WriteModel;

    open spec fn view(&self) -> WriteModel {
        match self {
            TombstoneWrite::Delete { key } => WriteModel::Delete { key: key@ },
            TombstoneWrite::Put { key, size } => WriteModel::Put { key: key@, size: *size as int },
        }
    }
}

impl UpdateModel {
    /// The write that carries the update out.
    pub open spec fn write(self) -> WriteModel {
        if self.delete_tombstone {
            WriteModel::Delete { key: self.key }
        } else {
            WriteModel::Put {
                key: self.key,
                size: smaller(self.start_chunk * CHUNK_SIZE, self.old_size),
            }
        }
    }

    /// Whether a tombstone that stays has lost chunks.
    pub open spec fn shrinks(self) -> bool {
        !self.delete_tombstone ==> 0 <= self.start_chunk < chunk_count(self.old_size)
    }
}

/// The keys of chunks `start..end` of an inode, in order.
pub open spec fn chunk_keys(inode_id: InodeId, start: int, end: int) -> Seq<Seq<u8>> {
    Seq::new((end - start) as nat, |i: int| chunk_key_bytes(inode_id, (start + i) as u64))
}

/// Model of a `GcRound`.
#[verifier::ext_equal]
pub struct RoundModel {
    /// Decisions so far, in scan order.
    pub updates: Seq<UpdateModel>,
    /// Chunks deleted so far.
    pub deleted: int,
    /// Tombstones that lost their last chunks.
    pub completed: int,
    /// Whether something was left for another round.
    pub incomplete: bool,
    /// Chunks that may still be deleted.
    pub remaining: int,
    /// Deletion under way: how many chunks, and whether they are the last of the file.
    pub pending: Option<(int, bool)>,
}

impl RoundModel {
    /// A round that has seen nothing.
    pub open spec fn empty() -> Self {
        RoundModel {
            updates: Seq::empty(),
            deleted: 0,
            completed: 0,
            incomplete: false,
            remaining: MAX_CHUNKS_PER_ROUND as int,
            pending: None,
        }
    }

    /// The round once it has met an entry it has no budget for.
    pub open spec fn cut_short(self) -> Self {
        RoundModel { incomplete: true, ..self }
    }

    /// Chunks that the round deletes of a file of `size` bytes.
    pub open spec fn quota(self, size: int) -> int {
        smaller(chunk_count(size), self.remaining)
    }

    /// The round once it has decided what to do about a tombstone. A tombstone of size 0 has no
    /// chunks left and is just deleted. For any other the deletion of its last chunks is under
    /// way.
    pub open spec fn planned(self, key: Seq<u8>, inode_id: InodeId, size: int) -> Self {
        if size == 0 {
            RoundModel {
                updates: self.updates.push(
                    UpdateModel { key, inode_id, old_size: 0, start_chunk: 0, delete_tombstone: true },
                ),
                ..self
            }
        } else {
            let total = chunk_count(size);
            let quota = self.quota(size);
            RoundModel {
                updates: self.updates.push(
                    UpdateModel {
                        key,
                        inode_id,
                        old_size: size,
                        start_chunk: total - quota,
                        delete_tombstone: quota == total,
                    },
                ),
                incomplete: self.incomplete || quota != total,
                pending: Some((quota, quota == total)),
                ..self
            }
        }
    }

    /// The round once the deletion under way has been written.
    pub open spec fn recorded(self) -> Self {
        match self.pending {
            Some((chunks, last)) => RoundModel {
                deleted: self.deleted + chunks,
                remaining: self.remaining - chunks,
                completed: if last {
                    self.completed + 1
                } else {
                    self.completed
                },
                pending: None,
                ..self
            },
            None => self,
        }
    }

    /// The batch that ends the round.
    pub open spec fn writes(self) -> Seq<WriteModel> {
        self.updates.map_values(|u: UpdateModel| u.write())
    }

    /// The counters once the round is over.
    pub open spec fn counted_in(self, stats: FileSystemStats) -> FileSystemStats {
        FileSystemStats {
            tombstones_processed: counted(stats.tombstones_processed, self.completed as u64),
            gc_chunks_deleted: counted(stats.gc_chunks_deleted, self.deleted as u64),
            ..stats
        }
    }
}

/// One round of a collection run, while it goes through its scan.
pub struct GcRound {
    updates: Vec<TombstoneUpdate>,
    chunks_deleted: u64,
    tombstones_completed: u64,
    found_incomplete: bool,
    chunks_remaining: u64,
    pending: Option<(u64, bool)>,
}

impl View for GcRound {
    type V = RoundModel;

    closed spec fn view(&self) -> RoundModel {
        RoundModel {
            updates: self.updates@.map_values(|u: TombstoneUpdate| u@),
            deleted: self.chunks_deleted as int,
            completed: self.tombstones_completed as int,
            incomplete: self.found_incomplete,
            remaining: self.chunks_remaining as int,
            pending: match self.pending {
                Some((chunks, last)) => Some((chunks as int, last)),
                None => None,
            },
        }
    }
}

impl GcRound {
    /// What holds of a round at every point of its scan.
    pub open spec fn wf(&self) -> bool {
        &&& self@.deleted + self@.remaining == MAX_CHUNKS_PER_ROUND
        &&& 0 <= self@.completed <= self@.deleted
        &&& self@.completed + (if self@.pending is Some { 1int } else { 0 }) <= self@.updates.len()
        &&& 0 <= self@.remaining
        &&& self@.pending matches Some((chunks, last)) ==> 0 < chunks <= self@.remaining
        &&& forall|i: int| 0 <= i < self@.updates.len() ==> #[trigger] self@.updates[i].shrinks()
    }

    /// A round that has seen nothing yet.
    pub fn new() -> (round: Self)
        ensures
            round.wf(),
            round@ == RoundModel::empty(),
    {
        let round = GcRound {
            updates: Vec::new(),
            chunks_deleted: 0,
            tombstones_completed: 0,
            found_incomplete: false,
            chunks_remaining: MAX_CHUNKS_PER_ROUND,
            pending: None,
        };
        assert(round@ =~= RoundModel::empty());
        round
    }

    /// Takes whether the scan of a round could be opened. A failure ends the run.
    pub fn scan_opened<T, E>(scan: Result<T, E>) -> (opened: Result<T, FsError>)
        ensures
            opened == match scan {
                Ok(items) => Ok::<T, FsError>(items),
                Err(_) => Err::<T, FsError>(FsError::IoError),
            },
    {
        match scan {
            Ok(items) => Ok(items),
            Err(_) => Err(FsError::IoError),
        }
    }

    /// Takes what the scan yields next, and returns the entry to visit. There is none if the
    /// scan has ended; an error that the scan yields ends it likewise, and is not a failure of
    /// the round. If the budget is spent the entry is not visited: the scan stops there and
    /// another round is due.
    pub fn next_entry<T, E>(&mut self, item: Option<Result<T, E>>) -> (entry: Option<T>)
        requires
            old(self).wf(),
        ensures
            final(self).wf(),
            match item {
                Some(Ok(value)) => if old(self)@.remaining > 0 {
                    &&& entry == Some(value)
                    &&& final(self)@ == old(self)@
                } else {
                    &&& entry is None
                    &&& final(self)@ == old(self)@.cut_short()
                },
                _ => {
                    &&& entry is None
                    &&& final(self)@ == old(self)@
                },
            },
    {
        match item {
            Some(Ok(value)) => {
                if self.chunks_remaining == 0 {
                    self.found_incomplete = true;
                    assert(self@ =~= old(self)@.cut_short());
                    None
                } else {
                    Some(value)
                }
            },
            _ => None,
        }
    }

    /// Decides what to do about an entry of the scan. Returns the keys of the chunks to delete,
    /// or `None` if there are none. The deletion counts once `record_deleted` is told that it
    /// was written. An entry that is not a tombstone is passed over.
    pub fn visit(&mut self, key: Vec<u8>, entry: ScannedEntry) -> (deletion: Option<Vec<Vec<u8>>>)
        requires
            old(self).wf(),
            old(self)@.remaining > 0,
            old(self)@.pending is None,
        ensures
            final(self).wf(),
            match entry {
                ScannedEntry::Other => {
                    &&& deletion is None
                    &&& final(self)@ == old(self)@
                },
                ScannedEntry::Tombstone { inode_id, size } => {
                    &&& final(self)@ == old(self)@.planned(key@, inode_id, size as int)
                    &&& deletion is None <==> size == 0
                    &&& deletion matches Some(keys) ==> keys@.map_values(|k: Vec<u8>| k@)
                        == chunk_keys(
                        inode_id,
                        chunk_count(size as int) - old(self)@.quota(size as int),
                        chunk_count(size as int),
                    )
                },
            },
    {
        match entry {
            ScannedEntry::Other => None,
            ScannedEntry::Tombstone { inode_id, size } => self.plan(key, inode_id, size),
        }
    }

    /// Decides what to do about a tombstone.
    fn plan(&mut self, key: Vec<u8>, inode_id: InodeId, size: u64) -> (deletion: Option<
        Vec<Vec<u8>>,
    >)
        requires
            old(self).wf(),
            old(self)@.remaining > 0,
            old(self)@.pending is None,
        ensures
            final(self).wf(),
            final(self)@ == old(self)@.planned(key@, inode_id, size as int),
            deletion is None <==> size == 0,
            deletion matches Some(keys) ==> keys@.map_values(|k: Vec<u8>| k@) == chunk_keys(
                inode_id,
                chunk_count(size as int) - old(self)@.quota(size as int),
                chunk_count(size as int),
            ),
    {
        let ghost before = self@;
        let ghost key_bytes = key@;
        if size == 0 {
            self.updates.push(
                TombstoneUpdate {
                    key,
                    inode_id,
                    old_size: 0,
                    start_chunk: 0,
                    delete_tombstone: true,
                },
            );
            assert(self@ =~= before.planned(key_bytes, inode_id, 0));
            return None;
        }
        let total_chunks: u64 = chunks_in(size);
        let chunks_to_delete: u64 = if total_chunks <= self.chunks_remaining {
            total_chunks
        } else {
            self.chunks_remaining
        };
        let start_chunk: u64 = total_chunks - chunks_to_delete;
        let is_final_batch = chunks_to_delete == total_chunks;
        if !is_final_batch {
            self.found_incomplete = true;
        }
        self.updates.push(
            TombstoneUpdate {
                key,
                inode_id,
                old_size: size,
                start_chunk,
                delete_tombstone: is_final_batch,
            },
        );
        self.pending = Some((chunks_to_delete, is_final_batch));
        assert(self@ =~= before.planned(key_bytes, inode_id, size as int));
        Some(deletion_keys(inode_id, start_chunk, total_chunks))
    }

    /// Takes whether the deletion under way was written, and counts it if so. Returns whether
    /// other tasks should get to run before the scan goes on. A failure ends the run.
    pub fn record_deleted<E>(&mut self, write: Result<(), E>) -> (pause: Result<bool, FsError>)
        requires
            old(self).wf(),
            old(self)@.pending is Some,
        ensures
            final(self).wf(),
            match write {
                Ok(_) => {
                    &&& final(self)@ == old(self)@.recorded()
                    &&& pause == Ok::<bool, FsError>(final(self)@.deleted % 1000 == 0)
                },
                Err(_) => {
                    &&& final(self)@ == old(self)@
                    &&& pause == Err::<bool, FsError>(FsError::IoError)
                },
            },
    {
        if write.is_err() {
            return Err(FsError::IoError);
        }
        let ghost before = self@;
        if let Some((chunks, last)) = self.pending {
            self.chunks_deleted = self.chunks_deleted + chunks;
            self.chunks_remaining = self.chunks_remaining - chunks;
            if last {
                self.tombstones_completed = self.tombstones_completed + 1;
            }
        }
        self.pending = None;
        assert(self@ =~= before.recorded());
        Ok(self.chunks_deleted % YIELD_INTERVAL == 0)
    }

    /// The batch of writes that ends the round, or `None` if it decided nothing.
    pub fn batch(&self) -> (batch: Option<Vec<TombstoneWrite>>)
        requires
            self.wf(),
            self@.pending is None,
        ensures
            batch is None <==> self@.updates.len() == 0,
            batch matches Some(writes) ==> writes@.map_values(|w: TombstoneWrite| w@)
                == self@.writes(),
    {
        if self.updates.len() == 0 {
            return None;
        }
        let mut writes: Vec<TombstoneWrite> = Vec::new();
        let mut i: usize = 0;
        while i < self.updates.len()
            invariant
                self.wf(),
                i <= self.updates.len(),
                writes@.len() == i,
                forall|j: int| 0 <= j < i ==> (#[trigger] writes@[j])@ == self@.updates[j].write(),
            decreases self.updates.len() - i,
        {
            let update = &self.updates[i];
            let ghost model = self@.updates[i as int];
            assert(model == update@);
            assert(model.shrinks());
            let key = copy_bytes(&update.key);
            let write = if update.delete_tombstone {
                TombstoneWrite::Delete { key }
            } else {
                proof {
                    lemma_shrunk_size(model.old_size, model.start_chunk);
                }
                let left: u64 = update.start_chunk * (CHUNK_SIZE as u64);
                let size: u64 = if left <= update.old_size {
                    left
                } else {
                    update.old_size
                };
                TombstoneWrite::Put { key, size }
            };
            assert(write@ == model.write());
            writes.push(write);
            i = i + 1;
        }
        assert(writes@.map_values(|w: TombstoneWrite| w@) =~= self@.writes());
        Some(writes)
    }

    /// Ends the round, given whether its batch was written. Counts what the round did, and
    /// returns whether another round is due. A failure ends the run, with nothing counted.
    pub fn finish<E>(self, write: Result<(), E>, stats: &mut FileSystemStats) -> (again: Result<
        bool,
        FsError,
    >)
        requires
            self.wf(),
            self@.pending is None,
        ensures
            match write {
                Ok(_) => {
                    &&& again == Ok::<bool, FsError>(self@.incomplete)
                    &&& *final(stats) == self@.counted_in(*old(stats))
                },
                Err(_) => {
                    &&& again == Err::<bool, FsError>(FsError::IoError)
                    &&& *final(stats) == *old(stats)
                },
            },
    {
        if write.is_err() {
            return Err(FsError::IoError);
        }
        if self.updates.len() > 0 {
            stats.tombstones_processed = count(
                stats.tombstones_processed,
                self.tombstones_completed,
            );
        }
        if self.chunks_deleted > 0 || self.tombstones_completed > 0 {
            stats.gc_chunks_deleted = count(stats.gc_chunks_deleted, self.chunks_deleted);
        }
        Ok(self.found_incomplete)
    }
}

/// Chunks that `size` bytes of file data occupy.
fn chunks_in(size: u64) -> (n: u64)
    ensures
        n == chunk_count(size as int),
{
    let chunk: u64 = CHUNK_SIZE as u64;
    if size % chunk == 0 {
        size / chunk
    } else {
        size / chunk + 1
    }
}

/// A copy of `bytes`.
pub(crate) fn copy_bytes(bytes: &Vec<u8>) -> (copy: Vec<u8>)
    ensures
        copy@ == bytes@,
{
    let mut copy: Vec<u8> = Vec::new();
    copy.extend_from_slice(bytes.as_slice());
    assert(copy@ =~= bytes@);
    copy
}

/// The keys of chunks `start..end` of an inode, in order.
fn deletion_keys(inode_id: InodeId, start: u64, end: u64) -> (keys: Vec<Vec<u8>>)
    requires
        start <= end,
    ensures
        keys@.map_values(|k: Vec<u8>| k@) == chunk_keys(inode_id, start as int, end as int),
{
    let mut keys: Vec<Vec<u8>> = Vec::new();
    let mut chunk_idx: u64 = start;
    while chunk_idx < end
        invariant
            start <= chunk_idx <= end,
            keys@.len() == chunk_idx - start,
            forall|j: int|
                0 <= j < keys@.len() ==> (#[trigger] keys@[j])@ == chunk_key_bytes(
                    inode_id,
                    (start + j) as u64,
                ),
        decreases end - chunk_idx,
    {
        keys.push(KeyCodec::chunk_key(inode_id, chunk_idx));
        chunk_idx = chunk_idx + 1;
    }
    assert(keys@.map_values(|k: Vec<u8>| k@) =~= chunk_keys(inode_id, start as int, end as int));
    keys
}

/// The chunks before chunk `start` of a file lie wholly inside it.
proof fn lemma_shrunk_size(size: int, start: int)
    requires
        0 <= start < chunk_count(size),
    ensures
        0 <= start * CHUNK_SIZE < size,
{
    let total = chunk_count(size);
    assert(total == (size + 262143) / 262144);
    assert(262144 * total <= size + 262143);
    assert(start * CHUNK_SIZE == 262144 * start);
    assert(262144 * start + 262144 <= 262144 * total);
}

/// The chunks of a file are as many as are needed to hold it: one less would not do.
pub proof fn chunks_just_hold_the_file(size: int)
    requires
        0 <= size,
    ensures
        size <= chunk_count(size) * 262144 < size + 262144,
        chunk_count(size) == 0 <==> size == 0,
{
    let n = chunk_count(size);
    assert(n == (size + 262143) / 262144);
    assert(262144 * n <= size + 262143);
    assert(size + 262143 < 262144 * n + 262144);
}

/// A tombstone asks for the deletion of chunks of its own file and of no other: the last ones, as
/// many as the round may still delete, each once and in order. One without chunks asks for none.
pub proof fn tombstone_deletes_the_last_chunks_of_its_file(
    round: &mut GcRound,
    key: Vec<u8>,
    inode_id: InodeId,
    size: u64,
    deletion: Option<Vec<Vec<u8>>>,
)
    requires
        old(round).wf(),
        old(round)@.remaining > 0,
        old(round)@.pending is None,
        call_ensures(
            GcRound::visit,
            (round, key, ScannedEntry::Tombstone { inode_id, size }),
            deletion,
        ),
    ensures
        size == 0 <==> deletion is None,
        deletion matches Some(keys) ==> {
            let total = (size + 262143) / 262144;
            let quota = if total <= old(round)@.remaining {
                total
            } else {
                old(round)@.remaining
            };
            &&& keys@.len() == quota
            &&& forall|i: int|
                #![trigger keys@[i]]
                0 <= i < quota ==> {
                    &&& keys@[i]@.len() == 17
                    &&& keys@[i]@[0] == PREFIX_CHUNK
                    &&& number_at(keys@[i]@, 1) == inode_id
                    &&& number_at(keys@[i]@, 9) == total - quota + i
                    &&& keys@[i]@ == chunk_key_bytes(inode_id, (total - quota + i) as u64)
                }
        },
{
    if let Some(keys) = deletion {
        let total = chunk_count(size as int);
        let quota = old(round)@.quota(size as int);
        let models = keys@.map_values(|k: Vec<u8>| k@);
        assert(total == (size + 262143) / 262144);
        assert(models.len() == keys@.len());
        assert forall|i: int| #![trigger keys@[i]] 0 <= i < quota implies {
            &&& keys@[i]@.len() == 17
            &&& keys@[i]@[0] == PREFIX_CHUNK
            &&& number_at(keys@[i]@, 1) == inode_id
            &&& number_at(keys@[i]@, 9) == total - quota + i
            &&& keys@[i]@ == chunk_key_bytes(inode_id, (total - quota + i) as u64)
        } by {
            assert(models[i] == keys@[i]@);
            chunk_key_layout(inode_id, (total - quota + i) as u64);
        }
    }
}

/// A tombstone whose chunks all fit the budget is deleted and counts as completed, unless it had
/// none. One whose chunks do not fit is kept under its key with the size of the chunks before the
/// deleted ones, which is smaller than it was, and another round is due. What was decided before
/// stays.
pub proof fn tombstone_keeps_what_is_left(
    r: RoundModel,
    key: Seq<u8>,
    inode_id: InodeId,
    size: int,
)
    requires
        0 <= size,
        0 < r.remaining,
        r.pending is None,
    ensures
        ({
            let done = r.planned(key, inode_id, size).recorded();
            let total = (size + 262143) / 262144;
            let quota = if total <= r.remaining {
                total
            } else {
                r.remaining
            };
            &&& done.writes().len() == r.writes().len() + 1
            &&& done.writes().drop_last() == r.writes()
            &&& done.writes() == r.planned(key, inode_id, size).writes()
            &&& quota == total ==> done.writes().last() == WriteModel::Delete { key }
            &&& quota < total ==> {
                &&& done.writes().last() == WriteModel::Put { key, size: (total - quota) * 262144 }
                &&& 0 < (total - quota) * 262144 < size
            }
            &&& done.deleted == r.deleted + quota
            &&& done.remaining == r.remaining - quota
            &&& done.completed == r.completed + (if size > 0 && quota == total {
                1int
            } else {
                0
            })
            &&& done.incomplete == (r.incomplete || quota < total)
            &&& done.pending is None
        }),
{
    let planned = r.planned(key, inode_id, size);
    let done = planned.recorded();
    let total = chunk_count(size);
    chunks_just_hold_the_file(size);
    assert(total == (size + 262143) / 262144);
    assert(done.writes().drop_last() =~= r.writes());
    if size > 0 {
        let start = total - r.quota(size);
        if 0 < start {
            lemma_shrunk_size(size, start);
            assert(start * CHUNK_SIZE == start * 262144);
        }
    }
}

/// The batch holds one write for each tombstone decided on, in order: the deletion of its key, or
/// its key with the size of the chunks that are left. With nothing decided there is no batch.
pub proof fn batch_writes_each_decision(round: &GcRound, batch: Option<Vec<TombstoneWrite>>)
    requires
        round.wf(),
        round@.pending is None,
        call_ensures(GcRound::batch, (round,), batch),
    ensures
        batch is None <==> round@.updates.len() == 0,
        batch matches Some(writes) ==> {
            &&& writes@.len() == round@.updates.len()
            &&& forall|j: int|
                #![trigger writes@[j]]
                0 <= j < writes@.len() ==> {
                    let u = round@.updates[j];
                    match writes@[j] {
                        TombstoneWrite::Delete { key } => u.delete_tombstone && key@ == u.key,
                        TombstoneWrite::Put { key, size } => !u.delete_tombstone && key@ == u.key
                            && size == u.start_chunk * 262144 && size < u.old_size,
                    }
                }
        },
{
    if let Some(writes) = batch {
        let models = writes@.map_values(|w: TombstoneWrite| w@);
        assert(models.len() == round@.writes().len());
        assert forall|j: int| #![trigger writes@[j]] 0 <= j < writes@.len() implies {
            let u = round@.updates[j];
            match writes@[j] {
                TombstoneWrite::Delete { key } => u.delete_tombstone && key@ == u.key,
                TombstoneWrite::Put { key, size } => !u.delete_tombstone && key@ == u.key && size
                    == u.start_chunk * 262144 && size < u.old_size,
            }
        } by {
            let u = round@.updates[j];
            assert(models[j] == writes@[j]@);
            assert(round@.writes()[j] == u.write());
            assert(u.shrinks());
            if !u.delete_tombstone {
                lemma_shrunk_size(u.old_size, u.start_chunk);
                assert(u.start_chunk * CHUNK_SIZE == u.start_chunk * 262144);
            }
        }
    }
}

/// A deletion that was written counts its chunks against the budget and, if they were the last of
/// the file, the tombstone as completed. Other tasks get to run at every thousandth chunk. One
/// that failed counts nothing and is an I/O error.
pub proof fn written_deletions_are_counted<E>(
    round: &mut GcRound,
    chunks: int,
    last: bool,
    write: Result<(), E>,
    pause: Result<bool, FsError>,
)
    requires
        old(round).wf(),
        old(round)@.pending == Some((chunks, last)),
        call_ensures(GcRound::record_deleted::<E>, (round, write), pause),
    ensures
        final(round)@.updates == old(round)@.updates,
        final(round)@.incomplete == old(round)@.incomplete,
        write is Ok ==> {
            &&& final(round)@.deleted == old(round)@.deleted + chunks
            &&& final(round)@.remaining == old(round)@.remaining - chunks
            &&& final(round)@.completed == old(round)@.completed + (if last {
                1int
            } else {
                0
            })
            &&& final(round)@.pending is None
            &&& pause == Ok::<bool, FsError>((old(round)@.deleted + chunks) % 1000 == 0)
        },
        write is Err ==> {
            &&& final(round)@ == old(round)@
            &&& pause == Err::<bool, FsError>(FsError::IoError)
        },
{
}

/// Whether a counter has gone from `before` to `after` by `n` events, starting over at 0 after the
/// largest number.
pub open spec fn grows_by(before: u64, after: u64, n: int) -> bool {
    after == if before + n <= u64::MAX {
        before + n
    } else {
        before + n - u64::MAX - 1
    }
}

/// A round that ends counts the chunks that it deleted and the tombstones that it completed, and
/// nothing else. Another is due exactly if something was left. If its batch could not be written
/// nothing is counted, and the run ends with an I/O error.
pub proof fn finished_round_is_counted<E>(
    round: GcRound,
    write: Result<(), E>,
    stats: &mut FileSystemStats,
    again: Result<bool, FsError>,
)
    requires
        round.wf(),
        round@.pending is None,
        call_ensures(GcRound::finish::<E>, (round, write, stats), again),
    ensures
        final(stats).cache_hits == old(stats).cache_hits,
        final(stats).cache_misses == old(stats).cache_misses,
        final(stats).gc_runs == old(stats).gc_runs,
        write is Ok ==> {
            &&& again == Ok::<bool, FsError>(round@.incomplete)
            &&& grows_by(old(stats).gc_chunks_deleted, final(stats).gc_chunks_deleted, round@.deleted)
            &&& grows_by(
                old(stats).tombstones_processed,
                final(stats).tombstones_processed,
                round@.completed,
            )
        },
        write is Err ==> {
            &&& again == Err::<bool, FsError>(FsError::IoError)
            &&& *final(stats) == *old(stats)
        },
{
    counters_count_every_event(old(stats).gc_chunks_deleted, round@.deleted as u64);
    counters_count_every_event(old(stats).tombstones_processed, round@.completed as u64);
}

/// An entry that a scan yields is visited while the round may still delete chunks. Once it may
/// not, the entry is left and another round is due. The end of the scan and an error inside it
/// leave the round as it is.
pub proof fn entries_are_visited_within_the_budget<T, E>(
    round: &mut GcRound,
    item: Option<Result<T, E>>,
    entry: Option<T>,
)
    requires
        old(round).wf(),
        call_ensures(GcRound::next_entry::<T, E>, (round, item), entry),
    ensures
        final(round)@.updates == old(round)@.updates,
        final(round)@.deleted == old(round)@.deleted,
        final(round)@.completed == old(round)@.completed,
        final(round)@.remaining == old(round)@.remaining,
        final(round)@.pending == old(round)@.pending,
        item matches Some(Ok(value)) ==> if old(round)@.remaining > 0 {
            entry == Some(value) && final(round)@.incomplete == old(round)@.incomplete
        } else {
            entry is None && final(round)@.incomplete
        },
        !(item matches Some(Ok(_))) ==> entry is None && final(round)@ == old(round)@,
{
}

/// A round starts with nothing decided and may delete ten thousand chunks.
pub proof fn rounds_start_with_a_full_budget(round: GcRound)
    requires
        call_ensures(GcRound::new, (), round),
    ensures
        round@.updates.len() == 0,
        round@.deleted == 0,
        round@.completed == 0,
        !round@.incomplete,
        round@.remaining == 10_000,
        round@.pending is None,
{
}

/// An entry that is not a tombstone asks for no deletion and leaves the round as it is.
pub proof fn other_entries_are_passed_over(
    round: &mut GcRound,
    key: Vec<u8>,
    deletion: Option<Vec<Vec<u8>>>,
)
    requires
        old(round).wf(),
        old(round)@.remaining > 0,
        old(round)@.pending is None,
        call_ensures(GcRound::visit, (round, key, ScannedEntry::Other), deletion),
    ensures
        deletion is None,
        final(round)@ == old(round)@,
{
}

/// A scan that could be opened is handed on as it is, and one that could not is an I/O error.
pub proof fn scans_are_handed_on<T, E>(scan: Result<T, E>, opened: Result<T, FsError>)
    requires
        call_ensures(GcRound::scan_opened::<T, E>, (scan,), opened),
    ensures
        scan matches Ok(items) ==> opened == Ok::<T, FsError>(items),
        scan is Err ==> opened == Err::<T, FsError>(FsError::IoError),
{
}

} // verus!
