//! What garbage collection achieves: laws about whole rounds and whole runs.
//!
//! A scan is modelled as the sequence of entries it meets, in key order. `round` folds the steps
//! of a `GcRound` over such a sequence, as `collect_round` takes them; `left_over` is the sequence that the next scan meets if
//! nobody else writes tombstones meanwhile. The laws on whole runs speak of runs whose scans meet
//! every entry and whose writes succeed, except where they say otherwise.

use vstd::prelude::*;

use super::gc::{
    chunk_count, chunks_just_hold_the_file, RoundModel, UpdateModel, WriteModel,
    MAX_CHUNKS_PER_ROUND,
};
use super::inode::InodeId;
use super::CHUNK_SIZE;

verus! {

/// One entry that a scan of the tombstones meets.
pub enum Entry {
    /// An entry whose key is not that of a tombstone.
    Other { key: Seq<u8> },
    /// The tombstone of a deleted file.
    Tombstone { key: Seq<u8>, inode_id: InodeId, size: nat },
}

impl Entry {
    /// The key that the entry is stored under.
    pub open spec fn key(self) -> Seq<u8> {
        match self {
            Entry::Other { key } => key,
            Entry::Tombstone { key, .. } => key,
        }
    }

    /// The chunks that the entry says are still stored, as pairs of inode and chunk index.
    pub open spec fn chunks(self) -> Set<(InodeId, int)> {
        match self {
            Entry::Other { .. } => Set::empty(),
            Entry::Tombstone { inode_id, size, .. } => Set::new(
                |c: (InodeId, int)| c.0 == inode_id && 0 <= c.1 < chunk_count(size as int),
            ),
        }
    }

    /// How many chunks those are.
    pub open spec fn chunk_total(self) -> int {
        match self {
            Entry::Other { .. } => 0,
            Entry::Tombstone { size, .. } => chunk_count(size as int),
        }
    }

    /// The entry with a new recorded size.
    pub open spec fn resized(self, new_size: int) -> Entry {
        match self {
            Entry::Other { key } => Entry::Other { key },
            Entry::Tombstone { key, inode_id, .. } => Entry::Tombstone {
                key,
                inode_id,
                size: new_size as nat,
            },
        }
    }
}

/// The chunks that a round deletes on account of one decision.
pub open spec fn deleted_chunks(u: UpdateModel) -> Set<(InodeId, int)> {
    Set::new(
        |c: (InodeId, int)| c.0 == u.inode_id && u.start_chunk <= c.1 < chunk_count(u.old_size),
    )
}

/// The chunks that a round deletes on account of all its decisions.
pub open spec fn all_deleted_chunks(updates: Seq<UpdateModel>) -> Set<(InodeId, int)> {
    Set::new(
        |c: (InodeId, int)|
            exists|i: int|
                0 <= i < updates.len() && #[trigger] deleted_chunks(updates[i]).contains(c),
    )
}

/// The chunks that all entries say are still stored.
pub open spec fn all_chunks(entries: Seq<Entry>) -> Set<(InodeId, int)> {
    Set::new(
        |c: (InodeId, int)|
            exists|i: int| 0 <= i < entries.len() && #[trigger] entries[i].chunks().contains(c),
    )
}

/// How many chunks the entries account for.
pub open spec fn outstanding(entries: Seq<Entry>) -> int
    decreases entries.len(),
{
    if entries.len() == 0 {
        0
    } else {
        entries[0].chunk_total() + outstanding(entries.drop_first())
    }
}

/// How many of the entries are tombstones with chunks left.
pub open spec fn unfinished(entries: Seq<Entry>) -> int
    decreases entries.len(),
{
    if entries.len() == 0 {
        0
    } else {
        (if entries[0].chunk_total() > 0 {
            1int
        } else {
            0
        }) + unfinished(entries.drop_first())
    }
}

/// Whether no two entries have the same key.
pub open spec fn keys_distinct(entries: Seq<Entry>) -> bool {
    forall|i: int, j: int|
        0 <= i < j < entries.len() ==> #[trigger] entries[i].key() != #[trigger] entries[j].key()
}

/// Whether a tombstone is among the entries.
pub open spec fn has_tombstone(entries: Seq<Entry>) -> bool {
    exists|i: int| 0 <= i < entries.len() && #[trigger] entries[i] is Tombstone
}

/// A round after it has dealt with one more entry.
pub open spec fn visited(r: RoundModel, e: Entry) -> RoundModel {
    match e {
        Entry::Other { .. } => r,
        Entry::Tombstone { key, inode_id, size } => r.planned(
            key,
            inode_id,
            size as int,
        ).recorded(),
    }
}

/// Round `r` after the rest of its scan: it deals with entry after entry, and stops at the
/// first one it has no budget for.
pub open spec fn round_over(r: RoundModel, entries: Seq<Entry>) -> RoundModel
    decreases entries.len(),
{
    if entries.len() == 0 {
        r
    } else if r.remaining <= 0 {
        r.cut_short()
    } else {
        round_over(visited(r, entries[0]), entries.drop_first())
    }
}

/// A whole round.
pub open spec fn round(entries: Seq<Entry>) -> RoundModel {
    round_over(RoundModel::empty(), entries)
}

/// What is left of one entry after `quota` of its chunks are gone: nothing of a tombstone
/// without chunks, else the entry shrunk to the chunks before the deleted ones.
pub open spec fn remnant(e: Entry, quota: int) -> Seq<Entry> {
    if e is Other {
        seq![e]
    } else if e.chunk_total() == quota {
        Seq::empty()
    } else {
        seq![e.resized((e.chunk_total() - quota) * CHUNK_SIZE)]
    }
}

/// The entries that are left after a round that may delete `budget` chunks.
pub open spec fn left_over(entries: Seq<Entry>, budget: int) -> Seq<Entry>
    decreases entries.len(),
{
    if entries.len() == 0 || budget <= 0 {
        entries
    } else {
        let total = entries[0].chunk_total();
        let quota = if total <= budget {
            total
        } else {
            budget
        };
        remnant(entries[0], quota) + left_over(entries.drop_first(), budget - quota)
    }
}

/// The entries that a scan meets if it ends after `seen` of them.
pub open spec fn met(entries: Seq<Entry>, seen: nat) -> Seq<Entry> {
    if seen <= entries.len() {
        entries.take(seen as int)
    } else {
        entries
    }
}

/// The entries that a scan does not meet if it ends after `seen` of them.
pub open spec fn unmet(entries: Seq<Entry>, seen: nat) -> Seq<Entry> {
    if seen <= entries.len() {
        entries.skip(seen as int)
    } else {
        Seq::empty()
    }
}

/// The entries that are left after a round whose scan ended after `seen` of them.
pub open spec fn left_after(entries: Seq<Entry>, seen: nat) -> Seq<Entry> {
    left_over(met(entries, seen), MAX_CHUNKS_PER_ROUND as int) + unmet(entries, seen)
}

impl WriteModel {
    /// The key that the write is about.
    pub open spec fn key(self) -> Seq<u8> {
        match self {
            WriteModel::Delete { key } => key,
            WriteModel::Put { key, .. } => key,
        }
    }
}

/// Whether entry `i` is the one that the write is about.
pub open spec fn concerns(entries: Seq<Entry>, w: WriteModel, i: int) -> bool {
    0 <= i < entries.len() && entries[i].key() == w.key()
}

/// The entries after one write to the store.
pub open spec fn written(entries: Seq<Entry>, w: WriteModel) -> Seq<Entry> {
    if exists|i: int| concerns(entries, w, i) {
        let i = choose|i: int| concerns(entries, w, i);
        match w {
            WriteModel::Delete { .. } => entries.remove(i),
            WriteModel::Put { size, .. } => entries.update(i, entries[i].resized(size)),
        }
    } else {
        entries
    }
}

/// The entries after a batch of writes to the store.
pub open spec fn all_written(entries: Seq<Entry>, writes: Seq<WriteModel>) -> Seq<Entry>
    decreases writes.len(),
{
    if writes.len() == 0 {
        entries
    } else {
        all_written(written(entries, writes[0]), writes.drop_first())
    }
}

/// Facts about a file's chunk count and what is left of it.
pub(crate) proof fn lemma_sizes(size: int, quota: int)
    requires
        0 <= size,
        0 <= quota <= chunk_count(size),
    ensures
        0 <= chunk_count(size),
        chunk_count(size) == 0 <==> size == 0,
        chunk_count((chunk_count(size) - quota) * CHUNK_SIZE) == chunk_count(size) - quota,
        0 < quota ==> (chunk_count(size) - quota) * CHUNK_SIZE < size,
{
    let total = chunk_count(size);
    assert(total == (size + 262143) / 262144);
    assert(262144 * total < size + 262144);
    let left = (total - quota) * CHUNK_SIZE;
    assert(left == 262144 * (total - quota));
    assert(chunk_count(left) == (left + 262143) / 262144);
}

proof fn lemma_outstanding_nonnegative(entries: Seq<Entry>)
    ensures
        0 <= outstanding(entries),
    decreases entries.len(),
{
    if entries.len() > 0 {
        lemma_outstanding_nonnegative(entries.drop_first());
    }
}

proof fn lemma_outstanding_prepend(head: Seq<Entry>, tail: Seq<Entry>)
    requires
        head.len() <= 1,
    ensures
        outstanding(head + tail) == outstanding(head) + outstanding(tail),
        unfinished(head + tail) == unfinished(head) + unfinished(tail),
{
    if head.len() == 0 {
        assert(head + tail =~= tail);
    } else {
        assert((head + tail).drop_first() =~= tail);
        assert(head.drop_first() =~= Seq::<Entry>::empty());
        assert((head + tail)[0] == head[0]);
        assert(outstanding(head.drop_first()) == 0);
        assert(unfinished(head.drop_first()) == 0);
    }
}

proof fn lemma_no_tombstone_counts(entries: Seq<Entry>)
    requires
        !has_tombstone(entries),
    ensures
        outstanding(entries) == 0,
        unfinished(entries) == 0,
    decreases entries.len(),
{
    if entries.len() > 0 {
        let rest = entries.drop_first();
        assert(!(entries[0] is Tombstone));
        assert forall|i: int| 0 <= i < rest.len() implies !(#[trigger] rest[i] is Tombstone) by {
            assert(rest[i] == entries[i + 1]);
        }
        lemma_no_tombstone_counts(rest);
    }
}

/// The arithmetic of a round in progress.
proof fn lemma_round_numbers(r: RoundModel, entries: Seq<Entry>)
    requires
        0 <= r.remaining,
        r.pending is None,
    ensures
        ({
            let end = round_over(r, entries);
            let rest = left_over(entries, r.remaining);
            &&& end.deleted + end.remaining == r.deleted + r.remaining
            &&& 0 <= end.remaining <= r.remaining
            &&& end.pending is None
            &&& !r.incomplete && end.incomplete ==> end.remaining == 0
            &&& r.incomplete ==> end.incomplete
            &&& outstanding(rest) == outstanding(entries) - (end.deleted - r.deleted)
            &&& end.completed - r.completed == unfinished(entries) - unfinished(rest)
            &&& !end.incomplete ==> !has_tombstone(rest)
        }),
    decreases entries.len(),
{
    if entries.len() > 0 && r.remaining > 0 {
        let e = entries[0];
        let total = e.chunk_total();
        let quota = if total <= r.remaining {
            total
        } else {
            r.remaining
        };
        let next = visited(r, e);
        let head = remnant(e, quota);
        let tail = left_over(entries.drop_first(), r.remaining - quota);
        if e is Tombstone {
            lemma_sizes(e->Tombstone_size as int, quota);
        }
        assert(next.remaining == r.remaining - quota);
        assert(next.deleted == r.deleted + quota);
        lemma_round_numbers(next, entries.drop_first());
        lemma_outstanding_prepend(head, tail);
        assert(outstanding(head) == total - quota && unfinished(head) == (if total > quota {
            1int
        } else {
            0
        })) by {
            if head.len() == 1 {
                assert(head.drop_first() =~= Seq::<Entry>::empty());
                assert(outstanding(head.drop_first()) == 0);
                assert(unfinished(head.drop_first()) == 0);
            }
        }
        let end = round_over(r, entries);
        if !end.incomplete {
            assert(!next.incomplete);
            assert(total == quota);
            assert forall|i: int| 0 <= i < (head + tail).len() implies !(#[trigger] (head
                + tail)[i] is Tombstone) by {
                if i >= head.len() {
                    assert((head + tail)[i] == tail[i - head.len()]);
                } else {
                    assert((head + tail)[i] == head[i]);
                }
            }
        }
        if next.incomplete && !r.incomplete {
            assert(next.remaining == 0);
        }
    }
}

/// A round never deletes more chunks than its budget.
pub proof fn round_keeps_to_its_budget(entries: Seq<Entry>)
    ensures
        0 <= round(entries).deleted <= MAX_CHUNKS_PER_ROUND,
        round(entries).deleted + round(entries).remaining == MAX_CHUNKS_PER_ROUND,
{
    lemma_round_numbers(RoundModel::empty(), entries);
}

/// A round that leaves work for another one has spent its whole budget.
pub proof fn unfinished_round_spends_its_budget(entries: Seq<Entry>)
    ensures
        round(entries).incomplete ==> round(entries).deleted == MAX_CHUNKS_PER_ROUND,
{
    lemma_round_numbers(RoundModel::empty(), entries);
}

/// A round that leaves no work for another one leaves no tombstone of its scan.
pub proof fn finished_round_clears_its_scan(entries: Seq<Entry>)
    ensures
        !round(entries).incomplete ==> !has_tombstone(
            left_over(entries, MAX_CHUNKS_PER_ROUND as int),
        ),
{
    lemma_round_numbers(RoundModel::empty(), entries);
}

/// Every chunk that a round deletes is one chunk less to account for.
pub proof fn round_reduces_outstanding(entries: Seq<Entry>)
    ensures
        outstanding(left_over(entries, MAX_CHUNKS_PER_ROUND as int)) == outstanding(entries)
            - round(entries).deleted,
{
    lemma_round_numbers(RoundModel::empty(), entries);
}

/// A round counts a tombstone as completed when it deletes its last chunks. A tombstone that had
/// none left is deleted without being counted.
pub proof fn round_counts_completed_tombstones(entries: Seq<Entry>)
    ensures
        round(entries).completed == unfinished(entries) - unfinished(
            left_over(entries, MAX_CHUNKS_PER_ROUND as int),
        ),
{
    lemma_round_numbers(RoundModel::empty(), entries);
}

proof fn lemma_all_chunks_concat(a: Seq<Entry>, b: Seq<Entry>, c: (InodeId, int))
    ensures
        all_chunks(a + b).contains(c) <==> all_chunks(a).contains(c) || all_chunks(b).contains(c),
{
    let ab = a + b;
    if all_chunks(ab).contains(c) {
        let i = choose|i: int| 0 <= i < ab.len() && #[trigger] ab[i].chunks().contains(c);
        if i < a.len() {
            assert(a[i].chunks().contains(c));
        } else {
            assert(b[i - a.len()].chunks().contains(c));
        }
    }
    if all_chunks(a).contains(c) {
        let i = choose|i: int| 0 <= i < a.len() && #[trigger] a[i].chunks().contains(c);
        assert(ab[i].chunks().contains(c));
    }
    if all_chunks(b).contains(c) {
        let i = choose|i: int| 0 <= i < b.len() && #[trigger] b[i].chunks().contains(c);
        assert(ab[i + a.len()].chunks().contains(c));
    }
}

proof fn lemma_all_chunks_single(e: Entry, c: (InodeId, int))
    ensures
        all_chunks(seq![e]).contains(c) <==> e.chunks().contains(c),
{
    assert(seq![e][0] == e);
    if e.chunks().contains(c) {
        assert(seq![e][0].chunks().contains(c));
    }
}

pub(crate) proof fn lemma_all_deleted_push(updates: Seq<UpdateModel>, u: UpdateModel, c: (InodeId, int))
    ensures
        all_deleted_chunks(updates.push(u)).contains(c) <==> all_deleted_chunks(updates).contains(c)
            || deleted_chunks(u).contains(c),
{
    let more = updates.push(u);
    if all_deleted_chunks(updates).contains(c) {
        let i = choose|i: int|
            0 <= i < updates.len() && #[trigger] deleted_chunks(updates[i]).contains(c);
        assert(deleted_chunks(more[i]).contains(c));
    }
    if deleted_chunks(u).contains(c) {
        assert(deleted_chunks(more[updates.len() as int]).contains(c));
    }
    if all_deleted_chunks(more).contains(c) {
        let i = choose|i: int|
            0 <= i < more.len() && #[trigger] deleted_chunks(more[i]).contains(c);
        if i < updates.len() {
            assert(deleted_chunks(updates[i]).contains(c));
        }
    }
}

/// Where one chunk is, before and after the rest of a round.
proof fn lemma_round_chunks(r: RoundModel, entries: Seq<Entry>, c: (InodeId, int))
    requires
        0 <= r.remaining,
        r.pending is None,
    ensures
        all_deleted_chunks(r.updates).contains(c) || all_chunks(entries).contains(c) <==> (
        all_deleted_chunks(round_over(r, entries).updates).contains(c) || all_chunks(
            left_over(entries, r.remaining),
        ).contains(c)),
    decreases entries.len(),
{
    if entries.len() > 0 && r.remaining > 0 {
        let e = entries[0];
        let rest = entries.drop_first();
        let total = e.chunk_total();
        let quota = if total <= r.remaining {
            total
        } else {
            r.remaining
        };
        let next = visited(r, e);
        let head = remnant(e, quota);
        if e is Tombstone {
            lemma_sizes(e->Tombstone_size as int, quota);
        }
        assert(next.remaining == r.remaining - quota);
        lemma_round_chunks(next, rest, c);
        assert(entries =~= seq![e] + rest);
        lemma_all_chunks_concat(seq![e], rest, c);
        lemma_all_chunks_single(e, c);
        lemma_all_chunks_concat(head, left_over(rest, r.remaining - quota), c);
        if head.len() == 1 {
            assert(head =~= seq![head[0]]);
            lemma_all_chunks_single(head[0], c);
        }
        if e is Tombstone {
            lemma_all_deleted_push(r.updates, next.updates.last(), c);
            assert(next.updates =~= r.updates.push(next.updates.last()));
        }
    }
}

/// A round deletes chunks of the deleted files and no others, and what it leaves accounts for
/// exactly the rest: each chunk of a tombstone is deleted or still recorded.
pub proof fn round_accounts_for_every_chunk(entries: Seq<Entry>)
    ensures
        all_chunks(entries) == all_deleted_chunks(round(entries).updates).union(
            all_chunks(left_over(entries, MAX_CHUNKS_PER_ROUND as int)),
        ),
{
    let after = all_deleted_chunks(round(entries).updates).union(
        all_chunks(left_over(entries, MAX_CHUNKS_PER_ROUND as int)),
    );
    assert forall|c: (InodeId, int)| all_chunks(entries).contains(c) <==> after.contains(c) by {
        lemma_round_chunks(RoundModel::empty(), entries, c);
    }
    assert(all_chunks(entries) =~= after);
}

/// The entries that are left after whole rounds whose scans met `scans[0]`, `scans[1]`, .. of
/// the entries there were.
pub open spec fn rounds_left(entries: Seq<Entry>, scans: Seq<nat>) -> Seq<Entry>
    decreases scans.len(),
{
    if scans.len() == 0 {
        entries
    } else {
        rounds_left(left_after(entries, scans[0]), scans.drop_first())
    }
}

/// The chunks that those rounds delete.
pub open spec fn rounds_deleted(entries: Seq<Entry>, scans: Seq<nat>) -> Set<(InodeId, int)>
    decreases scans.len(),
{
    if scans.len() == 0 {
        Set::empty()
    } else {
        all_deleted_chunks(round(met(entries, scans[0])).updates).union(
            rounds_deleted(left_after(entries, scans[0]), scans.drop_first()),
        )
    }
}

/// Whether `late` is entry `early` as it was, or shrunk: under the same key, and if it is a
/// tombstone, that of the same inode with a size that is no larger.
pub open spec fn shrunk_from(late: Entry, early: Entry) -> bool {
    match early {
        Entry::Other { .. } => late == early,
        Entry::Tombstone { key, inode_id, size } => {
            &&& late matches Entry::Tombstone { key: k, inode_id: i, size: s }
            &&& k == key
            &&& i == inode_id
            &&& s <= size
        },
    }
}

/// Whether `late` is one of the early entries, as it was or shrunk.
pub open spec fn stems_from(late: Entry, early: Seq<Entry>) -> bool {
    exists|i: int| 0 <= i < early.len() && shrunk_from(late, #[trigger] early[i])
}

/// Whether each of the late entries is one of the early ones, as it was or shrunk.
pub open spec fn all_stem_from(late: Seq<Entry>, early: Seq<Entry>) -> bool {
    forall|j: int| 0 <= j < late.len() ==> stems_from(#[trigger] late[j], early)
}

pub(crate) proof fn lemma_left_over_stems(entries: Seq<Entry>, budget: int)
    ensures
        all_stem_from(left_over(entries, budget), entries),
    decreases entries.len(),
{
    let late = left_over(entries, budget);
    if entries.len() == 0 || budget <= 0 {
        assert forall|j: int| 0 <= j < late.len() implies stems_from(
            #[trigger] late[j],
            entries,
        ) by {
            assert(shrunk_from(late[j], entries[j]));
        }
    } else {
        let e = entries[0];
        let rest = entries.drop_first();
        let total = e.chunk_total();
        let quota = if total <= budget {
            total
        } else {
            budget
        };
        let head = remnant(e, quota);
        let tail = left_over(rest, budget - quota);
        lemma_left_over_stems(rest, budget - quota);
        if e is Tombstone {
            lemma_sizes(e->Tombstone_size as int, quota);
        }
        assert forall|j: int| 0 <= j < late.len() implies stems_from(
            #[trigger] late[j],
            entries,
        ) by {
            if j < head.len() {
                assert(late[j] == head[j]);
                assert(shrunk_from(late[j], entries[0]));
            } else {
                let k = j - head.len();
                assert(late[j] == tail[k]);
                assert(stems_from(tail[k], rest));
                let i = choose|i: int|
                    0 <= i < rest.len() && shrunk_from(tail[k], #[trigger] rest[i]);
                assert(shrunk_from(late[j], entries[i + 1]));
            }
        }
    }
}

proof fn lemma_left_after_stems(entries: Seq<Entry>, seen: nat)
    ensures
        all_stem_from(left_after(entries, seen), entries),
{
    let late = left_after(entries, seen);
    let part = met(entries, seen);
    let others = unmet(entries, seen);
    let head = left_over(part, MAX_CHUNKS_PER_ROUND as int);
    lemma_left_over_stems(part, MAX_CHUNKS_PER_ROUND as int);
    assert forall|j: int| 0 <= j < late.len() implies stems_from(#[trigger] late[j], entries) by {
        if j < head.len() {
            assert(late[j] == head[j]);
            assert(stems_from(head[j], part));
            let i = choose|i: int| 0 <= i < part.len() && shrunk_from(head[j], #[trigger] part[i]);
            assert(shrunk_from(late[j], entries[i]));
        } else {
            let k = j - head.len();
            assert(late[j] == others[k]);
            assert(shrunk_from(late[j], entries[part.len() + k]));
        }
    }
}

proof fn lemma_stems_transitive(late: Seq<Entry>, middle: Seq<Entry>, early: Seq<Entry>)
    requires
        all_stem_from(late, middle),
        all_stem_from(middle, early),
    ensures
        all_stem_from(late, early),
{
    assert forall|j: int| 0 <= j < late.len() implies stems_from(#[trigger] late[j], early) by {
        assert(stems_from(late[j], middle));
        let m = choose|m: int| 0 <= m < middle.len() && shrunk_from(late[j], #[trigger] middle[m]);
        assert(stems_from(middle[m], early));
        let i = choose|i: int| 0 <= i < early.len() && shrunk_from(middle[m], #[trigger] early[i]);
        assert(shrunk_from(late[j], early[i]));
    }
}

/// What a round deletes and what it leaves account for every chunk, however many of the entries
/// its scan met.
pub proof fn short_round_accounts_for_every_chunk(entries: Seq<Entry>, seen: nat)
    ensures
        all_chunks(entries) == all_deleted_chunks(round(met(entries, seen)).updates).union(
            all_chunks(left_after(entries, seen)),
        ),
{
    let part = met(entries, seen);
    let others = unmet(entries, seen);
    let rest = left_over(part, MAX_CHUNKS_PER_ROUND as int);
    let after = all_deleted_chunks(round(part).updates).union(all_chunks(left_after(entries, seen)));
    round_accounts_for_every_chunk(part);
    assert(entries =~= part + others);
    assert forall|c: (InodeId, int)| all_chunks(entries).contains(c) <==> after.contains(c) by {
        lemma_all_chunks_concat(part, others, c);
        lemma_all_chunks_concat(rest, others, c);
    }
    assert(all_chunks(entries) =~= after);
}

proof fn lemma_rounds_account(entries: Seq<Entry>, scans: Seq<nat>)
    ensures
        all_chunks(entries) == rounds_deleted(entries, scans).union(
            all_chunks(rounds_left(entries, scans)),
        ),
        all_stem_from(rounds_left(entries, scans), entries),
    decreases scans.len(),
{
    let after = rounds_deleted(entries, scans).union(all_chunks(rounds_left(entries, scans)));
    if scans.len() == 0 {
        assert forall|j: int| 0 <= j < entries.len() implies stems_from(
            #[trigger] entries[j],
            entries,
        ) by {
            assert(shrunk_from(entries[j], entries[j]));
        }
    } else {
        let next = left_after(entries, scans[0]);
        short_round_accounts_for_every_chunk(entries, scans[0]);
        lemma_rounds_account(next, scans.drop_first());
        lemma_left_after_stems(entries, scans[0]);
        lemma_stems_transitive(rounds_left(entries, scans), next, entries);
    }
    assert(all_chunks(entries) =~= after);
}

/// A run that breaks off loses no chunk. Say that it has gone through the rounds of `scans` and
/// breaks off in the next one, after `seen` entries and before its tombstones are rewritten.
/// Each chunk that was recorded at the start is then deleted by the whole rounds or still
/// recorded by a tombstone, under the key and for the inode of a tombstone at the start and with
/// no larger size. What the last round has deleted is still recorded, so another run deletes
/// the same chunks.
pub proof fn broken_off_run_loses_no_chunk(entries: Seq<Entry>, scans: Seq<nat>, seen: nat)
    ensures
        ({
            let rest = rounds_left(entries, scans);
            let last = all_deleted_chunks(round(met(rest, seen)).updates);
            &&& all_chunks(entries) == rounds_deleted(entries, scans).union(all_chunks(rest))
            &&& all_stem_from(rest, entries)
            &&& last.subset_of(all_chunks(rest))
            &&& run_deleted(rest) == all_chunks(rest)
        }),
{
    let rest = rounds_left(entries, scans);
    lemma_rounds_account(entries, scans);
    short_round_accounts_for_every_chunk(rest, seen);
    run_deletes_exactly_the_dead_chunks(rest);
}

proof fn lemma_written_at(prefix: Seq<Entry>, e: Entry, rest: Seq<Entry>, w: WriteModel)
    requires
        keys_distinct(prefix + seq![e] + rest),
        w.key() == e.key(),
    ensures
        w is Delete ==> written(prefix + seq![e] + rest, w) == prefix + rest,
        w matches WriteModel::Put { size, .. } ==> written(prefix + seq![e] + rest, w) == prefix
            + seq![e.resized(size)] + rest,
{
    let entries = prefix + seq![e] + rest;
    let at = prefix.len() as int;
    assert(entries[at] == e);
    assert(concerns(entries, w, at));
    let i = choose|i: int| concerns(entries, w, i);
    assert(i == at) by {
        if i < at {
            assert(entries[i].key() != entries[at].key());
        }
        if at < i {
            assert(entries[at].key() != entries[i].key());
        }
    }
    match w {
        WriteModel::Delete { .. } => {
            assert(entries.remove(at) =~= prefix + rest);
        },
        WriteModel::Put { size, .. } => {
            assert(entries.update(at, e.resized(size)) =~= prefix + seq![e.resized(size)] + rest);
        },
    }
}

/// Leaving one entry out, or replacing it by one with the same key, keeps keys distinct.
proof fn lemma_keys_stay_distinct(prefix: Seq<Entry>, e: Entry, f: Entry, rest: Seq<Entry>)
    requires
        keys_distinct(prefix + seq![e] + rest),
        f.key() == e.key(),
    ensures
        keys_distinct(prefix + rest),
        keys_distinct(prefix + seq![f] + rest),
{
    let old_entries = prefix + seq![e] + rest;
    let without = prefix + rest;
    let at = prefix.len() as int;
    assert forall|i: int, j: int| 0 <= i < j < without.len() implies #[trigger] without[i].key()
        != #[trigger] without[j].key() by {
        let i2 = if i < at {
            i
        } else {
            i + 1
        };
        let j2 = if j < at {
            j
        } else {
            j + 1
        };
        assert(without[i] == old_entries[i2]);
        assert(without[j] == old_entries[j2]);
        assert(old_entries[i2].key() != old_entries[j2].key());
    }
    let replaced = prefix + seq![f] + rest;
    assert forall|i: int, j: int| 0 <= i < j < replaced.len() implies #[trigger] replaced[i].key()
        != #[trigger] replaced[j].key() by {
        assert(replaced[i].key() == old_entries[i].key());
        assert(replaced[j].key() == old_entries[j].key());
    }
}

/// What the writes of the rest of a round do to the entries from there on.
proof fn lemma_round_writes(
    prefix: Seq<Entry>,
    r: RoundModel,
    entries: Seq<Entry>,
    suffix: Seq<Entry>,
)
    requires
        keys_distinct(prefix + entries + suffix),
        0 <= r.remaining,
        r.pending is None,
    ensures
        ({
            let end = round_over(r, entries);
            let n = r.updates.len() as int;
            &&& n <= end.updates.len()
            &&& end.updates.take(n) == r.updates
            &&& all_written(prefix + entries + suffix, end.writes().skip(n)) == prefix + left_over(
                entries,
                r.remaining,
            ) + suffix
        }),
    decreases entries.len(),
{
    let end = round_over(r, entries);
    let n = r.updates.len() as int;
    if entries.len() == 0 || r.remaining <= 0 {
        assert(end.updates.take(n) =~= r.updates);
        assert(end.writes().skip(n) =~= Seq::<WriteModel>::empty());
    } else {
        let e = entries[0];
        let rest = entries.drop_first();
        let total = e.chunk_total();
        let quota = if total <= r.remaining {
            total
        } else {
            r.remaining
        };
        let next = visited(r, e);
        let head = remnant(e, quota);
        let tail = left_over(rest, r.remaining - quota);
        let all = prefix + entries + suffix;
        let after = rest + suffix;
        assert(all =~= prefix + seq![e] + after);
        if e is Other {
            assert(all =~= prefix + seq![e] + rest + suffix);
            lemma_round_writes(prefix + seq![e], r, rest, suffix);
            assert(prefix + (head + tail) + suffix =~= prefix + seq![e] + tail + suffix);
        } else {
            lemma_sizes(e->Tombstone_size as int, quota);
            let u = next.updates.last();
            let w = u.write();
            assert(next.updates =~= r.updates.push(u));
            let kept = prefix + head;
            lemma_written_at(prefix, e, after, w);
            let shrunk = e.resized((total - quota) * CHUNK_SIZE);
            lemma_keys_stay_distinct(prefix, e, shrunk, after);
            assert(kept + after == written(all, w)) by {
                if total == quota {
                    assert(kept =~= prefix);
                } else {
                    assert(w == WriteModel::Put { key: e.key(), size: (total - quota) * CHUNK_SIZE });
                }
            }
            assert(kept + rest + suffix =~= kept + after);
            lemma_round_writes(kept, next, rest, suffix);
            assert(end.updates.take(n + 1) == next.updates);
            assert(end.updates[n] == end.updates.take(n + 1)[n]);
            assert(end.updates.take(n) =~= r.updates) by {
                assert forall|i: int| 0 <= i < n implies end.updates[i] == r.updates[i] by {
                    assert(end.updates[i] == end.updates.take(n + 1)[i]);
                }
            }
            let writes = end.writes().skip(n);
            assert(writes[0] == w);
            assert(writes.drop_first() =~= end.writes().skip(n + 1));
            assert(prefix + (head + tail) + suffix =~= kept + tail + suffix);
        }
    }
}

/// The batch that ends a round turns the entries into exactly what the round leaves over,
/// however many of them its scan met.
pub proof fn batch_writes_what_is_left(entries: Seq<Entry>, seen: nat)
    requires
        keys_distinct(entries),
    ensures
        all_written(entries, round(met(entries, seen)).writes()) == left_after(entries, seen),
{
    let none = Seq::<Entry>::empty();
    let part = met(entries, seen);
    let others = unmet(entries, seen);
    assert(none + part + others =~= entries);
    lemma_round_writes(none, RoundModel::empty(), part, others);
    let rest = left_over(part, MAX_CHUNKS_PER_ROUND as int);
    assert(none + rest + others =~= rest + others);
    assert(round(part).writes().skip(0) =~= round(part).writes());
}

proof fn lemma_left_over_keys(
    prefix: Seq<Entry>,
    entries: Seq<Entry>,
    suffix: Seq<Entry>,
    budget: int,
)
    requires
        keys_distinct(prefix + entries + suffix),
    ensures
        keys_distinct(prefix + left_over(entries, budget) + suffix),
    decreases entries.len(),
{
    if entries.len() > 0 && budget > 0 {
        let e = entries[0];
        let rest = entries.drop_first();
        let total = e.chunk_total();
        let quota = if total <= budget {
            total
        } else {
            budget
        };
        let head = remnant(e, quota);
        let tail = left_over(rest, budget - quota);
        let shrunk = e.resized((total - quota) * CHUNK_SIZE);
        let after = rest + suffix;
        assert(prefix + entries + suffix =~= prefix + seq![e] + after);
        lemma_keys_stay_distinct(prefix, e, shrunk, after);
        if head.len() == 0 {
            assert(prefix + head =~= prefix);
        }
        assert(prefix + head + rest + suffix =~= prefix + head + after);
        lemma_left_over_keys(prefix + head, rest, suffix, budget - quota);
        assert(prefix + (head + tail) + suffix =~= prefix + head + tail + suffix);
    }
}

/// What a round leaves over has distinct keys again, so that the batch of the next round, too,
/// writes exactly what that round leaves over.
pub proof fn left_over_keys_stay_distinct(entries: Seq<Entry>, seen: nat)
    requires
        keys_distinct(entries),
    ensures
        keys_distinct(left_after(entries, seen)),
{
    let none = Seq::<Entry>::empty();
    let part = met(entries, seen);
    let others = unmet(entries, seen);
    let rest = left_over(part, MAX_CHUNKS_PER_ROUND as int);
    assert(none + part + others =~= entries);
    lemma_left_over_keys(none, part, others, MAX_CHUNKS_PER_ROUND as int);
    assert(none + rest + others =~= rest + others);
}

/// A round whose scan meets every entry leaves over what `left_over` says.
pub proof fn whole_scan_leaves_left_over(entries: Seq<Entry>)
    ensures
        met(entries, entries.len()) == entries,
        left_after(entries, entries.len()) == left_over(entries, MAX_CHUNKS_PER_ROUND as int),
{
    assert(met(entries, entries.len()) =~= entries);
    assert(left_after(entries, entries.len()) =~= left_over(entries, MAX_CHUNKS_PER_ROUND as int));
}

/// A round that leaves work for another one leaves less of it.
pub proof fn unfinished_round_progresses(entries: Seq<Entry>)
    ensures
        round(entries).incomplete ==> 0 <= outstanding(
            left_over(entries, MAX_CHUNKS_PER_ROUND as int),
        ) < outstanding(entries),
{
    lemma_round_numbers(RoundModel::empty(), entries);
    lemma_outstanding_nonnegative(left_over(entries, MAX_CHUNKS_PER_ROUND as int));
}

/// What is left after a whole run.
pub open spec fn run_left(entries: Seq<Entry>) -> Seq<Entry>
    decreases outstanding(entries),
{
    let rest = left_over(entries, MAX_CHUNKS_PER_ROUND as int);
    if round(entries).incomplete {
        proof {
            unfinished_round_progresses(entries);
        }
        run_left(rest)
    } else {
        rest
    }
}

/// The chunks that a whole run deletes.
pub open spec fn run_deleted(entries: Seq<Entry>) -> Set<(InodeId, int)>
    decreases outstanding(entries),
{
    let deleted = all_deleted_chunks(round(entries).updates);
    if round(entries).incomplete {
        proof {
            unfinished_round_progresses(entries);
        }
        deleted.union(run_deleted(left_over(entries, MAX_CHUNKS_PER_ROUND as int)))
    } else {
        deleted
    }
}

/// The rounds of a whole run.
pub open spec fn run_rounds(entries: Seq<Entry>) -> int
    decreases outstanding(entries),
{
    if round(entries).incomplete {
        proof {
            unfinished_round_progresses(entries);
        }
        1 + run_rounds(left_over(entries, MAX_CHUNKS_PER_ROUND as int))
    } else {
        1
    }
}

/// A run leaves no tombstone behind.
pub proof fn run_clears_tombstones(entries: Seq<Entry>)
    ensures
        !has_tombstone(run_left(entries)),
    decreases outstanding(entries),
{
    if round(entries).incomplete {
        unfinished_round_progresses(entries);
        run_clears_tombstones(left_over(entries, MAX_CHUNKS_PER_ROUND as int));
    } else {
        finished_round_clears_its_scan(entries);
    }
}

proof fn lemma_no_tombstone_no_chunks(entries: Seq<Entry>)
    requires
        !has_tombstone(entries),
    ensures
        all_chunks(entries) == Set::<(InodeId, int)>::empty(),
{
    assert forall|c: (InodeId, int)| !all_chunks(entries).contains(c) by {
        if all_chunks(entries).contains(c) {
            let i = choose|i: int|
                0 <= i < entries.len() && #[trigger] entries[i].chunks().contains(c);
            assert(entries[i] is Tombstone);
        }
    }
    assert(all_chunks(entries) =~= Set::<(InodeId, int)>::empty());
}

/// A run deletes every chunk of every deleted file, and no other chunk.
pub proof fn run_deletes_exactly_the_dead_chunks(entries: Seq<Entry>)
    ensures
        run_deleted(entries) == all_chunks(entries),
    decreases outstanding(entries),
{
    let rest = left_over(entries, MAX_CHUNKS_PER_ROUND as int);
    round_accounts_for_every_chunk(entries);
    if round(entries).incomplete {
        unfinished_round_progresses(entries);
        run_deletes_exactly_the_dead_chunks(rest);
    } else {
        finished_round_clears_its_scan(entries);
        lemma_no_tombstone_no_chunks(rest);
        assert(run_deleted(entries) =~= all_chunks(entries));
    }
}

/// A run ends: with `n` chunks to delete it takes at most one round more than fit `n` into
/// whole budgets.
pub proof fn run_takes_few_rounds(entries: Seq<Entry>)
    ensures
        1 <= run_rounds(entries) <= outstanding(entries) / (MAX_CHUNKS_PER_ROUND as int) + 1,
    decreases outstanding(entries),
{
    lemma_outstanding_nonnegative(entries);
    if round(entries).incomplete {
        unfinished_round_progresses(entries);
        unfinished_round_spends_its_budget(entries);
        round_reduces_outstanding(entries);
        run_takes_few_rounds(left_over(entries, MAX_CHUNKS_PER_ROUND as int));
    }
}

/// The chunks and the completed tombstones that a whole run counts.
pub open spec fn run_counts(entries: Seq<Entry>) -> (int, int)
    decreases outstanding(entries),
{
    let r = round(entries);
    if r.incomplete {
        proof {
            unfinished_round_progresses(entries);
        }
        let (chunks, tombstones) = run_counts(left_over(entries, MAX_CHUNKS_PER_ROUND as int));
        (r.deleted + chunks, r.completed + tombstones)
    } else {
        (r.deleted, r.completed)
    }
}

/// A run counts every chunk of every deleted file, and every tombstone that had chunks.
pub proof fn run_counts_everything(entries: Seq<Entry>)
    ensures
        run_counts(entries) == (outstanding(entries), unfinished(entries)),
    decreases outstanding(entries),
{
    let rest = left_over(entries, MAX_CHUNKS_PER_ROUND as int);
    round_reduces_outstanding(entries);
    round_counts_completed_tombstones(entries);
    if round(entries).incomplete {
        unfinished_round_progresses(entries);
        run_counts_everything(rest);
    } else {
        finished_round_clears_its_scan(entries);
        lemma_no_tombstone_counts(rest);
    }
}

/// The entries that are not tombstones, in order.
pub open spec fn others(entries: Seq<Entry>) -> Seq<Entry>
    decreases entries.len(),
{
    if entries.len() == 0 {
        Seq::empty()
    } else if entries[0] is Other {
        seq![entries[0]] + others(entries.drop_first())
    } else {
        others(entries.drop_first())
    }
}

proof fn lemma_others_concat(a: Seq<Entry>, b: Seq<Entry>)
    ensures
        others(a + b) == others(a) + others(b),
    decreases a.len(),
{
    if a.len() == 0 {
        assert(a + b =~= b);
        assert(others(a) + others(b) =~= others(b));
    } else {
        assert((a + b).drop_first() =~= a.drop_first() + b);
        assert((a + b)[0] == a[0]);
        lemma_others_concat(a.drop_first(), b);
        assert(others(a + b) =~= others(a) + others(b));
    }
}

proof fn lemma_others_contains(entries: Seq<Entry>, e: Entry)
    requires
        e is Other,
        entries.contains(e),
    ensures
        others(entries).contains(e),
    decreases entries.len(),
{
    let i = choose|i: int| 0 <= i < entries.len() && entries[i] == e;
    let rest = others(entries.drop_first());
    if i == 0 {
        assert(others(entries)[0] == e);
    } else {
        assert(entries.drop_first()[i - 1] == e);
        lemma_others_contains(entries.drop_first(), e);
        let k = choose|k: int| 0 <= k < rest.len() && rest[k] == e;
        if entries[0] is Other {
            assert(others(entries)[k + 1] == e);
        }
    }
}

proof fn lemma_others_without_tombstone(entries: Seq<Entry>)
    requires
        !has_tombstone(entries),
    ensures
        others(entries) == entries,
    decreases entries.len(),
{
    if entries.len() > 0 {
        let rest = entries.drop_first();
        assert(!(entries[0] is Tombstone));
        assert forall|i: int| 0 <= i < rest.len() implies !(#[trigger] rest[i] is Tombstone) by {
            assert(rest[i] == entries[i + 1]);
        }
        lemma_others_without_tombstone(rest);
        assert(seq![entries[0]] + rest =~= entries);
    }
}

proof fn lemma_others_left_over(entries: Seq<Entry>, budget: int)
    ensures
        others(left_over(entries, budget)) == others(entries),
    decreases entries.len(),
{
    if entries.len() > 0 && budget > 0 {
        let e = entries[0];
        let rest = entries.drop_first();
        let total = e.chunk_total();
        let quota = if total <= budget {
            total
        } else {
            budget
        };
        let head = remnant(e, quota);
        let tail = left_over(rest, budget - quota);
        lemma_others_left_over(rest, budget - quota);
        lemma_others_concat(head, tail);
        if head.len() == 1 {
            assert(head.drop_first() =~= Seq::<Entry>::empty());
            assert(others(head.drop_first()) =~= Seq::<Entry>::empty());
        }
        assert(others(left_over(entries, budget)) =~= others(entries));
    }
}

/// Rounds keep the entries that are not tombstones, as they are and in order, however many
/// entries their scans met.
pub proof fn rounds_keep_other_entries(entries: Seq<Entry>, scans: Seq<nat>)
    ensures
        others(rounds_left(entries, scans)) == others(entries),
    decreases scans.len(),
{
    if scans.len() > 0 {
        let part = met(entries, scans[0]);
        let unseen = unmet(entries, scans[0]);
        let rest = left_over(part, MAX_CHUNKS_PER_ROUND as int);
        assert(part + unseen =~= entries);
        lemma_others_left_over(part, MAX_CHUNKS_PER_ROUND as int);
        lemma_others_concat(part, unseen);
        lemma_others_concat(rest, unseen);
        rounds_keep_other_entries(left_after(entries, scans[0]), scans.drop_first());
    }
}

proof fn lemma_run_leaves_others(entries: Seq<Entry>)
    ensures
        run_left(entries) == others(entries),
    decreases outstanding(entries),
{
    let rest = left_over(entries, MAX_CHUNKS_PER_ROUND as int);
    lemma_others_left_over(entries, MAX_CHUNKS_PER_ROUND as int);
    if round(entries).incomplete {
        unfinished_round_progresses(entries);
        lemma_run_leaves_others(rest);
    } else {
        finished_round_clears_its_scan(entries);
        lemma_others_without_tombstone(rest);
    }
}

/// A run leaves exactly the entries that are not tombstones, in order: each of them is kept.
pub proof fn run_keeps_other_entries(entries: Seq<Entry>, e: Entry)
    ensures
        run_left(entries) == others(entries),
        e is Other && entries.contains(e) ==> run_left(entries).contains(e),
{
    lemma_run_leaves_others(entries);
    if e is Other && entries.contains(e) {
        lemma_others_contains(entries, e);
    }
}

proof fn lemma_idle_round(r: RoundModel, entries: Seq<Entry>)
    requires
        !has_tombstone(entries),
        0 < r.remaining,
    ensures
        round_over(r, entries) == r,
    decreases entries.len(),
{
    if entries.len() > 0 {
        let rest = entries.drop_first();
        assert(!(entries[0] is Tombstone));
        assert forall|i: int| 0 <= i < rest.len() implies !(#[trigger] rest[i] is Tombstone) by {
            assert(rest[i] == entries[i + 1]);
        }
        lemma_idle_round(r, rest);
    }
}

/// A round over a scan without tombstones does nothing, and so does the run, which ends with it.
pub proof fn run_without_tombstones_does_nothing(entries: Seq<Entry>)
    requires
        !has_tombstone(entries),
    ensures
        round(entries) == RoundModel::empty(),
        run_rounds(entries) == 1,
        run_left(entries) == entries,
        run_deleted(entries) == Set::<(InodeId, int)>::empty(),
        run_counts(entries) == (0int, 0int),
{
    lemma_idle_round(RoundModel::empty(), entries);
    lemma_run_leaves_others(entries);
    lemma_others_without_tombstone(entries);
    run_deletes_exactly_the_dead_chunks(entries);
    lemma_no_tombstone_no_chunks(entries);
}

/// A second run finds nothing to do.
pub proof fn second_run_does_nothing(entries: Seq<Entry>)
    ensures
        round(run_left(entries)) == RoundModel::empty(),
        run_left(run_left(entries)) == run_left(entries),
{
    run_clears_tombstones(entries);
    run_without_tombstones_does_nothing(run_left(entries));
}

/// A tombstone stands for the chunks of its own inode that begin before the end of the file, and
/// for no others. Any other entry stands for none.
pub proof fn tombstone_stands_for_the_chunks_of_its_file(e: Entry, c: (InodeId, int))
    ensures
        e.chunks().contains(c) <==> (e matches Entry::Tombstone { inode_id, size, .. } && c.0
            == inode_id && 0 <= c.1 && c.1 * 262144 < size),
{
    if let Entry::Tombstone { inode_id, size, .. } = e {
        let total = chunk_count(size as int);
        chunks_just_hold_the_file(size as int);
        if c.0 == inode_id && 0 <= c.1 {
            if c.1 < total {
                assert(c.1 * 262144 + 262144 <= total * 262144);
            } else {
                assert(total * 262144 <= c.1 * 262144);
            }
        }
    }
}

/// A round deletes every chunk there is to delete, up to ten thousand.
pub proof fn round_deletes_as_much_as_it_may(entries: Seq<Entry>)
    ensures
        round(entries).deleted == if outstanding(entries) <= 10_000 {
            outstanding(entries)
        } else {
            10_000
        },
{
    let rest = left_over(entries, MAX_CHUNKS_PER_ROUND as int);
    lemma_round_numbers(RoundModel::empty(), entries);
    lemma_outstanding_nonnegative(rest);
    if !round(entries).incomplete {
        lemma_no_tombstone_counts(rest);
    }
}

} // verus!
