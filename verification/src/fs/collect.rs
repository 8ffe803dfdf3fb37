//! Whole rounds and runs of garbage collection, over a store whose replies are at hand.
//!
//! `collect_round` takes the steps of a `GcRound` in order, and `collect` the rounds of a run.
//! Both note the requests that they make.

use vstd::prelude::*;

use super::errors::FsError;
use super::failures::{
    calls_for_deletion, lemma_append, lemma_scan, lemma_single, round_fails_with_its_last_request,
    round_replies, round_result, rounds_counted, run_counted, run_replies, run_result,
    scan_replies, scan_result, some_failed, yielded, Replies,
};
use super::gc::{
    chunk_count, chunk_keys, copy_bytes, GcRound, RoundModel, ScannedEntry, TombstoneWrite,
    UpdateModel, WriteModel, MAX_CHUNKS_PER_ROUND,
};
use super::inode::InodeId;
use super::key_codec::{chunk_key_bytes, chunk_key_layout, number_at, PREFIX_CHUNK};
use super::metrics::FileSystemStats;
use super::ops::ZeroFS;
use super::reclaim::{
    all_chunks, all_deleted_chunks, deleted_chunks, left_over, lemma_all_deleted_push,
    lemma_left_over_stems, lemma_sizes, outstanding, round, round_keeps_to_its_budget, round_over,
    run_counts, run_counts_everything, run_deleted, run_deletes_exactly_the_dead_chunks,
    shrunk_from, stems_from, tombstone_stands_for_the_chunks_of_its_file, unfinished,
    unfinished_round_progresses, visited, Entry,
};

verus! {

/// A request to the store.
pub enum Request {
    /// Open a scan of the tombstones.
    OpenScan,
    /// Delete these chunks.
    DeleteChunks { keys: Vec<Vec<u8>> },
    /// Rewrite tombstones, all at once.
    RewriteTombstones { writes: Vec<TombstoneWrite> },
}

/// Model of a `Request`.
pub enum RequestModel {
    OpenScan,
    DeleteChunks { keys: Seq<Seq<u8>> },
    RewriteTombstones { writes: Seq<WriteModel> },
}

impl View for Request {
    type V = RequestModel;

    open spec fn view(&self) -> RequestModel {
        match self {
            Request::OpenScan => RequestModel::OpenScan,
            Request::DeleteChunks { keys } => RequestModel::DeleteChunks {
                keys: keys@.map_values(|k: Vec<u8>| k@),
            },
            Request::RewriteTombstones { writes } => RequestModel::RewriteTombstones {
                writes: writes@.map_values(|w: TombstoneWrite| w@),
            },
        }
    }
}

/// The models of requests.
pub open spec fn sent(requests: Seq<Request>) -> Seq<RequestModel> {
    requests.map_values(|r: Request| r@)
}

/// What a scan yields: a key with what is found under it, or an error.
pub type ScanItem = Result<(Vec<u8>, ScannedEntry), ()>;

/// How a store answers the requests of one round.
pub struct RoundReplies {
    /// To the opening of the scan.
    pub scan: Result<(), ()>,
    /// What the scan yields, item by item.
    pub items: Vec<ScanItem>,
    /// To the deletion that the item with this index calls for. Those past the end succeed.
    pub deletions: Vec<Result<(), ()>>,
    /// To the batch that ends the round.
    pub batch: Result<(), ()>,
}

/// Model of an entry that a scan finds under `key`.
pub open spec fn entry_of(key: Seq<u8>, found: ScannedEntry) -> Entry {
    match found {
        ScannedEntry::Other => Entry::Other { key },
        ScannedEntry::Tombstone { inode_id, size } => Entry::Tombstone {
            key,
            inode_id,
            size: size as nat,
        },
    }
}

/// Model of what a scan yields.
pub open spec fn item_of(item: ScanItem) -> Result<Entry, ()> {
    match item {
        Ok((key, found)) => Ok(entry_of(key@, found)),
        Err(_) => Err(()),
    }
}

impl View for RoundReplies {
    type V = Replies;

    open spec fn view(&self) -> Replies {
        Replies {
            scan: self.scan,
            items: self.items@.map_values(|item: ScanItem| item_of(item)),
            deletions: |i: int|
                if 0 <= i < self.deletions@.len() {
                    self.deletions@[i]
                } else {
                    Ok(())
                },
            batch: self.batch,
        }
    }
}

/// The request that a tombstone with chunks left calls for: to delete its last chunks, as many as
/// round `r` may.
pub open spec fn deletion_request(r: RoundModel, e: Entry) -> RequestModel {
    match e {
        Entry::Other { .. } => RequestModel::DeleteChunks { keys: Seq::empty() },
        Entry::Tombstone { inode_id, size, .. } => RequestModel::DeleteChunks {
            keys: chunk_keys(
                inode_id,
                chunk_count(size as int) - r.quota(size as int),
                chunk_count(size as int),
            ),
        },
    }
}

/// The requests that round `r` makes from item `from` of its scan on, up to the end of the scan.
pub open spec fn scan_requests(r: RoundModel, p: Replies, from: nat) -> Seq<RequestModel>
    decreases p.items.len() - from,
{
    if from >= p.items.len() {
        Seq::empty()
    } else {
        match p.items[from as int] {
            Err(_) => Seq::empty(),
            Ok(e) => if r.remaining <= 0 {
                Seq::empty()
            } else if calls_for_deletion(e) {
                if (p.deletions)(from as int) is Err {
                    seq![deletion_request(r, e)]
                } else {
                    seq![deletion_request(r, e)] + scan_requests(visited(r, e), p, from + 1)
                }
            } else {
                scan_requests(visited(r, e), p, from + 1)
            },
        }
    }
}

/// The requests that a round makes, in order.
pub open spec fn round_requests(p: Replies) -> Seq<RequestModel> {
    if p.scan is Err {
        seq![RequestModel::OpenScan]
    } else {
        let scanned = seq![RequestModel::OpenScan] + scan_requests(RoundModel::empty(), p, 0);
        match scan_result(RoundModel::empty(), p, 0) {
            Err(_) => scanned,
            Ok(r) => if r.updates.len() > 0 {
                scanned + seq![RequestModel::RewriteTombstones { writes: r.writes() }]
            } else {
                scanned
            },
        }
    }
}

/// The requests that a run makes, in order.
pub open spec fn run_requests(rounds: Seq<Replies>) -> Seq<RequestModel>
    decreases rounds.len(),
{
    if rounds.len() == 0 {
        Seq::empty()
    } else {
        match round_result(rounds[0]) {
            Err(_) => round_requests(rounds[0]),
            Ok(r) => if r.incomplete {
                round_requests(rounds[0]) + run_requests(rounds.drop_first())
            } else {
                round_requests(rounds[0])
            },
        }
    }
}

/// The reply to the deletion that item `i` calls for.
fn deletion_reply(replies: &RoundReplies, i: usize) -> (reply: Result<(), ()>)
    ensures
        reply == (replies@.deletions)(i as int),
{
    if i < replies.deletions.len() {
        replies.deletions[i]
    } else {
        Ok(())
    }
}

/// What the scan yields next, when it has yielded `i` items.
fn scan_item(replies: &RoundReplies, i: usize) -> (item: Option<ScanItem>)
    ensures
        item is Some <==> i < replies.items@.len(),
        item matches Some(item) ==> item_of(item) == replies@.items[i as int],
{
    if i < replies.items.len() {
        match &replies.items[i] {
            Ok((key, found)) => Some(Ok((copy_bytes(key), *found))),
            Err(_) => Some(Err(())),
        }
    } else {
        None
    }
}

/// Goes through the scan of a round and makes the deletions it calls for.
fn collect_scan(replies: &RoundReplies, round: &mut GcRound, requests: &mut Vec<Request>) -> (result:
    Result<(), FsError>)
    requires
        old(round).wf(),
        old(round)@.pending is None,
    ensures
        match scan_result(old(round)@, replies@, 0) {
            Ok(end) => {
                &&& result is Ok
                &&& final(round).wf()
                &&& final(round)@ == end
                &&& end.pending is None
            },
            Err(e) => result == Err::<(), FsError>(e),
        },
        sent(final(requests)@) == sent(old(requests)@) + scan_requests(old(round)@, replies@, 0),
{
    let ghost p = replies@;
    let ghost start = round@;
    let ghost before = sent(requests@);
    let mut i: usize = 0;
    let mut over = false;
    while !over
        invariant
            p == replies@,
            p.items.len() == replies.items@.len(),
            start == old(round)@,
            before == sent(old(requests)@),
            i <= replies.items@.len(),
            round.wf(),
            round@.pending is None,
            over ==> {
                &&& scan_result(start, p, 0) == Ok::<RoundModel, FsError>(round@)
                &&& before + scan_requests(start, p, 0) == sent(requests@)
            },
            !over ==> {
                &&& scan_result(start, p, 0) == scan_result(round@, p, i as nat)
                &&& before + scan_requests(start, p, 0) == sent(requests@) + scan_requests(
                    round@,
                    p,
                    i as nat,
                )
            },
        decreases replies.items@.len() - i + (if over { 0int } else { 1 }),
    {
        let ghost here = round@;
        let ghost rest = scan_requests(here, p, i as nat);
        let ghost so_far = sent(requests@);
        match round.next_entry(scan_item(replies, i)) {
            None => {
                assert(so_far + rest =~= so_far);
                over = true;
            },
            Some((key, found)) => {
                let ghost e = entry_of(key@, found);
                assert(p.items[i as int] == Ok::<Entry, ()>(e));
                match round.visit(key, found) {
                    None => {
                        assert(!calls_for_deletion(e));
                    },
                    Some(keys) => {
                        let ghost request = deletion_request(here, e);
                        requests.push(Request::DeleteChunks { keys });
                        assert(sent(requests@) =~= so_far.push(request));
                        let reply = deletion_reply(replies, i);
                        assert(so_far + seq![request] =~= so_far.push(request));
                        if let Err(e) = round.record_deleted(reply) {
                            return Err(e);
                        }
                        let ghost later = scan_requests(visited(here, e), p, (i + 1) as nat);
                        assert(so_far + (seq![request] + later) =~= so_far.push(request) + later);
                    },
                }
                assert(round@ == visited(here, e));
                assert(i < replies.items.len());
                i = i + 1;
            },
        }
    }
    Ok(())
}

/// Makes all requests of one round, given how they are answered, and notes them. Returns whether
/// another round is due, or the error that ends the run. If no request fails, the round is
/// `round` over the entries that the scan yields.
pub fn collect_round(
    replies: &RoundReplies,
    fresh: GcRound,
    requests: &mut Vec<Request>,
    stats: &mut FileSystemStats,
) -> (again: Result<bool, FsError>)
    requires
        fresh.wf(),
        fresh@ == RoundModel::empty(),
    ensures
        match round_result(replies@) {
            Ok(end) => {
                &&& again == Ok::<bool, FsError>(end.incomplete)
                &&& *final(stats) == end.counted_in(*old(stats))
            },
            Err(e) => {
                &&& again == Err::<bool, FsError>(e)
                &&& *final(stats) == *old(stats)
            },
        },
        !some_failed(round_replies(replies@)) ==> {
            let end = round(yielded(replies@.items, 0));
            &&& again == Ok::<bool, FsError>(end.incomplete)
            &&& *final(stats) == end.counted_in(*old(stats))
        },
        sent(final(requests)@) == sent(old(requests)@) + round_requests(replies@),
{
    let ghost p = replies@;
    let ghost before = sent(requests@);
    proof {
        round_fails_with_its_last_request(p);
    }
    requests.push(Request::OpenScan);
    let ghost opened = before + seq![RequestModel::OpenScan];
    assert(sent(requests@) =~= opened);
    if let Err(e) = GcRound::scan_opened(replies.scan) {
        return Err(e);
    }
    let mut round = fresh;
    let scanned = collect_scan(replies, &mut round, requests);
    let ghost scan = scan_requests(RoundModel::empty(), p, 0);
    assert(opened + scan =~= before + (seq![RequestModel::OpenScan] + scan));
    if let Err(e) = scanned {
        return Err(e);
    }
    let write = match round.batch() {
        Some(writes) => {
            let ghost earlier = sent(requests@);
            let ghost request = RequestModel::RewriteTombstones { writes: round@.writes() };
            requests.push(Request::RewriteTombstones { writes });
            assert(sent(requests@) =~= earlier.push(request));
            assert(earlier.push(request) =~= before + (seq![RequestModel::OpenScan] + scan + seq![
                request,
            ]));
            replies.batch
        },
        None => Ok(()),
    };
    round.finish(write, stats)
}

/// Makes all requests of a run, given how those of each round are answered. Returns what the run
/// comes to, or `None` if it is not over after these rounds, and the requests in order.
pub fn collect(fs: &mut ZeroFS, rounds: &Vec<RoundReplies>) -> (run: (
    Option<Result<(), FsError>>,
    Vec<Request>,
))
    ensures
        ({
            let replies = rounds@.map_values(|r: RoundReplies| r@);
            &&& run.0 == run_result(replies)
            &&& sent(run.1@) == run_requests(replies)
            &&& *final(fs) == (ZeroFS {
                stats: run_counted(old(fs).stats, replies),
                ..*old(fs)
            })
        }),
{
    let ghost replies = rounds@.map_values(|r: RoundReplies| r@);
    let mut requests: Vec<Request> = Vec::new();
    let mut round = fs.run_garbage_collection();
    let mut i: usize = 0;
    assert(replies.skip(0) =~= replies);
    assert(sent(requests@) + run_requests(replies) =~= run_requests(replies));
    while i < rounds.len()
        invariant
            replies == rounds@.map_values(|r: RoundReplies| r@),
            i <= rounds@.len(),
            round.wf(),
            round@ == RoundModel::empty(),
            fs.next_inode_id == old(fs).next_inode_id,
            run_result(replies) == run_result(replies.skip(i as int)),
            run_requests(replies) == sent(requests@) + run_requests(replies.skip(i as int)),
            run_counted(old(fs).stats, replies) == rounds_counted(
                fs.stats,
                replies.skip(i as int),
            ),
        decreases rounds@.len() - i,
    {
        let ghost left = replies.skip(i as int);
        let ghost so_far = sent(requests@);
        assert(left[0] == rounds@[i as int]@);
        assert(left.drop_first() =~= replies.skip(i + 1));
        let again = collect_round(&rounds[i], round, &mut requests, &mut fs.stats);
        match again {
            Err(e) => return (Some(Err(e)), requests),
            Ok(false) => return (Some(Ok(())), requests),
            Ok(true) => {
                let ghost made = round_requests(left[0]);
                let ghost later = run_requests(left.drop_first());
                assert(so_far + (made + later) =~= so_far + made + later);
                round = GcRound::new();
                i = i + 1;
            },
        }
    }
    assert(replies.skip(i as int).len() == 0);
    assert(sent(requests@) + run_requests(replies.skip(i as int)) =~= sent(requests@));
    (None, requests)
}

proof fn lemma_scan_requests_are_answered(r: RoundModel, p: Replies, from: nat)
    ensures
        scan_requests(r, p, from).len() == scan_replies(r, p, from).len(),
    decreases p.items.len() - from,
{
    if from < p.items.len() {
        if let Ok(e) = p.items[from as int] {
            lemma_scan_requests_are_answered(visited(r, e), p, from + 1);
        }
    }
}

/// The replies that a run gets are one to each request that it makes.
pub proof fn every_request_is_answered(rounds: Seq<Replies>)
    ensures
        run_requests(rounds).len() == run_replies(rounds).len(),
    decreases rounds.len(),
{
    if rounds.len() > 0 {
        lemma_scan_requests_are_answered(RoundModel::empty(), rounds[0], 0);
        every_request_is_answered(rounds.drop_first());
    }
}

/// Whether one of the requests is to delete `key`.
pub open spec fn asks_to_delete(requests: Seq<RequestModel>, key: Seq<u8>) -> bool {
    exists|n: int|
        0 <= n < requests.len() && (#[trigger] requests[n] matches RequestModel::DeleteChunks {
            keys,
        } && keys.contains(key))
}

/// Whether chunk `index` belongs to the file of tombstone `j`: it begins before the end of that
/// file.
pub open spec fn dead_chunk(entries: Seq<Entry>, j: int, index: int) -> bool {
    &&& 0 <= j < entries.len()
    &&& entries[j] matches Entry::Tombstone { size, .. }
    &&& 0 <= index
    &&& index * 262144 < size
}

/// Whether `key` is the key of a chunk of a deleted file.
pub open spec fn is_dead_key(entries: Seq<Entry>, key: Seq<u8>) -> bool {
    exists|j: int, index: int|
        #[trigger] dead_chunk(entries, j, index) && key == chunk_key_bytes(
            entries[j]->Tombstone_inode_id,
            index as u64,
        )
}

/// Whether every recorded size is one that a file can have.
pub open spec fn sizes_fit(entries: Seq<Entry>) -> bool {
    forall|j: int|
        0 <= j < entries.len() ==> (#[trigger] entries[j] matches Entry::Tombstone { size, .. }
            ==> size <= u64::MAX)
}

/// Whether `key` is that of one of these chunks.
pub open spec fn is_key_of(chunks: Set<(InodeId, int)>, key: Seq<u8>) -> bool {
    exists|c: (InodeId, int)| #[trigger]
        chunks.contains(c) && key == chunk_key_bytes(c.0, c.1 as u64)
}

/// Whether a run of these rounds goes through the tombstones that a store holds: no request
/// fails, the first scan yields `entries`, and each further one what the round before has left.
pub open spec fn runs_over(rounds: Seq<Replies>, entries: Seq<Entry>) -> bool
    decreases rounds.len(),
{
    &&& rounds.len() > 0
    &&& !some_failed(round_replies(rounds[0]))
    &&& yielded(rounds[0].items, 0) == entries
    &&& round(entries).incomplete ==> runs_over(
        rounds.drop_first(),
        left_over(entries, MAX_CHUNKS_PER_ROUND as int),
    )
}

proof fn lemma_asks_concat(a: Seq<RequestModel>, b: Seq<RequestModel>, key: Seq<u8>)
    ensures
        asks_to_delete(a + b, key) <==> asks_to_delete(a, key) || asks_to_delete(b, key),
{
    let ab = a + b;
    if asks_to_delete(a, key) {
        let n = choose|n: int|
            0 <= n < a.len() && (#[trigger] a[n] matches RequestModel::DeleteChunks { keys }
                && keys.contains(key));
        assert(ab[n] == a[n]);
    }
    if asks_to_delete(b, key) {
        let n = choose|n: int|
            0 <= n < b.len() && (#[trigger] b[n] matches RequestModel::DeleteChunks { keys }
                && keys.contains(key));
        assert(ab[a.len() + n] == b[n]);
    }
    if asks_to_delete(ab, key) {
        let n = choose|n: int|
            0 <= n < ab.len() && (#[trigger] ab[n] matches RequestModel::DeleteChunks { keys }
                && keys.contains(key));
        if n < a.len() {
            assert(a[n] == ab[n]);
        } else {
            assert(b[n - a.len()] == ab[n]);
        }
    }
}

proof fn lemma_asks_single(request: RequestModel, key: Seq<u8>)
    ensures
        asks_to_delete(seq![request], key) <==> (request matches RequestModel::DeleteChunks { keys }
            && keys.contains(key)),
{
    assert(seq![request][0] == request);
}

/// The keys of a deletion are those of the chunks that the decision about the tombstone deletes.
proof fn lemma_deletion_keys(r: RoundModel, e: Entry, key: Seq<u8>)
    requires
        calls_for_deletion(e),
        e->Tombstone_size <= u64::MAX,
        0 < r.remaining,
        r.pending is None,
    ensures
        ({
            let u = visited(r, e).updates.last();
            &&& visited(r, e).updates == r.updates.push(u)
            &&& asks_to_delete(seq![deletion_request(r, e)], key) <==> is_key_of(
                deleted_chunks(u),
                key,
            )
        }),
{
    let size = e->Tombstone_size as int;
    let inode_id = e->Tombstone_inode_id;
    let total = chunk_count(size);
    let quota = r.quota(size);
    let u = visited(r, e).updates.last();
    let keys = chunk_keys(inode_id, total - quota, total);
    assert(total == (size + 262143) / 262144);
    lemma_sizes(size, quota);
    lemma_asks_single(deletion_request(r, e), key);
    assert(visited(r, e).updates =~= r.updates.push(u));
    assert(u.inode_id == inode_id && u.start_chunk == total - quota && u.old_size == size);
    if keys.contains(key) {
        let i = choose|i: int| 0 <= i < keys.len() && keys[i] == key;
        let c = (inode_id, total - quota + i);
        assert(deleted_chunks(u).contains(c));
    }
    if is_key_of(deleted_chunks(u), key) {
        let c = choose|c: (InodeId, int)| #[trigger]
            deleted_chunks(u).contains(c) && key == chunk_key_bytes(c.0, c.1 as u64);
        assert(keys[c.1 - (total - quota)] == key);
    }
}

proof fn lemma_key_of_more(updates: Seq<UpdateModel>, u: UpdateModel, key: Seq<u8>)
    ensures
        is_key_of(all_deleted_chunks(updates.push(u)), key) <==> is_key_of(
            all_deleted_chunks(updates),
            key,
        ) || is_key_of(deleted_chunks(u), key),
{
    let more = all_deleted_chunks(updates.push(u));
    if is_key_of(more, key) {
        let c = choose|c: (InodeId, int)| #[trigger]
            more.contains(c) && key == chunk_key_bytes(c.0, c.1 as u64);
        lemma_all_deleted_push(updates, u, c);
    }
    if is_key_of(all_deleted_chunks(updates), key) {
        let c = choose|c: (InodeId, int)| #[trigger]
            all_deleted_chunks(updates).contains(c) && key == chunk_key_bytes(c.0, c.1 as u64);
        lemma_all_deleted_push(updates, u, c);
        assert(more.contains(c));
    }
    if is_key_of(deleted_chunks(u), key) {
        let c = choose|c: (InodeId, int)| #[trigger]
            deleted_chunks(u).contains(c) && key == chunk_key_bytes(c.0, c.1 as u64);
        lemma_all_deleted_push(updates, u, c);
        assert(more.contains(c));
    }
}

/// The keys that the rest of a scan asks to delete are those that its decisions account for.
proof fn lemma_scan_keys(r: RoundModel, p: Replies, from: nat, key: Seq<u8>)
    requires
        sizes_fit(yielded(p.items, from)),
        0 <= r.remaining,
        r.pending is None,
        !some_failed(scan_replies(r, p, from)),
    ensures
        is_key_of(all_deleted_chunks(r.updates), key) || asks_to_delete(
            scan_requests(r, p, from),
            key,
        ) <==> is_key_of(
            all_deleted_chunks(round_over(r, yielded(p.items, from)).updates),
            key,
        ),
    decreases p.items.len() - from,
{
    let entries = yielded(p.items, from);
    if from < p.items.len() && p.items[from as int] is Ok {
        let e = p.items[from as int]->Ok_0;
        let rest = yielded(p.items, from + 1);
        assert(entries[0] == e);
        assert(entries.drop_first() =~= rest);
        assert(sizes_fit(rest)) by {
            assert forall|j: int| 0 <= j < rest.len() implies (#[trigger] rest[j]
                matches Entry::Tombstone { size, .. } ==> size <= u64::MAX) by {
                assert(rest[j] == entries[j + 1]);
            }
        }
        if r.remaining > 0 {
            let next = visited(r, e);
            if e is Tombstone {
                lemma_sizes(e->Tombstone_size as int, r.quota(e->Tombstone_size as int));
            }
            if calls_for_deletion(e) {
                let reply = (p.deletions)(from as int);
                lemma_single(reply);
                if reply is Ok {
                    lemma_scan(next, p, from + 1);
                    lemma_append(seq![reply], scan_replies(next, p, from + 1));
                }
                let u = next.updates.last();
                lemma_deletion_keys(r, e, key);
                lemma_key_of_more(r.updates, u, key);
                lemma_asks_concat(
                    seq![deletion_request(r, e)],
                    scan_requests(next, p, from + 1),
                    key,
                );
                lemma_scan_keys(next, p, from + 1, key);
            } else {
                if e is Tombstone {
                    let u = next.updates.last();
                    assert(next.updates =~= r.updates.push(u));
                    assert(u.old_size == 0 && u.start_chunk == 0);
                    assert(chunk_count(0) == 0);
                    lemma_key_of_more(r.updates, u, key);
                }
                lemma_scan_keys(next, p, from + 1, key);
            }
        }
    }
}

proof fn lemma_round_keys(p: Replies, key: Seq<u8>)
    requires
        sizes_fit(yielded(p.items, 0)),
        !some_failed(round_replies(p)),
    ensures
        asks_to_delete(round_requests(p), key) <==> is_key_of(
            all_deleted_chunks(round(yielded(p.items, 0)).updates),
            key,
        ),
{
    let r = RoundModel::empty();
    let scan = scan_replies(r, p, 0);
    lemma_single(p.scan);
    assert(p.scan is Ok);
    lemma_scan(r, p, 0);
    lemma_append(seq![p.scan], scan);
    assert(!some_failed(scan)) by {
        if some_failed(scan) {
            assert(some_failed(seq![p.scan] + scan));
        }
    }
    lemma_scan_keys(r, p, 0, key);
    let asked = scan_requests(r, p, 0);
    let opened = seq![RequestModel::OpenScan];
    lemma_asks_single(RequestModel::OpenScan, key);
    lemma_asks_concat(opened, asked, key);
    let writes = round(yielded(p.items, 0)).writes();
    lemma_asks_single(RequestModel::RewriteTombstones { writes }, key);
    lemma_asks_concat(opened + asked, seq![RequestModel::RewriteTombstones { writes }], key);
    assert(!is_key_of(all_deleted_chunks(r.updates), key));
}

/// A key is that of a recorded chunk exactly if it is that of a chunk of a deleted file.
proof fn lemma_dead_keys(entries: Seq<Entry>, key: Seq<u8>)
    ensures
        is_key_of(all_chunks(entries), key) <==> is_dead_key(entries, key),
{
    if is_key_of(all_chunks(entries), key) {
        let c = choose|c: (InodeId, int)| #[trigger]
            all_chunks(entries).contains(c) && key == chunk_key_bytes(c.0, c.1 as u64);
        let j = choose|j: int| 0 <= j < entries.len() && #[trigger] entries[j].chunks().contains(c);
        tombstone_stands_for_the_chunks_of_its_file(entries[j], c);
        assert(dead_chunk(entries, j, c.1));
    }
    if is_dead_key(entries, key) {
        let (j, index) = choose|j: int, index: int|
            #[trigger] dead_chunk(entries, j, index) && key == chunk_key_bytes(
                entries[j]->Tombstone_inode_id,
                index as u64,
            );
        let c = (entries[j]->Tombstone_inode_id, index);
        tombstone_stands_for_the_chunks_of_its_file(entries[j], c);
        assert(entries[j].chunks().contains(c));
        assert(all_chunks(entries).contains(c));
    }
}

proof fn lemma_left_over_fits(entries: Seq<Entry>)
    requires
        sizes_fit(entries),
    ensures
        sizes_fit(left_over(entries, MAX_CHUNKS_PER_ROUND as int)),
{
    let rest = left_over(entries, MAX_CHUNKS_PER_ROUND as int);
    lemma_left_over_stems(entries, MAX_CHUNKS_PER_ROUND as int);
    assert forall|j: int| 0 <= j < rest.len() implies (#[trigger] rest[j]
        matches Entry::Tombstone { size, .. } ==> size <= u64::MAX) by {
        assert(stems_from(rest[j], entries));
        let i = choose|i: int| 0 <= i < entries.len() && shrunk_from(rest[j], #[trigger] entries[i]);
        assert(entries[i] matches Entry::Tombstone { size, .. } ==> size <= u64::MAX);
    }
}

proof fn lemma_run_keys(rounds: Seq<Replies>, entries: Seq<Entry>, key: Seq<u8>)
    requires
        sizes_fit(entries),
        runs_over(rounds, entries),
    ensures
        asks_to_delete(run_requests(rounds), key) <==> is_key_of(run_deleted(entries), key),
    decreases rounds.len(),
{
    let here = all_deleted_chunks(round(entries).updates);
    round_fails_with_its_last_request(rounds[0]);
    lemma_round_keys(rounds[0], key);
    if round(entries).incomplete {
        let rest = left_over(entries, MAX_CHUNKS_PER_ROUND as int);
        unfinished_round_progresses(entries);
        lemma_left_over_fits(entries);
        lemma_run_keys(rounds.drop_first(), rest, key);
        lemma_asks_concat(round_requests(rounds[0]), run_requests(rounds.drop_first()), key);
        let all = run_deleted(entries);
        assert(all == here.union(run_deleted(rest)));
        if is_key_of(all, key) {
            let c = choose|c: (InodeId, int)| #[trigger]
                all.contains(c) && key == chunk_key_bytes(c.0, c.1 as u64);
            if here.contains(c) {
                assert(is_key_of(here, key));
            } else {
                assert(run_deleted(rest).contains(c));
            }
        }
        if is_key_of(here, key) {
            let c = choose|c: (InodeId, int)| #[trigger]
                here.contains(c) && key == chunk_key_bytes(c.0, c.1 as u64);
            assert(all.contains(c));
        }
        if is_key_of(run_deleted(rest), key) {
            let c = choose|c: (InodeId, int)| #[trigger]
                run_deleted(rest).contains(c) && key == chunk_key_bytes(c.0, c.1 as u64);
            assert(all.contains(c));
        }
    }
}

/// A whole run asks for the deletion of every chunk of every deleted file, and of nothing else:
/// the keys that it asks to delete are those of the chunks that begin before the end of a file
/// that has a tombstone, under that tombstone's own inode id.
pub proof fn run_asks_to_delete_exactly_the_dead_chunks(
    rounds: Seq<Replies>,
    entries: Seq<Entry>,
    key: Seq<u8>,
)
    requires
        sizes_fit(entries),
        runs_over(rounds, entries),
    ensures
        asks_to_delete(run_requests(rounds), key) <==> exists|j: int, index: int|
            #[trigger] dead_chunk(entries, j, index) && key == chunk_key_bytes(
                entries[j]->Tombstone_inode_id,
                index as u64,
            ),
        asks_to_delete(run_requests(rounds), key) <==> exists|c: (InodeId, int)| #[trigger]
            all_chunks(entries).contains(c) && key == chunk_key_bytes(c.0, c.1 as u64),
{
    lemma_run_keys(rounds, entries, key);
    run_deletes_exactly_the_dead_chunks(entries);
    lemma_dead_keys(entries, key);
    assert(is_dead_key(entries, key) == exists|j: int, index: int|
        #[trigger] dead_chunk(entries, j, index) && key == chunk_key_bytes(
            entries[j]->Tombstone_inode_id,
            index as u64,
        ));
}

/// The keys that one round asks to delete are exactly those of the chunks that its decisions
/// account for, if no request fails.
pub proof fn round_asks_to_delete_what_it_decided(p: Replies, key: Seq<u8>)
    requires
        sizes_fit(yielded(p.items, 0)),
        !some_failed(round_replies(p)),
    ensures
        asks_to_delete(round_requests(p), key) <==> exists|c: (InodeId, int)| #[trigger]
            all_deleted_chunks(round(yielded(p.items, 0)).updates).contains(c) && key
                == chunk_key_bytes(c.0, c.1 as u64),
{
    lemma_round_keys(p, key);
}

/// What the rest of a scan asks to delete are chunks of files with a tombstone in it.
proof fn lemma_scan_asks_for_dead_chunks(r: RoundModel, p: Replies, from: nat, key: Seq<u8>)
    requires
        sizes_fit(yielded(p.items, from)),
        0 <= r.remaining,
        r.pending is None,
        asks_to_delete(scan_requests(r, p, from), key),
    ensures
        is_dead_key(yielded(p.items, from), key),
    decreases p.items.len() - from,
{
    let entries = yielded(p.items, from);
    if from < p.items.len() && p.items[from as int] is Ok && r.remaining > 0 {
        let e = p.items[from as int]->Ok_0;
        let rest = yielded(p.items, from + 1);
        let next = visited(r, e);
        assert(entries[0] == e);
        assert forall|j: int| 0 <= j < rest.len() implies #[trigger] rest[j] == entries[j + 1] by {}
        assert(sizes_fit(rest)) by {
            assert forall|j: int| 0 <= j < rest.len() implies (#[trigger] rest[j]
                matches Entry::Tombstone { size, .. } ==> size <= u64::MAX) by {
                assert(rest[j] == entries[j + 1]);
            }
        }
        if e is Tombstone {
            lemma_sizes(e->Tombstone_size as int, r.quota(e->Tombstone_size as int));
        }
        let later = scan_requests(next, p, from + 1);
        if calls_for_deletion(e) {
            let first = seq![deletion_request(r, e)];
            lemma_asks_concat(first, later, key);
            lemma_deletion_keys(r, e, key);
            if asks_to_delete(first, key) {
                let u = next.updates.last();
                let c = choose|c: (InodeId, int)| #[trigger]
                    deleted_chunks(u).contains(c) && key == chunk_key_bytes(c.0, c.1 as u64);
                assert(e.chunks().contains(c));
                tombstone_stands_for_the_chunks_of_its_file(e, c);
                assert(dead_chunk(entries, 0, c.1));
            }
        }
        if !is_dead_key(entries, key) {
            lemma_scan_asks_for_dead_chunks(next, p, from + 1, key);
            let (j, index) = choose|j: int, index: int|
                #[trigger] dead_chunk(rest, j, index) && key == chunk_key_bytes(
                    rest[j]->Tombstone_inode_id,
                    index as u64,
                );
            assert(rest[j] == entries[j + 1]);
            assert(dead_chunk(entries, j + 1, index));
        }
    }
}

/// Whatever fails, a round never asks for the deletion of a chunk of a live file: the key spells
/// the inode id of a tombstone that its scan yielded, and the index of a chunk that begins before
/// the end of that tombstone's file.
pub proof fn round_never_deletes_live_chunks(p: Replies, key: Seq<u8>)
    requires
        sizes_fit(yielded(p.items, 0)),
        asks_to_delete(round_requests(p), key),
    ensures
        key.len() == 17,
        key[0] == PREFIX_CHUNK,
        exists|j: int, index: int|
            {
                &&& #[trigger] dead_chunk(yielded(p.items, 0), j, index)
                &&& number_at(key, 1) == yielded(p.items, 0)[j]->Tombstone_inode_id
                &&& number_at(key, 9) == index
            },
{
    let entries = yielded(p.items, 0);
    let r = RoundModel::empty();
    let asked = scan_requests(r, p, 0);
    let opened = seq![RequestModel::OpenScan];
    lemma_asks_single(RequestModel::OpenScan, key);
    lemma_asks_concat(opened, asked, key);
    if let Ok(end) = scan_result(r, p, 0) {
        let batch = RequestModel::RewriteTombstones { writes: end.writes() };
        lemma_asks_single(batch, key);
        lemma_asks_concat(opened + asked, seq![batch], key);
    }
    lemma_scan_asks_for_dead_chunks(r, p, 0, key);
    let (j, index) = choose|j: int, index: int|
        #[trigger] dead_chunk(entries, j, index) && key == chunk_key_bytes(
            entries[j]->Tombstone_inode_id,
            index as u64,
        );
    assert(entries[j]->Tombstone_size <= u64::MAX);
    chunk_key_layout(entries[j]->Tombstone_inode_id, index as u64);
}

/// Whatever fails, a run never asks for the deletion of a chunk of an inode that has no tombstone
/// in any of its scans.
pub proof fn run_never_deletes_live_chunks(rounds: Seq<Replies>, live: InodeId, index: u64)
    requires
        forall|n: int| 0 <= n < rounds.len() ==> sizes_fit(yielded((#[trigger] rounds[n]).items, 0)),
        forall|n: int, j: int|
            #![trigger yielded(rounds[n].items, 0)[j]]
            0 <= n < rounds.len() && 0 <= j < yielded(rounds[n].items, 0).len() ==> (yielded(
                rounds[n].items,
                0,
            )[j] matches Entry::Tombstone { inode_id, .. } ==> inode_id != live),
    ensures
        !asks_to_delete(run_requests(rounds), chunk_key_bytes(live, index)),
    decreases rounds.len(),
{
    let key = chunk_key_bytes(live, index);
    if rounds.len() > 0 {
        let rest = rounds.drop_first();
        let entries = yielded(rounds[0].items, 0);
        assert(sizes_fit(entries));
        if asks_to_delete(round_requests(rounds[0]), key) {
            round_never_deletes_live_chunks(rounds[0], key);
            chunk_key_layout(live, index);
            let (j, i) = choose|j: int, i: int|
                {
                    &&& #[trigger] dead_chunk(entries, j, i)
                    &&& number_at(key, 1) == entries[j]->Tombstone_inode_id
                    &&& number_at(key, 9) == i
                };
            assert(entries[j] is Tombstone);
        }
        assert forall|n: int| 0 <= n < rest.len() implies sizes_fit(
            yielded((#[trigger] rest[n]).items, 0),
        ) by {
            assert(rest[n] == rounds[n + 1]);
        }
        assert forall|n: int, j: int|
            #![trigger yielded(rest[n].items, 0)[j]]
            0 <= n < rest.len() && 0 <= j < yielded(rest[n].items, 0).len() implies (yielded(
            rest[n].items,
            0,
        )[j] matches Entry::Tombstone { inode_id, .. } ==> inode_id != live) by {
            assert(rest[n] == rounds[n + 1]);
            assert(yielded(rounds[n + 1].items, 0)[j] matches Entry::Tombstone { inode_id, .. }
                ==> inode_id != live);
        }
        run_never_deletes_live_chunks(rest, live, index);
        lemma_asks_concat(round_requests(rounds[0]), run_requests(rest), key);
    } else {
        assert(run_requests(rounds).len() == 0);
    }
}

/// A round opens its scan first and rewrites the tombstones last: no other request is the opening
/// of a scan, and no request follows the rewriting. What it rewrites is what it has decided.
pub proof fn tombstones_are_rewritten_last(p: Replies, k: int)
    requires
        0 <= k < round_requests(p).len(),
    ensures
        round_requests(p)[k] is OpenScan <==> k == 0,
        round_requests(p)[k] is RewriteTombstones ==> k == round_requests(p).len() - 1,
        !some_failed(round_replies(p)) ==> {
            let end = round(yielded(p.items, 0));
            if end.updates.len() > 0 {
                round_requests(p).last() == (RequestModel::RewriteTombstones {
                    writes: end.writes(),
                })
            } else {
                !(round_requests(p).last() is RewriteTombstones)
            }
        },
{
    lemma_scan_asks_for_deletions(RoundModel::empty(), p, 0);
    round_fails_with_its_last_request(p);
}

proof fn lemma_scan_asks_for_deletions(r: RoundModel, p: Replies, from: nat)
    ensures
        forall|k: int|
            0 <= k < scan_requests(r, p, from).len() ==> #[trigger] scan_requests(
                r,
                p,
                from,
            )[k] is DeleteChunks,
    decreases p.items.len() - from,
{
    if from < p.items.len() {
        if let Ok(e) = p.items[from as int] {
            lemma_scan_asks_for_deletions(visited(r, e), p, from + 1);
        }
    }
}

/// A run goes on exactly as long as a round leaves work: it makes the requests of each round and
/// then those of the rest of the run, and ends with the first round that leaves none.
pub proof fn run_goes_on_while_work_is_left(rounds: Seq<Replies>)
    requires
        rounds.len() > 0,
        !some_failed(round_replies(rounds[0])),
    ensures
        ({
            let left = round(yielded(rounds[0].items, 0)).incomplete;
            &&& left ==> run_result(rounds) == run_result(rounds.drop_first())
            &&& left ==> run_requests(rounds) == round_requests(rounds[0]) + run_requests(
                rounds.drop_first(),
            )
            &&& !left ==> run_result(rounds) == Some(Ok::<(), FsError>(()))
            &&& !left ==> run_requests(rounds) == round_requests(rounds[0])
        }),
{
    round_fails_with_its_last_request(rounds[0]);
}

/// A run over the tombstones of a store ends well.
pub proof fn run_over_a_store_succeeds(rounds: Seq<Replies>, entries: Seq<Entry>)
    requires
        runs_over(rounds, entries),
    ensures
        run_result(rounds) == Some(Ok::<(), FsError>(())),
    decreases rounds.len(),
{
    round_fails_with_its_last_request(rounds[0]);
    if round(entries).incomplete {
        run_over_a_store_succeeds(
            rounds.drop_first(),
            left_over(entries, MAX_CHUNKS_PER_ROUND as int),
        );
    }
}

/// What the scan finds is taken as it is found: the key, and of a tombstone the inode id and the
/// size.
pub proof fn entries_are_taken_as_found(key: Seq<u8>, found: ScannedEntry)
    ensures
        entry_of(key, found).key() == key,
        found is Other <==> entry_of(key, found) is Other,
        found matches ScannedEntry::Tombstone { inode_id, size } ==> (entry_of(key, found)
            matches Entry::Tombstone { inode_id: i, size: s, .. } && i == inode_id && s == size),
{
}

/// A scan yields its items in order up to its end or its first error.
pub proof fn scans_yield_their_items(items: Seq<Result<Entry, ()>>, n: nat)
    requires
        n <= items.len(),
        forall|k: int| 0 <= k < n ==> #[trigger] items[k] is Ok,
        n == items.len() || items[n as int] is Err,
    ensures
        yielded(items, 0).len() == n,
        forall|k: int| 0 <= k < n ==> items[k] == Ok::<Entry, ()>(#[trigger] yielded(items, 0)[k]),
{
    lemma_yielded(items, n, 0);
}

proof fn lemma_yielded(items: Seq<Result<Entry, ()>>, n: nat, from: nat)
    requires
        from <= n <= items.len(),
        forall|k: int| 0 <= k < n ==> #[trigger] items[k] is Ok,
        n == items.len() || items[n as int] is Err,
    ensures
        yielded(items, from).len() == n - from,
        forall|k: int|
            0 <= k < n - from ==> items[from + k] == Ok::<Entry, ()>(
                #[trigger] yielded(items, from)[k],
            ),
    decreases n - from,
{
    if from < n {
        let e = items[from as int]->Ok_0;
        let rest = yielded(items, from + 1);
        lemma_yielded(items, n, from + 1);
        assert(yielded(items, from) == seq![e] + rest);
        assert forall|k: int| 0 <= k < n - from implies items[from + k] == Ok::<Entry, ()>(
            #[trigger] yielded(items, from)[k],
        ) by {
            if k > 0 {
                assert(yielded(items, from)[k] == rest[k - 1]);
                assert(items[from + 1 + (k - 1)] == Ok::<Entry, ()>(rest[k - 1]));
            }
        }
    }
}

/// The replies to a round are taken as they are given: item by item and deletion by deletion. A
/// deletion for which no reply is given succeeds.
pub proof fn replies_are_taken_as_given(replies: &RoundReplies, i: int)
    ensures
        replies@.scan == replies.scan,
        replies@.batch == replies.batch,
        replies@.items.len() == replies.items@.len(),
        0 <= i < replies.items@.len() ==> match replies.items@[i] {
            Ok((key, found)) => replies@.items[i] == Ok::<Entry, ()>(entry_of(key@, found)),
            Err(_) => replies@.items[i] is Err,
        },
        0 <= i < replies.deletions@.len() ==> (replies@.deletions)(i) == replies.deletions@[i],
        i >= replies.deletions@.len() ==> (replies@.deletions)(i) is Ok,
{
}

/// A request to delete chunks is about the keys that it holds, in order, and one to rewrite
/// tombstones about the writes that it holds, in order.
pub proof fn requests_are_noted_as_made(request: Request, i: int)
    ensures
        request is OpenScan <==> request@ is OpenScan,
        request matches Request::DeleteChunks { keys } ==> {
            &&& request@ matches RequestModel::DeleteChunks { keys: noted }
            &&& noted.len() == keys@.len()
            &&& 0 <= i < noted.len() ==> noted[i] == keys@[i]@
        },
        request matches Request::RewriteTombstones { writes } ==> {
            &&& request@ matches RequestModel::RewriteTombstones { writes: noted }
            &&& noted.len() == writes@.len()
            &&& 0 <= i < noted.len() ==> match writes@[i] {
                TombstoneWrite::Delete { key } => noted[i] == WriteModel::Delete { key: key@ },
                TombstoneWrite::Put { key, size } => noted[i] == WriteModel::Put {
                    key: key@,
                    size: size as int,
                },
            }
        },
{
}

proof fn lemma_counters_of_rounds(stats: FileSystemStats, rounds: Seq<Replies>, entries: Seq<Entry>)
    requires
        runs_over(rounds, entries),
    ensures
        ({
            let after = rounds_counted(stats, rounds);
            let (chunks, tombstones) = run_counts(entries);
            &&& after.cache_hits == stats.cache_hits
            &&& after.cache_misses == stats.cache_misses
            &&& after.gc_runs == stats.gc_runs
            &&& after.gc_chunks_deleted == (stats.gc_chunks_deleted + chunks)
                % 0x1_0000_0000_0000_0000
            &&& after.tombstones_processed == (stats.tombstones_processed + tombstones)
                % 0x1_0000_0000_0000_0000
        }),
    decreases rounds.len(),
{
    let r = round(entries);
    round_fails_with_its_last_request(rounds[0]);
    round_keeps_to_its_budget(entries);
    lemma_completed_within_deleted(RoundModel::empty(), entries);
    if r.incomplete {
        let rest = left_over(entries, MAX_CHUNKS_PER_ROUND as int);
        unfinished_round_progresses(entries);
        lemma_counters_of_rounds(r.counted_in(stats), rounds.drop_first(), rest);
    }
}

/// A round completes no more tombstones than it deletes chunks.
proof fn lemma_completed_within_deleted(r: RoundModel, entries: Seq<Entry>)
    requires
        0 <= r.completed <= r.deleted,
        0 <= r.remaining,
        r.pending is None,
    ensures
        0 <= round_over(r, entries).completed <= round_over(r, entries).deleted,
    decreases entries.len(),
{
    if entries.len() > 0 && r.remaining > 0 {
        let e = entries[0];
        if e is Tombstone {
            let size = e->Tombstone_size as int;
            lemma_sizes(size, r.quota(size));
        }
        lemma_completed_within_deleted(visited(r, e), entries.drop_first());
    }
}

/// A run over the tombstones of a store counts one run, every chunk of every deleted file and
/// every tombstone that had chunks, and nothing else. Each counter starts over at 0 after the
/// largest number.
pub proof fn run_over_a_store_counts_everything(
    stats: FileSystemStats,
    rounds: Seq<Replies>,
    entries: Seq<Entry>,
)
    requires
        runs_over(rounds, entries),
    ensures
        ({
            let after = run_counted(stats, rounds);
            &&& after.cache_hits == stats.cache_hits
            &&& after.cache_misses == stats.cache_misses
            &&& after.gc_runs == (stats.gc_runs + 1) % 0x1_0000_0000_0000_0000
            &&& after.gc_chunks_deleted == (stats.gc_chunks_deleted + outstanding(entries))
                % 0x1_0000_0000_0000_0000
            &&& after.tombstones_processed == (stats.tombstones_processed + unfinished(entries))
                % 0x1_0000_0000_0000_0000
        }),
{
    lemma_counters_of_rounds(stats.run_started(), rounds, entries);
    run_counts_everything(entries);
}

/// A round that fails leaves all counters as they were, and one that does not adds what it did.
pub proof fn rounds_are_counted_one_by_one(stats: FileSystemStats, rounds: Seq<Replies>)
    requires
        rounds.len() > 0,
    ensures
        some_failed(round_replies(rounds[0])) ==> rounds_counted(stats, rounds) == stats,
        !some_failed(round_replies(rounds[0])) ==> {
            let end = round(yielded(rounds[0].items, 0));
            rounds_counted(stats, rounds) == if end.incomplete {
                rounds_counted(end.counted_in(stats), rounds.drop_first())
            } else {
                end.counted_in(stats)
            }
        },
{
    round_fails_with_its_last_request(rounds[0]);
}

} // verus!
