//! When garbage collection fails: laws about the store's replies.
//!
//! A run makes requests to the store: in each round it opens a scan, writes the deletions that
//! the entries of the scan call for, and writes the batch that ends the round. `Replies` holds
//! how the store would answer the requests of one round; the functions below say which of them
//! the round makes, and what it comes to.

use vstd::prelude::*;

use super::errors::FsError;
use super::gc::RoundModel;
use super::metrics::{counted, FileSystemStats};
use super::reclaim::{round, round_over, visited, Entry};

verus! {

/// Whether a request succeeded.
pub type Reply = Result<(), ()>;

/// How the store would answer the requests of one round.
pub struct Replies {
    /// To the opening of the scan.
    pub scan: Reply,
    /// What the scan yields, item by item.
    pub items: Seq<Result<Entry, ()>>,
    /// To the deletion that the item with this index calls for.
    pub deletions: spec_fn(int) -> Reply,
    /// To the batch that ends the round.
    pub batch: Reply,
}

/// Whether an entry calls for a deletion: a tombstone with chunks left does.
pub open spec fn calls_for_deletion(e: Entry) -> bool {
    e matches Entry::Tombstone { size, .. } && size != 0
}

/// The entries that a scan yields from item `from` on, up to its end or its first error.
pub open spec fn yielded(items: Seq<Result<Entry, ()>>, from: nat) -> Seq<Entry>
    decreases items.len() - from,
{
    if from >= items.len() {
        Seq::empty()
    } else {
        match items[from as int] {
            Ok(e) => seq![e] + yielded(items, from + 1),
            Err(_) => Seq::empty(),
        }
    }
}

/// What round `r` comes to from item `from` of its scan on, up to the end of the scan.
pub open spec fn scan_result(r: RoundModel, p: Replies, from: nat) -> Result<RoundModel, FsError>
    decreases p.items.len() - from,
{
    if from >= p.items.len() {
        Ok(r)
    } else {
        match p.items[from as int] {
            Err(_) => Ok(r),
            Ok(e) => if r.remaining <= 0 {
                Ok(r.cut_short())
            } else if calls_for_deletion(e) && (p.deletions)(from as int) is Err {
                Err(FsError::IoError)
            } else {
                scan_result(visited(r, e), p, from + 1)
            },
        }
    }
}

/// The replies that round `r` gets from item `from` of its scan on, up to the end of the scan.
pub open spec fn scan_replies(r: RoundModel, p: Replies, from: nat) -> Seq<Reply>
    decreases p.items.len() - from,
{
    if from >= p.items.len() {
        Seq::empty()
    } else {
        match p.items[from as int] {
            Err(_) => Seq::empty(),
            Ok(e) => if r.remaining <= 0 {
                Seq::empty()
            } else if calls_for_deletion(e) {
                let reply = (p.deletions)(from as int);
                if reply is Err {
                    seq![reply]
                } else {
                    seq![reply] + scan_replies(visited(r, e), p, from + 1)
                }
            } else {
                scan_replies(visited(r, e), p, from + 1)
            },
        }
    }
}

/// What a round comes to: the round at its end, or the error that ends the run.
pub open spec fn round_result(p: Replies) -> Result<RoundModel, FsError> {
    if p.scan is Err {
        Err(FsError::IoError)
    } else {
        match scan_result(RoundModel::empty(), p, 0) {
            Err(e) => Err(e),
            Ok(r) => if r.updates.len() > 0 && p.batch is Err {
                Err(FsError::IoError)
            } else {
                Ok(r)
            },
        }
    }
}

/// The replies that a round gets, one to each request it makes, in order.
pub open spec fn round_replies(p: Replies) -> Seq<Reply> {
    if p.scan is Err {
        seq![p.scan]
    } else {
        let scanned = seq![p.scan] + scan_replies(RoundModel::empty(), p, 0);
        match scan_result(RoundModel::empty(), p, 0) {
            Err(_) => scanned,
            Ok(r) => if r.updates.len() > 0 {
                scanned + seq![p.batch]
            } else {
                scanned
            },
        }
    }
}

/// What a run comes to whose rounds would be answered by `rounds`, or `None` if it is not over
/// after them.
pub open spec fn run_result(rounds: Seq<Replies>) -> Option<Result<(), FsError>>
    decreases rounds.len(),
{
    if rounds.len() == 0 {
        None
    } else {
        match round_result(rounds[0]) {
            Err(e) => Some(Err(e)),
            Ok(r) => if r.incomplete {
                run_result(rounds.drop_first())
            } else {
                Some(Ok(()))
            },
        }
    }
}

/// The replies that a run gets, one to each request it makes, in order.
pub open spec fn run_replies(rounds: Seq<Replies>) -> Seq<Reply>
    decreases rounds.len(),
{
    if rounds.len() == 0 {
        Seq::empty()
    } else {
        match round_result(rounds[0]) {
            Err(_) => round_replies(rounds[0]),
            Ok(r) => if r.incomplete {
                round_replies(rounds[0]) + run_replies(rounds.drop_first())
            } else {
                round_replies(rounds[0])
            },
        }
    }
}

/// The counters after the rounds of a run.
pub open spec fn rounds_counted(stats: FileSystemStats, rounds: Seq<Replies>) -> FileSystemStats
    decreases rounds.len(),
{
    if rounds.len() == 0 {
        stats
    } else {
        match round_result(rounds[0]) {
            Err(_) => stats,
            Ok(r) => if r.incomplete {
                rounds_counted(r.counted_in(stats), rounds.drop_first())
            } else {
                r.counted_in(stats)
            },
        }
    }
}

/// The counters after a run.
pub open spec fn run_counted(stats: FileSystemStats, rounds: Seq<Replies>) -> FileSystemStats {
    rounds_counted(stats.run_started(), rounds)
}

/// Whether all replies are successes, except that the last one may be a failure.
pub open spec fn only_the_last_may_fail(replies: Seq<Reply>) -> bool {
    forall|k: int| 0 <= k < replies.len() - 1 ==> #[trigger] replies[k] is Ok
}

/// Whether a request failed.
pub open spec fn some_failed(replies: Seq<Reply>) -> bool {
    exists|k: int| 0 <= k < replies.len() && #[trigger] replies[k] is Err
}

pub(crate) proof fn lemma_append(a: Seq<Reply>, b: Seq<Reply>)
    requires
        !some_failed(a),
        only_the_last_may_fail(b),
    ensures
        only_the_last_may_fail(a + b),
        some_failed(a + b) <==> some_failed(b),
{
    let ab = a + b;
    assert forall|k: int| 0 <= k < ab.len() - 1 implies #[trigger] ab[k] is Ok by {
        if k < a.len() {
            assert(ab[k] == a[k]);
        } else {
            assert(ab[k] == b[k - a.len()]);
        }
    }
    if some_failed(b) {
        let k = choose|k: int| 0 <= k < b.len() && #[trigger] b[k] is Err;
        assert(ab[a.len() + k] is Err);
    }
    if some_failed(ab) {
        let k = choose|k: int| 0 <= k < ab.len() && #[trigger] ab[k] is Err;
        if k < a.len() {
            assert(a[k] is Err);
        } else {
            assert(b[k - a.len()] is Err);
        }
    }
}

pub(crate) proof fn lemma_single(reply: Reply)
    ensures
        only_the_last_may_fail(seq![reply]),
        some_failed(seq![reply]) <==> reply is Err,
{
    assert(seq![reply][0] == reply);
}

/// The rest of a scan fails exactly if a deletion fails, which is then its last request.
pub(crate) proof fn lemma_scan(r: RoundModel, p: Replies, from: nat)
    ensures
        only_the_last_may_fail(scan_replies(r, p, from)),
        scan_result(r, p, from) == if some_failed(scan_replies(r, p, from)) {
            Err::<RoundModel, FsError>(FsError::IoError)
        } else {
            Ok::<RoundModel, FsError>(round_over(r, yielded(p.items, from)))
        },
    decreases p.items.len() - from,
{
    if from < p.items.len() && p.items[from as int] is Ok {
        let e = p.items[from as int]->Ok_0;
        let entries = yielded(p.items, from);
        assert(entries[0] == e);
        assert(entries.drop_first() =~= yielded(p.items, from + 1));
        if r.remaining > 0 {
            let next = visited(r, e);
            lemma_scan(next, p, from + 1);
            if calls_for_deletion(e) {
                let reply = (p.deletions)(from as int);
                lemma_single(reply);
                if reply is Ok {
                    lemma_append(seq![reply], scan_replies(next, p, from + 1));
                }
            }
        }
    }
}

/// A round fails if and only if one of its requests does. That request is the last it makes, and
/// the error is an I/O error. A round that does not fail has gone through the entries that its
/// scan yielded before its end or its first error.
pub proof fn round_fails_with_its_last_request(p: Replies)
    ensures
        only_the_last_may_fail(round_replies(p)),
        round_result(p) == if some_failed(round_replies(p)) {
            Err::<RoundModel, FsError>(FsError::IoError)
        } else {
            Ok::<RoundModel, FsError>(round(yielded(p.items, 0)))
        },
{
    lemma_single(p.scan);
    if p.scan is Ok {
        let scan = scan_replies(RoundModel::empty(), p, 0);
        lemma_scan(RoundModel::empty(), p, 0);
        lemma_append(seq![p.scan], scan);
        if !some_failed(scan) {
            lemma_single(p.batch);
            lemma_append(seq![p.scan] + scan, seq![p.batch]);
        }
    }
}

/// A run fails if and only if one of its requests does. That request is the last it makes, and
/// the error is an I/O error.
pub proof fn run_fails_with_its_last_request(rounds: Seq<Replies>)
    ensures
        only_the_last_may_fail(run_replies(rounds)),
        some_failed(run_replies(rounds)) <==> run_result(rounds) == Some(
            Err::<(), FsError>(FsError::IoError),
        ),
        !some_failed(run_replies(rounds)) ==> run_result(rounds) is None || run_result(rounds)
            == Some(Ok::<(), FsError>(())),
    decreases rounds.len(),
{
    if rounds.len() > 0 {
        round_fails_with_its_last_request(rounds[0]);
        if round_result(rounds[0]) is Ok {
            run_fails_with_its_last_request(rounds.drop_first());
            lemma_append(round_replies(rounds[0]), run_replies(rounds.drop_first()));
        }
    }
}

proof fn lemma_error_item(r: RoundModel, p: Replies, q: Replies, n: nat, from: nat)
    requires
        n < p.items.len(),
        p.items[n as int] is Err,
        q == (Replies { items: p.items.take(n as int), ..p }),
        from <= n,
    ensures
        scan_result(r, p, from) == scan_result(r, q, from),
        scan_replies(r, p, from) == scan_replies(r, q, from),
    decreases n - from,
{
    if from < n {
        assert(p.items[from as int] == q.items[from as int]);
        if let Ok(e) = p.items[from as int] {
            lemma_error_item(visited(r, e), p, q, n, from + 1);
        }
    }
}

/// An error that a scan yields is not a failure: the round makes the same requests and comes to
/// the same as if the scan had ended there.
pub proof fn error_inside_a_scan_just_ends_it(p: Replies, n: nat)
    requires
        n < p.items.len(),
        p.items[n as int] is Err,
    ensures
        ({
            let q = Replies { items: p.items.take(n as int), ..p };
            &&& round_result(p) == round_result(q)
            &&& round_replies(p) == round_replies(q)
        }),
{
    let q = Replies { items: p.items.take(n as int), ..p };
    lemma_error_item(RoundModel::empty(), p, q, n, 0);
}

proof fn lemma_rounds_keep_run_count(stats: FileSystemStats, rounds: Seq<Replies>)
    ensures
        rounds_counted(stats, rounds).gc_runs == stats.gc_runs,
    decreases rounds.len(),
{
    if rounds.len() > 0 {
        if let Ok(r) = round_result(rounds[0]) {
            lemma_rounds_keep_run_count(r.counted_in(stats), rounds.drop_first());
        }
    }
}

/// Every run is counted as one run, whether it fails or not and however many rounds it takes.
pub proof fn every_run_is_counted_once(stats: FileSystemStats, rounds: Seq<Replies>)
    ensures
        run_counted(stats, rounds).gc_runs == counted(stats.gc_runs, 1),
{
    lemma_rounds_keep_run_count(stats.run_started(), rounds);
}

/// A run that fails in its first round counts nothing else.
pub proof fn failed_first_round_counts_nothing(stats: FileSystemStats, rounds: Seq<Replies>)
    requires
        rounds.len() > 0,
        some_failed(round_replies(rounds[0])),
    ensures
        run_counted(stats, rounds) == stats.run_started(),
{
    round_fails_with_its_last_request(rounds[0]);
}

} // verus!
