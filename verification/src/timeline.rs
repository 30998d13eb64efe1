//! Linearizing the causal change graph into an addressable timeline.
//!
//! The engine's ancestor traversal yields runs of operations newest-first:
//! each run is a contiguous range of per-author operation counters.  The
//! timeline decomposes every run into per-operation change identifiers and
//! orders them so that index 0 is the earliest operation and the last index
//! is the operation immediately preceding the head.

use vstd::prelude::*;
use crate::engine;
use crate::errors::GraphTraversalError;

verus! {

/// Identifies one atomic operation: an author and that author's
/// monotonically increasing operation counter.
#[derive(PartialEq, Eq, Structural, Clone, Copy, Debug, Hash)]
pub struct ChangeId {
    pub peer: u64,
    pub counter: i32,
}

/// A contiguous run of `len` operations by one author, starting at
/// operation counter `counter`.
#[derive(PartialEq, Eq, Structural, Clone, Copy, Debug)]
pub struct ChangeRun {
    pub peer: u64,
    pub counter: i32,
    pub len: usize,
}

/// Operation counters are non-negative and the whole run stays within the
/// counter range.
pub open spec fn run_valid(r: ChangeRun) -> bool {
    &&& r.counter >= 0
    &&& r.counter + r.len - 1 <= i32::MAX
}

pub open spec fn runs_valid(runs: Seq<ChangeRun>) -> bool {
    forall|i: int| 0 <= i < runs.len() ==> run_valid(#[trigger] runs[i])
}

/// The operations of one run, earliest first.
pub open spec fn run_ops(r: ChangeRun) -> Seq<ChangeId> {
    Seq::new(r.len as nat, |j: int| ChangeId { peer: r.peer, counter: (r.counter + j) as i32 })
}

/// The timeline of a sequence of runs given newest-first: all operations,
/// earliest first.  The newest run's operations come last.
pub open spec fn linearize(runs: Seq<ChangeRun>) -> Seq<ChangeId>
    decreases runs.len(),
{
    if runs.len() == 0 {
        Seq::empty()
    } else {
        linearize(runs.drop_first()) + run_ops(runs.first())
    }
}

/// Total number of operations over all runs.
pub open spec fn total_ops(runs: Seq<ChangeRun>) -> int
    decreases runs.len(),
{
    if runs.len() == 0 {
        0int
    } else {
        total_ops(runs.drop_first()) + runs.first().len
    }
}

/// The timeline contains every operation of every run exactly once.
pub proof fn lemma_linearize_len(runs: Seq<ChangeRun>)
    ensures
        linearize(runs).len() == total_ops(runs),
    decreases runs.len(),
{
    if runs.len() > 0 {
        lemma_linearize_len(runs.drop_first());
    }
}

/// All run lengths are non-negative, so the operation count never is.
pub proof fn lemma_total_ops_nonneg(runs: Seq<ChangeRun>)
    ensures
        total_ops(runs) >= 0,
    decreases runs.len(),
{
    if runs.len() > 0 {
        lemma_total_ops_nonneg(runs.drop_first());
    }
}

/// Unfolding the operation count at run `k`: the operations of run `k`
/// plus those of all older runs.
pub proof fn lemma_total_ops_skip_step(runs: Seq<ChangeRun>, k: int)
    requires
        0 <= k < runs.len(),
    ensures
        total_ops(runs.skip(k)) == runs[k].len + total_ops(runs.skip(k + 1)),
{
    assert(runs.skip(k).first() == runs[k]);
    assert(runs.skip(k).drop_first() =~= runs.skip(k + 1));
}

/// Dropping newer runs never increases the operation count.
pub proof fn lemma_total_ops_skip_le(runs: Seq<ChangeRun>, k: int)
    requires
        0 <= k <= runs.len(),
    ensures
        total_ops(runs.skip(k)) <= total_ops(runs),
    decreases k,
{
    if k == 0 {
        assert(runs.skip(0) =~= runs);
    } else {
        lemma_total_ops_skip_le(runs, k - 1);
        lemma_total_ops_skip_step(runs, k - 1);
        lemma_total_ops_nonneg(runs.skip(k));
    }
}

/// Where every operation stands in the timeline: run `k` of the
/// traversal (0 = newest) occupies the contiguous segment that starts
/// right after all operations of the older runs, in counter order.  This
/// pins the operation addressed by every timeline index.
pub proof fn lemma_linearize_index(runs: Seq<ChangeRun>, k: int, j: int)
    requires
        0 <= k < runs.len(),
        0 <= j < runs[k].len,
    ensures
        0 <= total_ops(runs.skip(k + 1)) + j < linearize(runs).len(),
        linearize(runs)[total_ops(runs.skip(k + 1)) + j] == run_ops(runs[k])[j],
    decreases k,
{
    lemma_linearize_len(runs);
    lemma_total_ops_nonneg(runs.skip(k + 1));
    let tail = runs.drop_first();
    lemma_linearize_len(tail);
    if k == 0 {
        assert(runs.skip(1) =~= tail);
    } else {
        assert(runs.skip(k + 1) =~= tail.skip(k));
        assert(tail[k - 1] == runs[k]);
        lemma_linearize_index(tail, k - 1, j);
        lemma_total_ops_skip_step(tail, k - 1);
        lemma_total_ops_skip_le(tail, k - 1);
        assert(linearize(runs)[total_ops(tail.skip(k)) + j] == linearize(tail)[total_ops(
            tail.skip(k),
        ) + j]);
    }
}

/// The last timeline entry is the newest operation of the newest run:
/// the operation immediately preceding the head of the document.
pub proof fn lemma_linearize_last(runs: Seq<ChangeRun>)
    requires
        runs.len() > 0,
        runs.first().len > 0,
        run_valid(runs.first()),
    ensures
        linearize(runs).len() > 0,
        linearize(runs).last() == (ChangeId {
            peer: runs.first().peer,
            counter: (runs.first().counter + runs.first().len - 1) as i32,
        }),
{
    assert(run_ops(runs.first()).last() == ChangeId {
        peer: runs.first().peer,
        counter: (runs.first().counter + runs.first().len - 1) as i32,
    });
}

/// Within one run the timeline respects causal order: an operation never
/// precedes one of its causal ancestors, since the author's counters come
/// out strictly increasing.
pub proof fn lemma_run_ops_ordered(r: ChangeRun, j1: int, j2: int)
    requires
        run_valid(r),
        0 <= j1 < j2 < r.len,
    ensures
        run_ops(r)[j1].peer == run_ops(r)[j2].peer,
        run_ops(r)[j1].counter < run_ops(r)[j2].counter,
{
}

/// The timeline never puts an operation before one of its causal
/// ancestors from the same run: inside the segment of any single run, the
/// entries carry that run's author and strictly increasing counters.
/// (Across runs the same holds by the engine's traversal-order contract,
/// which is assumed at the trusted boundary, not proved here.)
pub proof fn lemma_timeline_causal_within_run(runs: Seq<ChangeRun>, k: int, j1: int, j2: int)
    requires
        runs_valid(runs),
        0 <= k < runs.len(),
        0 <= j1 < j2 < runs[k].len,
    ensures
        linearize(runs)[total_ops(runs.skip(k + 1)) + j1].peer == linearize(runs)[total_ops(
            runs.skip(k + 1),
        ) + j2].peer,
        linearize(runs)[total_ops(runs.skip(k + 1)) + j1].counter < linearize(runs)[total_ops(
            runs.skip(k + 1),
        ) + j2].counter,
{
    lemma_linearize_index(runs, k, j1);
    lemma_linearize_index(runs, k, j2);
    lemma_run_ops_ordered(runs[k], j1, j2);
}

/// Build the timeline from the traversal's runs, given newest-first.
/// The result lists every operation of every run, earliest operation
/// first; its last entry is the operation immediately preceding the head.
pub fn build_timeline(runs: &Vec<ChangeRun>) -> (t: Vec<ChangeId>)
    requires
        runs_valid(runs@),
    ensures
        t@ == linearize(runs@),
        t@.len() == total_ops(runs@),
{
    let ghost all = runs@;
    let mut out: Vec<ChangeId> = Vec::new();
    let mut i: usize = runs.len();
    proof {
        assert(all.skip(runs.len() as int) =~= Seq::<ChangeRun>::empty());
    }
    while i > 0
        invariant
            i <= all.len(),
            runs@ == all,
            runs_valid(all),
            out@ == linearize(all.skip(i as int)),
        decreases i,
    {
        i = i - 1;
        let r = runs[i];
        proof {
            assert(all.skip(i as int).first() == all[i as int]);
            assert(all.skip(i as int).drop_first() =~= all.skip(i as int + 1));
        }
        let ghost prefix = out@;
        let mut k: usize = 0;
        while k < r.len
            invariant
                k <= r.len,
                run_valid(r),
                out@ == prefix + run_ops(r).take(k as int),
            decreases r.len - k,
        {
            out.push(ChangeId { peer: r.peer, counter: r.counter + (k as i32) });
            k = k + 1;
            proof {
                assert(run_ops(r).take(k as int) =~= run_ops(r).take(k as int - 1).push(
                    run_ops(r)[k as int - 1],
                ));
            }
        }
        proof {
            assert(run_ops(r).take(r.len as int) =~= run_ops(r));
            assert(out@ =~= linearize(all.skip(i as int)));
        }
    }
    proof {
        assert(all.skip(0) =~= all);
        lemma_linearize_len(all);
    }
    out
}

/// The document's current head frontier: the id of the newest operation
/// on each causal branch, read from the engine.
pub fn head_frontier(doc: &loro::LoroDoc) -> Vec<ChangeId> {
    engine::doc_head_frontier(doc)
}

/// Build the timeline of every operation reachable from the given head
/// frontier, earliest operation first.  The traversal visits the changes
/// newest first; `build_timeline` carries its exact contract, stated over
/// the visited runs.  Fails, returning no partial timeline, when the head
/// is unknown to the engine.
pub fn timeline_for_head(doc: &loro::LoroDoc, head: &Vec<ChangeId>) -> (r: Result<
    Vec<ChangeId>,
    GraphTraversalError,
>)
    ensures
        r matches Ok(t) ==> exists|runs: Seq<ChangeRun>|
            {
                &&& runs_valid(runs)
                &&& t@ == linearize(runs)
                &&& t@.len() == total_ops(runs)
            },
{
    match engine::doc_travel_runs(doc, head) {
        Ok(runs) => {
            let t = build_timeline(&runs);
            proof {
                assert(runs_valid(runs@) && t@ == linearize(runs@) && t@.len() == total_ops(
                    runs@,
                ));
            }
            Ok(t)
        },
        Err(e) => Err(GraphTraversalError { message: engine::travel_error_text(&e) }),
    }
}

/// Build the timeline of the document's full history, starting from its
/// own current head frontier.
pub fn timeline_of_doc(doc: &loro::LoroDoc) -> (r: Result<Vec<ChangeId>, GraphTraversalError>)
    ensures
        r matches Ok(t) ==> exists|runs: Seq<ChangeRun>|
            {
                &&& runs_valid(runs)
                &&& t@ == linearize(runs)
                &&& t@.len() == total_ops(runs)
            },
{
    let head = head_frontier(doc);
    timeline_for_head(doc, &head)
}

} // verus!
