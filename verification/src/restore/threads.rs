//! Restoring saved register contexts into the threads of a new process.
//!
//! Threads are matched by their position in order of creation: the first saved
//! context goes to the first thread of the new process, and so on.
use crate::snapshot::threads::ThreadSnapshot;
use crate::util::error::QuickResumeError;
use crate::util::text::{decimal, push_decimal};
use vstd::prelude::*;

verus! {

/// A thread of the new process and the position of the context it gets.
#[derive(Debug, PartialEq, Eq, Clone, Copy, Structural)]
pub struct ThreadPair {
    pub new_tid: u32,
    pub slot: usize,
}

/// The smaller of two lengths.
pub open spec fn smaller(a: nat, b: nat) -> nat {
    if a < b {
        a
    } else {
        b
    }
}

/// The threads of the new process with the contexts they get, as far as there
/// are both.
pub open spec fn pairs_of(new_tids: Seq<u32>, snapshot_count: nat) -> Seq<ThreadPair> {
    Seq::new(
        smaller(new_tids.len(), snapshot_count),
        |i: int| ThreadPair { new_tid: new_tids[i], slot: i as usize },
    )
}

/// Matches the threads of the new process with the saved contexts.
pub fn pair_threads(new_tids: &[u32], snapshots: &[ThreadSnapshot]) -> (r: Result<
    Vec<ThreadPair>,
    QuickResumeError,
>)
    ensures
        new_tids@.len() == 0 ==> (r matches Err(e) && e.is_other(
            "No threads found in restored process"@,
        )),
        new_tids@.len() > 0 ==> (r matches Ok(pairs) && pairs@ == pairs_of(
            new_tids@,
            snapshots@.len(),
        )),
{
    if new_tids.len() == 0 {
        return Err(QuickResumeError::Other("No threads found in restored process".to_string()));
    }
    let mut pairs: Vec<ThreadPair> = Vec::new();
    let count: usize = if new_tids.len() < snapshots.len() {
        new_tids.len()
    } else {
        snapshots.len()
    };
    for i in 0..count
        invariant
            count <= new_tids@.len(),
            pairs@ == pairs_of(new_tids@, i as nat),
    {
        pairs.push(ThreadPair { new_tid: new_tids[i], slot: i });
        assert(pairs@ =~= pairs_of(new_tids@, (i + 1) as nat));
    }
    assert(pairs@ =~= pairs_of(new_tids@, snapshots@.len()));
    Ok(pairs)
}

/// Contexts go to threads by position: the first to the first, and no thread
/// gets two, nor does a context go to two threads.
pub proof fn contexts_are_matched_one_to_one(new_tids: Seq<u32>, snapshot_count: usize)
    requires
        new_tids.no_duplicates(),
    ensures
        forall|i: int|
            0 <= i < pairs_of(new_tids, snapshot_count as nat).len() ==> (#[trigger] pairs_of(
                new_tids,
                snapshot_count as nat,
            )[i]).slot == i,
        forall|i: int, j: int|
            0 <= i < j < pairs_of(new_tids, snapshot_count as nat).len() ==> (
            #[trigger] pairs_of(new_tids, snapshot_count as nat)[i]).new_tid != (
            #[trigger] pairs_of(new_tids, snapshot_count as nat)[j]).new_tid,
{
}

/// The text of the error for a saved context of the wrong size.
pub open spec fn mismatch_text(tid: u32, saved: nat, expected: nat) -> Seq<char> {
    "TID "@ + decimal(tid as nat) + ": context bytes size mismatch ("@ + decimal(saved) + " vs "@
        + decimal(expected) + ")"@
}

/// Refuses a saved context that has not the size of a context structure.
pub fn check_context(tid: u32, snap: &ThreadSnapshot, context_size: usize) -> (r: Result<
    (),
    QuickResumeError,
>)
    ensures
        snap.context_bytes@.len() == context_size ==> r is Ok,
        snap.context_bytes@.len() != context_size ==> (r matches Err(e) && e.is_other(
            mismatch_text(tid, snap.context_bytes@.len(), context_size as nat),
        )),
{
    if snap.context_bytes.len() != context_size {
        let mut text = "TID ".to_string();
        push_decimal(&mut text, tid as u64);
        text.append(": context bytes size mismatch (");
        push_decimal(&mut text, snap.context_bytes.len() as u64);
        text.append(" vs ");
        push_decimal(&mut text, context_size as u64);
        text.append(")");
        return Err(QuickResumeError::Other(text));
    }
    Ok(())
}

/// The result for a thread whose context was to be set: the code is that of the
/// call that failed.
pub fn restore_one(tid: u32, set: Result<(), i32>) -> (r: Result<(), QuickResumeError>)
    ensures
        match set {
            Ok(_) => r is Ok,
            Err(code) => r == Err::<(), QuickResumeError>(
                QuickResumeError::ThreadContextFailed { tid, code },
            ),
        },
{
    match set {
        Ok(_) => Ok(()),
        Err(code) => Err(QuickResumeError::ThreadContextFailed { tid, code }),
    }
}

/// The counts reported of a restore of thread contexts.
#[derive(Debug, PartialEq, Eq, Clone, Copy, Structural)]
pub struct ThreadReport {
    /// Threads that were matched with a context.
    pub pair_count: usize,
    pub succeeded: usize,
    pub failed: usize,
    /// Saved contexts for which there is no thread.
    pub dropped: usize,
}

/// How many of the contexts were set.
pub open spec fn succeeded(results: Seq<Result<(), QuickResumeError>>) -> nat {
    results.filter(|r: Result<(), QuickResumeError>| r is Ok).len()
}

proof fn lemma_succeeded_bound(results: Seq<Result<(), QuickResumeError>>)
    ensures
        succeeded(results) <= results.len(),
    decreases results.len(),
{
    reveal(Seq::filter);
    if results.len() > 0 {
        lemma_succeeded_bound(results.drop_last());
    }
}

/// Counts what became of the matched threads. Individual failures do not make
/// the restore fail, only that no context at all was set.
pub fn restore_thread_contexts(
    thread_count: usize,
    snapshot_count: usize,
    results: &[Result<(), QuickResumeError>],
) -> (r: (ThreadReport, Result<(), QuickResumeError>))
    ensures
        r.0.pair_count == results@.len(),
        r.0.succeeded == succeeded(results@),
        r.0.failed == results@.len() - succeeded(results@),
        r.0.dropped == if snapshot_count > thread_count {
            snapshot_count - thread_count
        } else {
            0
        },
        succeeded(results@) > 0 ==> r.1 is Ok,
        succeeded(results@) == 0 ==> (r.1 matches Err(e) && e.is_other(
            "All thread context restores failed"@,
        )),
{
    let mut failed: usize = 0;
    proof {
        reveal(Seq::filter);
    }
    assert(results@.take(0) =~= Seq::empty());
    for i in 0..results.len()
        invariant
            failed <= i,
            failed == i - succeeded(results@.take(i as int)),
    {
        proof {
            reveal(Seq::filter);
        }
        assert(results@.take(i + 1).drop_last() =~= results@.take(i as int));
        match &results[i] {
            Ok(_) => {},
            Err(_) => {
                failed = failed + 1;
            },
        }
    }
    assert(results@.take(results.len() as int) =~= results@);
    proof {
        lemma_succeeded_bound(results@);
    }
    let report = ThreadReport {
        pair_count: results.len(),
        succeeded: results.len() - failed,
        failed,
        dropped: if snapshot_count > thread_count {
            snapshot_count - thread_count
        } else {
            0
        },
    };
    let result = if report.succeeded == 0 {
        Err(QuickResumeError::Other("All thread context restores failed".to_string()))
    } else {
        Ok(())
    };
    (report, result)
}

} // verus!
