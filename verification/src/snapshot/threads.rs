//! The register contexts of the threads of a process.
use crate::process::info::ThreadEntry;
use crate::util::error::QuickResumeError;
use vstd::prelude::*;

verus! {

/// The parts of a thread's context to capture: control, integer, floating-point,
/// debug, segment and extended registers.
pub const CONTEXT_ALL_X64: u32 = 0x0010_003F;

/// Saved register state for a single thread.
#[derive(Debug, Clone)]
pub struct ThreadSnapshot {
    pub tid: u32,
    /// Raw bytes of the 64-bit context structure.
    pub context_bytes: Vec<u8>,
}

/// A thread's saved state with its bytes as a sequence.
#[verifier::ext_equal]
pub struct ThreadView {
    pub tid: u32,
    pub context_bytes: Seq<u8>,
}

impl View for ThreadSnapshot {
    type V = ThreadView;

    open spec fn view(&self) -> ThreadView {
        ThreadView { tid: self.tid, context_bytes: self.context_bytes@ }
    }
}

/// The id of a thread in the list, if it is one of `pid`'s.
pub open spec fn tid_of(entry: ThreadEntry, pid: u32) -> Option<u32> {
    if entry.owner_pid == pid {
        Some(entry.tid)
    } else {
        None
    }
}

/// The ids of the threads that belong to `pid`, in the order of the list.
pub fn collect_tids(entries: &[ThreadEntry], pid: u32) -> (tids: Vec<u32>)
    ensures
        tids@ == entries@.filter_map(|e: ThreadEntry| tid_of(e, pid)),
{
    let mut tids: Vec<u32> = Vec::new();
    assert(entries@.take(0) =~= Seq::empty());
    for i in 0..entries.len()
        invariant
            tids@ == entries@.take(i as int).filter_map(|e: ThreadEntry| tid_of(e, pid)),
    {
        let entry = entries[i];
        assert(entries@.take(i + 1).drop_last() =~= entries@.take(i as int));
        if entry.owner_pid == pid {
            tids.push(entry.tid);
        }
    }
    assert(entries@.take(entries.len() as int) =~= entries@);
    tids
}

/// Makes a snapshot of the context read from a thread, or an error of the code
/// with which opening or reading it failed.
pub fn capture_one(tid: u32, context: Result<Vec<u8>, i32>) -> (r: Result<
    ThreadSnapshot,
    QuickResumeError,
>)
    ensures
        match context {
            Ok(bytes) => r matches Ok(snap) && snap@ == (ThreadView { tid, context_bytes: bytes@ }),
            Err(code) => r == Err::<ThreadSnapshot, QuickResumeError>(
                QuickResumeError::ThreadContextFailed { tid, code },
            ),
        },
{
    match context {
        Ok(context_bytes) => Ok(ThreadSnapshot { tid, context_bytes }),
        Err(code) => Err(QuickResumeError::ThreadContextFailed { tid, code }),
    }
}

/// The snapshot that a capture brought, if it did not fail.
pub open spec fn captured_thread(r: Result<ThreadSnapshot, QuickResumeError>) -> Option<
    ThreadSnapshot,
> {
    match r {
        Ok(snap) => Some(snap),
        Err(_) => None,
    }
}

/// The threads whose capture succeeded, in order. A thread that could not be
/// captured is left out.
pub fn capture_thread_contexts(
    captures: Vec<Result<ThreadSnapshot, QuickResumeError>>,
) -> (snapshots: Vec<ThreadSnapshot>)
    ensures
        snapshots@ == captures@.filter_map(
            |r: Result<ThreadSnapshot, QuickResumeError>| captured_thread(r),
        ),
{
    let ghost all = captures@;
    let mut snapshots: Vec<ThreadSnapshot> = Vec::new();
    assert(all.take(0) =~= Seq::empty());
    for r in it: captures
        invariant
            it.seq() == all,
            snapshots@ == all.take(it.index() as int).filter_map(
                |r: Result<ThreadSnapshot, QuickResumeError>| captured_thread(r),
            ),
    {
        let ghost i = it.index() as int;
        assert(all.take(i + 1).drop_last() =~= all.take(i));
        assert(all.take(i + 1).last() == r);
        match r {
            Ok(snap) => {
                snapshots.push(snap);
            },
            Err(_) => {},
        }
    }
    assert(all.take(all.len() as int) =~= all);
    snapshots
}

/// Only threads of the process are collected, and all of them.
pub proof fn collected_tids_are_the_threads_of_the_process(
    entries: Seq<ThreadEntry>,
    pid: u32,
    tid: u32,
)
    ensures
        entries.filter_map(|e: ThreadEntry| tid_of(e, pid)).contains(tid) <==> exists|i: int|
            0 <= i < entries.len() && (#[trigger] entries[i]).owner_pid == pid && entries[i].tid
                == tid,
    decreases entries.len(),
{
    let f = |e: ThreadEntry| tid_of(e, pid);
    if entries.len() > 0 {
        let before = entries.drop_last();
        let last = entries.last();
        collected_tids_are_the_threads_of_the_process(before, pid, tid);
        if entries.filter_map(f).contains(tid) {
            let k = choose|k: int|
                0 <= k < entries.filter_map(f).len() && entries.filter_map(f)[k] == tid;
            if k < before.filter_map(f).len() {
                assert(before.filter_map(f)[k] == tid);
                let i = choose|i: int|
                    0 <= i < before.len() && (#[trigger] before[i]).owner_pid == pid
                        && before[i].tid == tid;
                assert(entries[i] == before[i]);
            } else {
                assert(entries[entries.len() - 1] == last);
            }
        }
        if exists|i: int|
            0 <= i < entries.len() && (#[trigger] entries[i]).owner_pid == pid && entries[i].tid
                == tid {
            let i = choose|i: int|
                0 <= i < entries.len() && (#[trigger] entries[i]).owner_pid == pid
                    && entries[i].tid == tid;
            if i < before.len() {
                assert(before[i] == entries[i]);
                let k = choose|k: int|
                    0 <= k < before.filter_map(f).len() && before.filter_map(f)[k] == tid;
                assert(entries.filter_map(f)[k] == tid);
            } else {
                let n = entries.filter_map(f).len();
                assert(entries.filter_map(f)[n - 1] == tid);
            }
        }
    }
}

} // verus!
