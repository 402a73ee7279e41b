//! Laws of a restore: which calls are made for a region, what is counted, which
//! thread gets which context, and what a file is refused for. They are stated
//! in the fields of the regions found and the bytes of the files.
use crate::process::info::RegionInfo;
use crate::restore::launch::{is_loaded, is_loader_ready, LoaderAction, LoaderWait};
use crate::restore::memory::{
    answers, calls, count, is_report, is_reported, is_result, reached, restore_follows_the_plan,
    restored, write_errors, MemoryReport, RegionEnd, RegionRestore, RegionResult, RestoreAction,
    RestoreOutcome, RestoreReply, Target,
};
use crate::restore::reader::{
    block_fits, payload_in, promises_too_much, reading, reports, unpacked, Reading,
};
use crate::restore::threads::{mismatch_text, pairs_of, succeeded};
use crate::snapshot::codec::{lengths_fit, lz4_decompressed};
use crate::snapshot::encoding::{payload_bytes, payload_unique, PayloadView};
use crate::snapshot::memory::RegionView;
use crate::snapshot::writer::SnapshotPayload;
use crate::util::bytes::{u32_at, u64_at};
use crate::util::error::QuickResumeError;
use crate::util::text::{decimal, same_name};
use crate::util::win32::{MEM_FREE, MEM_IMAGE, PAGE_EXECUTE_READWRITE, PAGE_GUARD};
use vstd::prelude::*;

verus! {

/// The number of bytes whose protection is changed: those of the region, but at
/// least one.
pub open spec fn at_least_one(region: RegionView) -> usize {
    if region.data.len() > 0 {
        region.data.len() as usize
    } else {
        1
    }
}

/// Where fresh pages can be had at the region's address, the region is written
/// to them and given its protection, and no other call is made. The restore
/// succeeds exactly if the write does.
pub proof fn fresh_pages_are_written(region: RegionView, target: Target)
    requires
        target.at != 0,
        target.at == region.base_address,
    ensures
        calls(RegionRestore::Allocate, region, target, 6) == seq![
            RestoreAction::Allocate { address: region.base_address, size: region.size },
            RestoreAction::Write { address: region.base_address },
            RestoreAction::Protect {
                address: region.base_address,
                size: at_least_one(region),
                protect: region.protect,
            },
        ],
        reached(RegionRestore::Allocate, region, target, 6) == RegionRestore::Finished(
            match target.error {
                None => RegionEnd::Outcome(RestoreOutcome::AllocatedAndWritten),
                Some(code) => RegionEnd::FreshWriteFailed { code },
            },
        ),
{
    restore_follows_the_plan(region, target);
    assert(calls(RegionRestore::Allocate, region, target, 6) =~= seq![
        RestoreAction::Allocate { address: region.base_address, size: region.size },
        RestoreAction::Write { address: region.base_address },
        RestoreAction::Protect {
            address: region.base_address,
            size: at_least_one(region),
            protect: region.protect,
        },
    ]);
}

/// Where no fresh pages can be had at the region's address, every mapped page
/// without a guard is overwritten in place, except an image page under a saved
/// image page: it is made writable, written and given the saved protection.
/// Without an error the region is restored. Pages that may not be overwritten
/// are only asked for, and nothing is written.
pub proof fn mapped_pages_are_overwritten(region: RegionView, target: Target, found: RegionInfo)
    requires
        target.at == 0 || target.at != region.base_address,
        target.found == Some(found),
    ensures
        ({
            let address = region.base_address;
            let all = calls(RegionRestore::Allocate, region, target, 6);
            let allocate = RestoreAction::Allocate { address, size: region.size };
            let front = if target.at == 0 {
                seq![allocate]
            } else {
                seq![allocate, RestoreAction::Free { address: target.at }]
            };
            let open = found.state != MEM_FREE && found.protect & PAGE_GUARD == 0 && !(
            found.region_type == MEM_IMAGE && region.region_type == MEM_IMAGE);
            &&& open ==> all == front + seq![
                RestoreAction::Query { address },
                RestoreAction::Protect {
                    address,
                    size: at_least_one(region),
                    protect: PAGE_EXECUTE_READWRITE,
                },
                RestoreAction::Write { address },
                RestoreAction::Protect {
                    address,
                    size: at_least_one(region),
                    protect: region.protect,
                },
            ]
            &&& !open ==> all == front + seq![RestoreAction::Query { address }]
            &&& open <==> all.contains(RestoreAction::Write { address })
            &&& open && target.error is None ==> reached(
                RegionRestore::Allocate,
                region,
                target,
                6,
            ) == RegionRestore::Finished(RegionEnd::Outcome(RestoreOutcome::DirectWritten))
        }),
{
    let address = region.base_address;
    let all = calls(RegionRestore::Allocate, region, target, 6);
    let write = RestoreAction::Write { address };
    restore_follows_the_plan(region, target);
    let allocate = RestoreAction::Allocate { address, size: region.size };
    let front = if target.at == 0 {
        seq![allocate]
    } else {
        seq![allocate, RestoreAction::Free { address: target.at }]
    };
    let tail = seq![
        RestoreAction::Query { address },
        RestoreAction::Protect {
            address,
            size: at_least_one(region),
            protect: PAGE_EXECUTE_READWRITE,
        },
        write,
        RestoreAction::Protect { address, size: at_least_one(region), protect: region.protect },
    ];
    if found.state != MEM_FREE && found.protect & PAGE_GUARD == 0 && !(found.region_type
        == MEM_IMAGE && region.region_type == MEM_IMAGE) {
        assert(all =~= front + tail);
        assert(all[front.len() as int + 2] == write);
    } else {
        assert(all =~= front + seq![RestoreAction::Query { address }]);
    }
}

/// Where no fresh pages can be had at the region's address and nothing is found
/// there, nothing is written.
pub proof fn missing_pages_are_skipped(region: RegionView, target: Target)
    requires
        target.at == 0 || target.at != region.base_address,
        target.found is None,
    ensures
        ({
            let address = region.base_address;
            let allocate = RestoreAction::Allocate { address, size: region.size };
            let query = RestoreAction::Query { address };
            let all = calls(RegionRestore::Allocate, region, target, 6);
            &&& target.at == 0 ==> all == seq![allocate, query]
            &&& target.at != 0 ==> all == seq![
                allocate,
                RestoreAction::Free { address: target.at },
                query,
            ]
            &&& reached(RegionRestore::Allocate, region, target, 6) == RegionRestore::Finished(
                RegionEnd::Outcome(RestoreOutcome::SkipNotMapped),
            )
        }),
{
    restore_follows_the_plan(region, target);
    let address = region.base_address;
    let allocate = RestoreAction::Allocate { address, size: region.size };
    let query = RestoreAction::Query { address };
    let all = calls(RegionRestore::Allocate, region, target, 6);
    if target.at == 0 {
        assert(all =~= seq![allocate, query]);
    } else {
        assert(all =~= seq![allocate, RestoreAction::Free { address: target.at }, query]);
    }
}

/// Each reason for leaving a region out comes exactly where it holds of the
/// pages found: they are free, they have a guard, they are image pages that
/// were not or could not be overwritten, or they are others and the write
/// failed.
pub proof fn skips_have_their_reasons(region: RegionView, target: Target, found: RegionInfo)
    requires
        target.at == 0 || target.at != region.base_address,
        target.found == Some(found),
    ensures
        ({
            let end = reached(RegionRestore::Allocate, region, target, 6);
            let free = found.state == MEM_FREE;
            let guard = found.protect & PAGE_GUARD != 0;
            let image = found.region_type == MEM_IMAGE;
            let both = image && region.region_type == MEM_IMAGE;
            let done = |o: RestoreOutcome| RegionRestore::Finished(RegionEnd::Outcome(o));
            &&& end == done(RestoreOutcome::SkipNotMapped) <==> free
            &&& end == done(RestoreOutcome::SkipGuard) <==> !free && guard
            &&& end == done(RestoreOutcome::SkipImage) <==> !free && !guard && image && (both
                || target.error is Some)
            &&& end == done(RestoreOutcome::DirectWritten) <==> !free && !guard && !both
                && target.error is None
            &&& !free && !guard && !image ==> (target.error matches Some(code) ==> end == done(
                RestoreOutcome::SkipWriteError(code as u32),
            ))
        }),
{
    restore_follows_the_plan(region, target);
}

/// An answer is expected of the kind of the call.
pub proof fn answers_are_of_the_kind_of_the_call(action: RestoreAction, reply: RestoreReply)
    ensures
        action is Allocate ==> (answers(action, reply) <==> reply is Allocated),
        action is Query ==> (answers(action, reply) <==> reply is Queried),
        action is Write ==> (answers(action, reply) <==> reply is Written),
        action is Free || action is Protect ==> (answers(action, reply) <==> reply is Tried),
{
}

/// The result of a region is its outcome, or the error of the write to fresh
/// pages with the region's address and the code.
pub proof fn result_tells_the_end(result: RegionResult, end: RegionEnd, address: u64)
    requires
        is_result(result, end, address),
    ensures
        end matches RegionEnd::Outcome(outcome) ==> (result matches Ok(o) && o == outcome),
        end matches RegionEnd::FreshWriteFailed { code } ==> (result matches Err(
            QuickResumeError::WriteMemoryFailed { address: a, code: c },
        ) && a == address && c == code),
{
}

/// One if the condition holds.
pub open spec fn one_if(b: bool) -> int {
    if b {
        1
    } else {
        0
    }
}

proof fn lemma_count_push(results: Seq<RegionResult>, r: RegionResult, outcome: RestoreOutcome)
    ensures
        count(results.push(r), outcome) == count(results, outcome) + one_if(
            r matches Ok(o) && o == outcome,
        ),
{
    reveal(Seq::filter);
    assert(results.push(r).drop_last() =~= results);
}

proof fn lemma_write_errors_push(results: Seq<RegionResult>, r: RegionResult)
    ensures
        write_errors(results.push(r)) == write_errors(results) + one_if(
            r is Err || (r matches Ok(o) && o is SkipWriteError),
        ),
{
    reveal(Seq::filter);
    assert(results.push(r).drop_last() =~= results);
}

/// The report on no regions is all zeros.
pub proof fn report_begins_at_zero(report: MemoryReport)
    requires
        is_report(report, Seq::<RegionResult>::empty()),
    ensures
        report.alloc_ok == 0,
        report.fallback_ok == 0,
        report.skip_guard == 0,
        report.skip_image == 0,
        report.skip_not_mapped == 0,
        report.skip_write_err == 0,
        report.restored == 0,
        report.skipped == 0,
        !report.warns,
        report.reported@.len() == 0,
{
    reveal(Seq::filter);
    let none = Seq::new(0nat, |i: int| i);
    assert(none =~= Seq::empty());
    assert(report.reported@.map_values(|i: usize| i as int).len() == report.reported@.len());
}

/// One more region raises the count of its own outcome and no other, and either
/// the restored or the skipped ones. Its failure is reported, at its own
/// position behind the others, if it was a write to fresh pages or among the
/// first ten write errors.
pub proof fn one_more_result_is_counted_by_its_outcome(
    before: MemoryReport,
    after: MemoryReport,
    results: Seq<RegionResult>,
    r: RegionResult,
)
    requires
        is_report(before, results),
        is_report(after, results.push(r)),
    ensures
        after.alloc_ok == before.alloc_ok + one_if(
            r matches Ok(o) && o is AllocatedAndWritten,
        ),
        after.fallback_ok == before.fallback_ok + one_if(r matches Ok(o) && o is DirectWritten),
        after.skip_guard == before.skip_guard + one_if(r matches Ok(o) && o is SkipGuard),
        after.skip_image == before.skip_image + one_if(r matches Ok(o) && o is SkipImage),
        after.skip_not_mapped == before.skip_not_mapped + one_if(
            r matches Ok(o) && o is SkipNotMapped,
        ),
        after.skip_write_err == before.skip_write_err + one_if(
            r is Err || (r matches Ok(o) && o is SkipWriteError),
        ),
        after.restored == before.restored + one_if(
            r matches Ok(o) && (o is AllocatedAndWritten || o is DirectWritten),
        ),
        after.skipped == before.skipped + one_if(
            !(r matches Ok(o) && (o is AllocatedAndWritten || o is DirectWritten)),
        ),
        after.warns <==> after.skip_not_mapped > 0 || after.skip_write_err > 0,
        r is Err || (r matches Ok(o) && o is SkipWriteError && after.skip_write_err <= 10)
            ==> after.reported@ == before.reported@.push(results.len() as usize),
        !(r is Err || (r matches Ok(o) && o is SkipWriteError && after.skip_write_err <= 10))
            ==> after.reported@ == before.reported@,
{
    lemma_count_push(results, r, RestoreOutcome::AllocatedAndWritten);
    lemma_count_push(results, r, RestoreOutcome::DirectWritten);
    lemma_count_push(results, r, RestoreOutcome::SkipGuard);
    lemma_count_push(results, r, RestoreOutcome::SkipImage);
    lemma_count_push(results, r, RestoreOutcome::SkipNotMapped);
    lemma_write_errors_push(results, r);
    lemma_reported_push(before, after, results, r);
}

proof fn lemma_reported_push(
    before: MemoryReport,
    after: MemoryReport,
    results: Seq<RegionResult>,
    r: RegionResult,
)
    requires
        is_report(before, results),
        is_report(after, results.push(r)),
    ensures
        is_reported(results.push(r), results.len() as int) ==> after.reported@
            == before.reported@.push(results.len() as usize),
        !is_reported(results.push(r), results.len() as int) ==> after.reported@ == before.reported@,
        is_reported(results.push(r), results.len() as int) <==> r is Err || (r matches Ok(o)
            && o is SkipWriteError && after.skip_write_err <= 10),
{
    let n = results.len();
    let all = results.push(r);
    let old_p = |i: int| is_reported(results, i);
    let new_p = |i: int| is_reported(all, i);
    assert(all.take(n as int + 1) =~= all);
    lemma_same_reported(results, r, n);
    reveal(Seq::filter);
    assert(Seq::new(n + 1, |i: int| i).drop_last() =~= Seq::new(n, |i: int| i));
    let a = after.reported@.map_values(|i: usize| i as int);
    let b = before.reported@.map_values(|i: usize| i as int);
    assert(a.len() == after.reported@.len() && b.len() == before.reported@.len());
    if is_reported(all, n as int) {
        assert(a == b.push(n as int));
        assert(a[b.len() as int] == n);
        assert forall|k: int| 0 <= k < after.reported@.len() implies after.reported@[k]
            == before.reported@.push(n as usize)[k] by {
            assert(a[k] == after.reported@[k]);
            if k < b.len() {
                assert(b[k] == before.reported@[k]);
            }
        }
        assert(after.reported@ =~= before.reported@.push(n as usize));
    } else {
        assert(a == b);
        assert forall|k: int| 0 <= k < after.reported@.len() implies after.reported@[k]
            == before.reported@[k] by {
            assert(a[k] == after.reported@[k] && b[k] == before.reported@[k]);
        }
        assert(after.reported@ =~= before.reported@);
    }
}

proof fn lemma_same_reported(results: Seq<RegionResult>, r: RegionResult, m: nat)
    requires
        m <= results.len(),
    ensures
        Seq::new(m, |i: int| i).filter(|i: int| is_reported(results.push(r), i)) == Seq::new(
            m,
            |i: int| i,
        ).filter(|i: int| is_reported(results, i)),
    decreases m,
{
    reveal(Seq::filter);
    if m > 0 {
        let k = (m - 1) as nat;
        lemma_same_reported(results, r, k);
        assert(Seq::new(m, |i: int| i).drop_last() =~= Seq::new(k, |i: int| i));
        assert(results.push(r).take(k as int + 1) =~= results.take(k as int + 1));
    }
}

/// One more region counts as restored exactly if it was written, to fresh pages
/// or in place.
pub proof fn one_more_region_is_restored_if_written(results: Seq<RegionResult>, r: RegionResult)
    ensures
        restored(Seq::<RegionResult>::empty()) == 0,
        restored(results.push(r)) == restored(results) + one_if(
            r matches Ok(o) && (o is AllocatedAndWritten || o is DirectWritten),
        ),
{
    reveal(Seq::filter);
    lemma_count_push(results, r, RestoreOutcome::AllocatedAndWritten);
    lemma_count_push(results, r, RestoreOutcome::DirectWritten);
}

/// As many threads get a context as there are both threads and contexts, and
/// the thread at each position gets the context at the same position.
pub proof fn every_thread_gets_its_context(new_tids: Seq<u32>, snapshot_count: usize)
    ensures
        pairs_of(new_tids, snapshot_count as nat).len() <= new_tids.len(),
        pairs_of(new_tids, snapshot_count as nat).len() <= snapshot_count,
        pairs_of(new_tids, snapshot_count as nat).len() == new_tids.len() || pairs_of(
            new_tids,
            snapshot_count as nat,
        ).len() == snapshot_count,
        forall|i: int|
            0 <= i < new_tids.len() && i < snapshot_count ==> (#[trigger] pairs_of(
                new_tids,
                snapshot_count as nat,
            )[i]).new_tid == new_tids[i] && pairs_of(new_tids, snapshot_count as nat)[i].slot == i,
{
}

/// One more context counts as set exactly if setting it did not fail.
pub proof fn one_more_context_counts_if_set(
    results: Seq<Result<(), QuickResumeError>>,
    r: Result<(), QuickResumeError>,
)
    ensures
        succeeded(Seq::<Result<(), QuickResumeError>>::empty()) == 0,
        succeeded(results.push(r)) == succeeded(results) + one_if(r is Ok),
{
    reveal(Seq::filter);
    assert(results.push(r).drop_last() =~= results);
}

/// The error for a context of the wrong size tells the thread, the size it has
/// and the size it should have, in decimal.
pub proof fn mismatch_tells_both_sizes(tid: u32, saved: nat, expected: nat)
    ensures
        mismatch_text(tid, saved, expected) == "TID "@ + decimal(tid as nat)
            + ": context bytes size mismatch ("@ + decimal(saved) + " vs "@ + decimal(expected)
            + ")"@,
{
}

/// The loader is ready exactly if a module named ntdll.dll and one named
/// kernel32.dll or wow64cpu.dll are loaded, in any order and any case.
pub proof fn loader_is_ready_with_its_modules(modules: Seq<String>)
    ensures
        is_loader_ready(modules) <==> (exists|i: int|
            0 <= i < modules.len() && same_name((#[trigger] modules[i])@, "ntdll.dll"@)) && (
        exists|i: int|
            0 <= i < modules.len() && (same_name((#[trigger] modules[i])@, "kernel32.dll"@)
                || same_name(modules[i]@, "wow64cpu.dll"@))),
{
    let (k, w) = ("kernel32.dll"@, "wow64cpu.dll"@);
    if exists|i: int|
        0 <= i < modules.len() && (same_name((#[trigger] modules[i])@, k) || same_name(
            modules[i]@,
            w,
        )) {
        let i = choose|i: int|
            0 <= i < modules.len() && (same_name((#[trigger] modules[i])@, k) || same_name(
                modules[i]@,
                w,
            ));
        assert(is_loaded(modules, k) || is_loaded(modules, w));
    }
    if is_loaded(modules, k) {
        let i = choose|i: int| 0 <= i < modules.len() && same_name((#[trigger] modules[i])@, k);
        assert(same_name(modules[i]@, k) || same_name(modules[i]@, w));
    }
    if is_loaded(modules, w) {
        let i = choose|i: int| 0 <= i < modules.len() && same_name((#[trigger] modules[i])@, w);
        assert(same_name(modules[i]@, k) || same_name(modules[i]@, w));
    }
}

/// Every round of the wait resumes the thread, sleeps for a tenth of a second,
/// suspends the thread and looks. A look ends the wait if the loader is ready;
/// else it goes on with the next round, up to the sixtieth.
pub proof fn wait_goes_round_by_round(failed: u32, modules: Seq<String>)
    requires
        failed < 60,
    ensures
        ({
            let resume = LoaderWait::Resume { failed };
            let sleep = resume.after(modules);
            let suspend = sleep.after(modules);
            let look = suspend.after(modules);
            &&& resume.wf() && sleep.wf() && suspend.wf() && look.wf()
            &&& resume.due() == Some(LoaderAction::ResumeThread)
            &&& sleep.due() == Some(LoaderAction::Sleep { millis: 100 })
            &&& suspend.due() == Some(LoaderAction::SuspendThread)
            &&& look.due() == Some(LoaderAction::ListModules)
            &&& is_loader_ready(modules) ==> look.after(modules) == (LoaderWait::Ready {
                attempt: (failed + 1) as u32,
            })
            &&& !is_loader_ready(modules) && failed < 59 ==> look.after(modules)
                == (LoaderWait::Resume { failed: (failed + 1) as u32 })
            &&& !is_loader_ready(modules) && failed == 59 ==> look.after(modules)
                == LoaderWait::GivenUp
        }),
{
}

/// A wait that is over has no step left and stays as it is.
pub proof fn wait_that_is_over_stays_over(attempt: u32, modules: Seq<String>)
    ensures
        (LoaderWait::Ready { attempt }).due() is None,
        (LoaderWait::Ready { attempt }).after(modules) == (LoaderWait::Ready { attempt }),
        LoaderWait::GivenUp.due() is None,
        LoaderWait::GivenUp.after(modules) == LoaderWait::GivenUp,
{
}

/// A file is refused for the first thing wrong with it: it ends before the
/// magic, has another magic, ends before the version, has another version than
/// 1, ends before the block, its block is damaged or holds another number of
/// bytes than the header promises, or these begin with no payload. Nothing else
/// makes a file refused, and what is read is the payload that they begin with.
pub proof fn files_are_refused_for_the_first_fault(
    file: Seq<u8>,
    outcome: Result<SnapshotPayload, QuickResumeError>,
)
    requires
        reports(outcome, reading(file)),
    ensures
        ({
            let magic = file[0] == 0x51 && file[1] == 0x52 && file[2] == 0x53 && file[3] == 0x56;
            let eof = outcome matches Err(QuickResumeError::Io(s)) && s@
                == "failed to fill whole buffer"@;
            let version = u32_at(file, 4);
            let size = (u64_at(file, 16) as u64) as usize;
            let sound = file.len() >= 24 && magic && version == 1;
            let block = lz4_decompressed(file.skip(24));
            &&& file.len() < 4 ==> eof
            &&& file.len() >= 4 && !magic ==> (outcome matches Err(
                QuickResumeError::InvalidSnapshotMagic,
            ))
            &&& 4 <= file.len() < 8 && magic ==> eof
            &&& file.len() >= 8 && magic && version != 1 ==> (outcome matches Err(
                QuickResumeError::UnsupportedVersion(v),
            ) && v == version)
            &&& 8 <= file.len() < 24 && magic && version == 1 ==> eof
            &&& sound && block is Err ==> (outcome matches Err(QuickResumeError::Other(s)) && s@
                == "LZ4 decompress failed: "@ + block->Err_0)
            &&& sound && block is Ok && block->Ok_0.len() != size ==> (outcome matches Err(
                QuickResumeError::Other(s),
            ) && s@ == "Size mismatch: expected "@ + decimal(size as nat) + " bytes, got "@
                + decimal(block->Ok_0.len()))
            &&& sound && block is Ok && block->Ok_0.len() == size ==> match outcome {
                Ok(p) => payload_bytes(p@).is_prefix_of(block->Ok_0),
                Err(e) => e is Serialize && forall|q: PayloadView|
                    !(#[trigger] payload_bytes(q)).is_prefix_of(block->Ok_0),
            }
        }),
{
    if file.len() >= 4 {
        let front = file.take(4);
        let letters = seq![0x51u8, 0x52u8, 0x53u8, 0x56u8];
        assert(front[0] == file[0] && front[1] == file[1] && front[2] == file[2] && front[3]
            == file[3]);
        if file[0] == 0x51 && file[1] == 0x52 && file[2] == 0x53 && file[3] == 0x56 {
            assert(front =~= letters);
        }
    }
}

/// A payload is read from its serialized form, whatever follows it.
pub proof fn payload_is_read_from_its_front(p: PayloadView, rest: Seq<u8>)
    requires
        (payload_bytes(p) + rest).len() <= u64::MAX,
    ensures
        payload_in(payload_bytes(p) + rest) == Reading::Payload(p),
{
    let all = payload_bytes(p) + rest;
    assert(payload_bytes(p).is_prefix_of(all)) by {
        assert(all.take(payload_bytes(p).len() as int) =~= payload_bytes(p));
        assert(all.subrange(0, payload_bytes(p).len() as int) =~= payload_bytes(p));
    }
    let q = choose|q: PayloadView| (#[trigger] payload_bytes(q)).is_prefix_of(all);
    payload_unique(p, q, all);
}

/// A decompressed block is judged by its size first, and then by what it begins
/// with.
pub proof fn block_is_judged_by_its_size_first(raw: Seq<u8>, text: Seq<char>, size: usize)
    ensures
        unpacked(Err(text), size) == Reading::BadBlock(text),
        raw.len() != size ==> unpacked(Ok(raw), size) == (Reading::WrongSize {
            expected: size,
            got: raw.len(),
        }),
        raw.len() == size ==> unpacked(Ok(raw), size) == payload_in(raw),
{
}

/// A file can be given to the reader unless it has a sound header and a block
/// that the decompressor cannot be given.
pub proof fn only_blocks_keep_files_from_the_reader(file: Seq<u8>)
    ensures
        file.len() < 24 ==> block_fits(file),
        file.len() >= 4 && file.take(4) != seq![0x51u8, 0x52u8, 0x53u8, 0x56u8] ==> block_fits(
            file,
        ),
        u32_at(file, 4) != 1 ==> block_fits(file),
        lengths_fit(file.skip(24)) ==> block_fits(file),
{
}

/// A file promises too much exactly if it is sound and its header tells a larger
/// size than its block.
pub proof fn promise_is_held_against_the_block(file: Seq<u8>)
    requires
        file.len() >= 28,
        file.take(4) == seq![0x51u8, 0x52u8, 0x53u8, 0x56u8],
        u32_at(file, 4) == 1,
    ensures
        promises_too_much(file) <==> ((u64_at(file, 16) as u64) as usize) > u32_at(file, 24),
{
}

} // verus!
