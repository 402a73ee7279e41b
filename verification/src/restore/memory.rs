//! Writing the memory regions of a snapshot into a freshly launched process.
//!
//! A region is written to fresh pages at its own address. Where something is
//! mapped there already, the pages in place are overwritten if that makes
//! sense.
use crate::process::info::RegionInfo;
use crate::snapshot::memory::{MemoryRegion, RegionView};
use crate::util::error::QuickResumeError;
use crate::util::win32::{MEM_FREE, MEM_IMAGE, PAGE_EXECUTE_READWRITE, PAGE_GUARD};
use vstd::prelude::*;

verus! {

/// What became of a region.
#[derive(Debug, PartialEq, Eq, Clone, Copy, Structural)]
pub enum RestoreOutcome {
    /// Written to fresh pages.
    AllocatedAndWritten,
    /// Written over the pages in place.
    DirectWritten,
    /// A guard page is in place.
    SkipGuard,
    /// Pages of an executable or DLL are in place, loaded from disk.
    SkipImage,
    /// Nothing is mapped at the address, and nothing could be.
    SkipNotMapped,
    /// The write failed with this code.
    SkipWriteError(u32),
}

/// A call to make on the target process.
#[derive(Debug, PartialEq, Eq, Clone, Copy, Structural)]
pub enum RestoreAction {
    /// Reserve and commit readable, writable and executable pages.
    Allocate { address: u64, size: usize },
    /// Release an allocation.
    Free { address: u64 },
    /// Describe the region at an address.
    Query { address: u64 },
    /// Change the protection of pages.
    Protect { address: u64, size: usize, protect: u32 },
    /// Write the bytes of the region.
    Write { address: u64 },
}

/// What came of a call.
#[derive(Debug, PartialEq, Eq, Clone, Copy, Structural)]
pub enum RestoreReply {
    /// Where the pages were allocated, or 0 if they were not.
    Allocated { at: u64 },
    /// The region found, if there is one.
    Queried { found: Option<RegionInfo> },
    /// The code of the error, if the write failed.
    Written { error: Option<i32> },
    /// A release or a change of protection was tried.
    Tried,
}

/// How the restore of a region ended.
#[derive(Debug, PartialEq, Eq, Clone, Copy, Structural)]
pub enum RegionEnd {
    Outcome(RestoreOutcome),
    /// The write to fresh pages failed with this code.
    FreshWriteFailed { code: i32 },
}

/// How far the restore of a region has come: the call that is due, with what
/// is known from the calls before it.
#[derive(Debug, PartialEq, Eq, Clone, Copy, Structural)]
pub enum RegionRestore {
    Allocate,
    WriteFresh,
    ProtectFresh { error: Option<i32> },
    FreeMisplaced { at: u64 },
    Query,
    Unprotect { target_type: u32 },
    WriteInPlace { target_type: u32 },
    ProtectInPlace { target_type: u32, error: Option<i32> },
    Finished(RegionEnd),
}

/// The size given to a change of protection: at least one byte.
pub open spec fn protected_size(region: RegionView) -> usize {
    if region.data.len() == 0 {
        1
    } else {
        region.data.len() as usize
    }
}

/// The pages found at the region's address are to be overwritten.
pub open spec fn overwrites(region: RegionView, found: RegionInfo) -> bool {
    &&& found.state != MEM_FREE
    &&& found.protect & PAGE_GUARD == 0
    &&& !(found.region_type == MEM_IMAGE && region.region_type == MEM_IMAGE)
}

/// The end of a restore that finds pages not to be overwritten.
pub open spec fn skip_reason(found: RegionInfo) -> RestoreOutcome {
    if found.state == MEM_FREE {
        RestoreOutcome::SkipNotMapped
    } else if found.protect & PAGE_GUARD != 0 {
        RestoreOutcome::SkipGuard
    } else {
        RestoreOutcome::SkipImage
    }
}

/// The end of a restore that wrote to fresh pages.
pub open spec fn fresh_end(error: Option<i32>) -> RegionEnd {
    match error {
        None => RegionEnd::Outcome(RestoreOutcome::AllocatedAndWritten),
        Some(code) => RegionEnd::FreshWriteFailed { code },
    }
}

/// The end of a restore that wrote over pages of this type.
pub open spec fn in_place_end(target_type: u32, error: Option<i32>) -> RestoreOutcome {
    match error {
        None => RestoreOutcome::DirectWritten,
        Some(code) => if target_type == MEM_IMAGE {
            RestoreOutcome::SkipImage
        } else {
            RestoreOutcome::SkipWriteError(code as u32)
        },
    }
}

/// The reply is one to the action.
pub open spec fn answers(action: RestoreAction, reply: RestoreReply) -> bool {
    match action {
        RestoreAction::Allocate { .. } => reply is Allocated,
        RestoreAction::Query { .. } => reply is Queried,
        RestoreAction::Write { .. } => reply is Written,
        RestoreAction::Free { .. } | RestoreAction::Protect { .. } => reply is Tried,
    }
}

impl RegionRestore {
    /// The call that is due, or none at the end.
    pub open spec fn due(self, region: RegionView) -> Option<RestoreAction> {
        let address = region.base_address;
        let size = protected_size(region);
        match self {
            RegionRestore::Allocate => Some(
                RestoreAction::Allocate { address, size: region.size },
            ),
            RegionRestore::FreeMisplaced { at } => Some(RestoreAction::Free { address: at }),
            RegionRestore::Query => Some(RestoreAction::Query { address }),
            RegionRestore::Unprotect { .. } => Some(
                RestoreAction::Protect { address, size, protect: PAGE_EXECUTE_READWRITE },
            ),
            RegionRestore::WriteFresh | RegionRestore::WriteInPlace { .. } => Some(
                RestoreAction::Write { address },
            ),
            RegionRestore::ProtectFresh { .. } | RegionRestore::ProtectInPlace { .. } => Some(
                RestoreAction::Protect { address, size, protect: region.protect },
            ),
            RegionRestore::Finished(_) => None,
        }
    }

    /// The next state, once the call that is due was answered.
    pub open spec fn after(self, region: RegionView, reply: RestoreReply) -> RegionRestore {
        match (self, reply) {
            (RegionRestore::Allocate, RestoreReply::Allocated { at }) => if at == 0 {
                RegionRestore::Query
            } else if at == region.base_address {
                RegionRestore::WriteFresh
            } else {
                RegionRestore::FreeMisplaced { at }
            },
            (RegionRestore::WriteFresh, RestoreReply::Written { error }) => {
                RegionRestore::ProtectFresh { error }
            },
            (RegionRestore::ProtectFresh { error }, _) => RegionRestore::Finished(fresh_end(error)),
            (RegionRestore::FreeMisplaced { .. }, _) => RegionRestore::Query,
            (RegionRestore::Query, RestoreReply::Queried { found: None }) => {
                RegionRestore::Finished(RegionEnd::Outcome(RestoreOutcome::SkipNotMapped))
            },
            (RegionRestore::Query, RestoreReply::Queried { found: Some(found) }) => if overwrites(
                region,
                found,
            ) {
                RegionRestore::Unprotect { target_type: found.region_type }
            } else {
                RegionRestore::Finished(RegionEnd::Outcome(skip_reason(found)))
            },
            (RegionRestore::Unprotect { target_type }, _) => RegionRestore::WriteInPlace {
                target_type,
            },
            (RegionRestore::WriteInPlace { target_type }, RestoreReply::Written { error }) => {
                RegionRestore::ProtectInPlace { target_type, error }
            },
            (RegionRestore::ProtectInPlace { target_type, error }, _) => RegionRestore::Finished(
                RegionEnd::Outcome(in_place_end(target_type, error)),
            ),
            _ => self,
        }
    }

    /// The restore of a region before its first call.
    pub fn start() -> (s: RegionRestore)
        ensures
            s == RegionRestore::Allocate,
    {
        RegionRestore::Allocate
    }

    /// The call that is due for `region`, or `None` at the end.
    pub fn action(&self, region: &MemoryRegion) -> (a: Option<RestoreAction>)
        ensures
            a == self.due(region@),
    {
        let address = region.base_address;
        let size: usize = if region.data.len() == 0 {
            1
        } else {
            region.data.len()
        };
        match *self {
            RegionRestore::Allocate => Some(
                RestoreAction::Allocate { address, size: region.size },
            ),
            RegionRestore::FreeMisplaced { at } => Some(RestoreAction::Free { address: at }),
            RegionRestore::Query => Some(RestoreAction::Query { address }),
            RegionRestore::Unprotect { .. } => Some(
                RestoreAction::Protect { address, size, protect: PAGE_EXECUTE_READWRITE },
            ),
            RegionRestore::WriteFresh | RegionRestore::WriteInPlace { .. } => Some(
                RestoreAction::Write { address },
            ),
            RegionRestore::ProtectFresh { .. } | RegionRestore::ProtectInPlace { .. } => Some(
                RestoreAction::Protect { address, size, protect: region.protect },
            ),
            RegionRestore::Finished(_) => None,
        }
    }

    /// Takes the answer to the call that was due.
    pub fn step(self, region: &MemoryRegion, reply: RestoreReply) -> (next: RegionRestore)
        requires
            self.due(region@) matches Some(action) && answers(action, reply),
        ensures
            next == self.after(region@, reply),
    {
        match self {
            RegionRestore::Allocate => match reply {
                RestoreReply::Allocated { at } => if at == 0 {
                    RegionRestore::Query
                } else if at == region.base_address {
                    RegionRestore::WriteFresh
                } else {
                    RegionRestore::FreeMisplaced { at }
                },
                _ => self,
            },
            RegionRestore::WriteFresh => match reply {
                RestoreReply::Written { error } => RegionRestore::ProtectFresh { error },
                _ => self,
            },
            RegionRestore::ProtectFresh { error } => match error {
                None => RegionRestore::Finished(
                    RegionEnd::Outcome(RestoreOutcome::AllocatedAndWritten),
                ),
                Some(code) => RegionRestore::Finished(RegionEnd::FreshWriteFailed { code }),
            },
            RegionRestore::FreeMisplaced { .. } => RegionRestore::Query,
            RegionRestore::Query => match reply {
                RestoreReply::Queried { found } => match found {
                    None => RegionRestore::Finished(
                        RegionEnd::Outcome(RestoreOutcome::SkipNotMapped),
                    ),
                    Some(target) => Self::examine(region, target),
                },
                _ => self,
            },
            RegionRestore::Unprotect { target_type } => RegionRestore::WriteInPlace { target_type },
            RegionRestore::WriteInPlace { target_type } => match reply {
                RestoreReply::Written { error } => RegionRestore::ProtectInPlace {
                    target_type,
                    error,
                },
                _ => self,
            },
            RegionRestore::ProtectInPlace { target_type, error } => match error {
                None => RegionRestore::Finished(RegionEnd::Outcome(RestoreOutcome::DirectWritten)),
                Some(code) => if target_type == MEM_IMAGE {
                    RegionRestore::Finished(RegionEnd::Outcome(RestoreOutcome::SkipImage))
                } else {
                    RegionRestore::Finished(
                        RegionEnd::Outcome(
                            RestoreOutcome::SkipWriteError(#[verifier::truncate] (code as u32)),
                        ),
                    )
                },
            },
            RegionRestore::Finished(_) => self,
        }
    }

    /// Decides whether the pages in place are overwritten.
    fn examine(region: &MemoryRegion, target: RegionInfo) -> (next: RegionRestore)
        ensures
            next == RegionRestore::Query.after(
                region@,
                RestoreReply::Queried { found: Some(target) },
            ),
    {
        if target.state == MEM_FREE {
            RegionRestore::Finished(RegionEnd::Outcome(RestoreOutcome::SkipNotMapped))
        } else if target.protect & PAGE_GUARD != 0 {
            RegionRestore::Finished(RegionEnd::Outcome(RestoreOutcome::SkipGuard))
        } else if target.region_type == MEM_IMAGE && region.region_type == MEM_IMAGE {
            RegionRestore::Finished(RegionEnd::Outcome(RestoreOutcome::SkipImage))
        } else {
            RegionRestore::Unprotect { target_type: target.region_type }
        }
    }

    /// The result for `region`, once there is one.
    pub fn result(&self, region: &MemoryRegion) -> (r: Option<
        Result<RestoreOutcome, QuickResumeError>,
    >)
        ensures
            match *self {
                RegionRestore::Finished(end) => r matches Some(result) && is_result(
                    result,
                    end,
                    region.base_address,
                ),
                _ => r is None,
            },
    {
        match *self {
            RegionRestore::Finished(end) => match end {
                RegionEnd::Outcome(outcome) => Some(Ok(outcome)),
                RegionEnd::FreshWriteFailed { code } => Some(
                    Err(
                        QuickResumeError::WriteMemoryFailed { address: region.base_address, code },
                    ),
                ),
            },
            _ => None,
        }
    }
}

/// `result` reports this end of the restore of a region at `address`.
pub open spec fn is_result(
    result: Result<RestoreOutcome, QuickResumeError>,
    end: RegionEnd,
    address: u64,
) -> bool {
    match end {
        RegionEnd::Outcome(outcome) => result == Ok::<RestoreOutcome, QuickResumeError>(outcome),
        RegionEnd::FreshWriteFailed { code } => result == Err::<RestoreOutcome, QuickResumeError>(
            QuickResumeError::WriteMemoryFailed { address, code },
        ),
    }
}

/// How a target process answers the calls made on it for one region.
pub struct Target {
    /// Where an allocation lands, 0 if it fails.
    pub at: u64,
    /// The region in place.
    pub found: Option<RegionInfo>,
    /// The error of a write.
    pub error: Option<i32>,
}

impl Target {
    pub open spec fn reply(self, action: RestoreAction) -> RestoreReply {
        match action {
            RestoreAction::Allocate { .. } => RestoreReply::Allocated { at: self.at },
            RestoreAction::Query { .. } => RestoreReply::Queried { found: self.found },
            RestoreAction::Write { .. } => RestoreReply::Written { error: self.error },
            RestoreAction::Free { .. } | RestoreAction::Protect { .. } => RestoreReply::Tried,
        }
    }

    /// Fresh pages can be had at the region's address.
    pub open spec fn is_fresh(self, region: RegionView) -> bool {
        self.at != 0 && self.at == region.base_address
    }

    /// The pages in place are overwritten.
    pub open spec fn is_overwritten(self, region: RegionView) -> bool {
        !self.is_fresh(region) && (self.found matches Some(found) && overwrites(region, found))
    }
}

/// The calls made within `steps` steps from a state.
pub open spec fn calls(
    state: RegionRestore,
    region: RegionView,
    target: Target,
    steps: nat,
) -> Seq<RestoreAction>
    decreases steps,
{
    match state.due(region) {
        Some(action) => if steps == 0 {
            Seq::empty()
        } else {
            seq![action] + calls(
                state.after(region, target.reply(action)),
                region,
                target,
                (steps - 1) as nat,
            )
        },
        None => Seq::empty(),
    }
}

/// The state reached within `steps` steps from a state.
pub open spec fn reached(
    state: RegionRestore,
    region: RegionView,
    target: Target,
    steps: nat,
) -> RegionRestore
    decreases steps,
{
    match state.due(region) {
        Some(action) => if steps == 0 {
            state
        } else {
            reached(
                state.after(region, target.reply(action)),
                region,
                target,
                (steps - 1) as nat,
            )
        },
        None => state,
    }
}

/// The calls of an attempt at fresh pages, up to the point where they are known
/// to be at the region's address or not.
pub open spec fn allocation_calls(region: RegionView, target: Target) -> Seq<RestoreAction> {
    let allocate = RestoreAction::Allocate { address: region.base_address, size: region.size };
    if target.at != 0 && target.at != region.base_address {
        seq![allocate, RestoreAction::Free { address: target.at }]
    } else {
        seq![allocate]
    }
}

/// A change of the protection of the region's pages.
pub open spec fn protect_call(region: RegionView, protect: u32) -> RestoreAction {
    RestoreAction::Protect {
        address: region.base_address,
        size: protected_size(region),
        protect,
    }
}

/// All calls made for a region.
pub open spec fn planned_calls(region: RegionView, target: Target) -> Seq<RestoreAction> {
    let address = region.base_address;
    let write = RestoreAction::Write { address };
    if target.is_fresh(region) {
        allocation_calls(region, target) + seq![write, protect_call(region, region.protect)]
    } else if target.is_overwritten(region) {
        allocation_calls(region, target) + seq![
            RestoreAction::Query { address },
            protect_call(region, PAGE_EXECUTE_READWRITE),
            write,
            protect_call(region, region.protect),
        ]
    } else {
        allocation_calls(region, target) + seq![RestoreAction::Query { address }]
    }
}

/// What becomes of a region.
pub open spec fn planned_end(region: RegionView, target: Target) -> RegionEnd {
    if target.is_fresh(region) {
        fresh_end(target.error)
    } else {
        match target.found {
            None => RegionEnd::Outcome(RestoreOutcome::SkipNotMapped),
            Some(found) => if overwrites(region, found) {
                RegionEnd::Outcome(in_place_end(found.region_type, target.error))
            } else {
                RegionEnd::Outcome(skip_reason(found))
            },
        }
    }
}

/// The restore of a region ends after at most six calls, makes exactly the
/// planned ones and has the planned end.
pub proof fn restore_follows_the_plan(region: RegionView, target: Target)
    ensures
        calls(RegionRestore::Allocate, region, target, 6) == planned_calls(region, target),
        reached(RegionRestore::Allocate, region, target, 6) == RegionRestore::Finished(
            planned_end(region, target),
        ),
{
    reveal_with_fuel(calls, 7);
    reveal_with_fuel(reached, 7);
    assert(calls(RegionRestore::Allocate, region, target, 6) =~= planned_calls(region, target));
}

/// Whatever is written is given the protection it had in the snapshot right
/// afterwards, whether the write succeeded or not.
pub proof fn protection_is_restored_after_a_write(region: RegionView, target: Target, i: int)
    requires
        0 <= i < planned_calls(region, target).len(),
        planned_calls(region, target)[i] is Write,
    ensures
        i + 1 < planned_calls(region, target).len(),
        planned_calls(region, target)[i + 1] == protect_call(region, region.protect),
{
}

/// Fresh pages at another address than the region's are released before
/// anything else is done.
pub proof fn misplaced_pages_are_released(region: RegionView, target: Target)
    requires
        target.at != 0,
        target.at != region.base_address,
    ensures
        planned_calls(region, target).len() > 1,
        planned_calls(region, target)[1] == (RestoreAction::Free { address: target.at }),
{
}

/// Bytes are written only to fresh pages or over mapped pages without a guard,
/// and only to the region's own address.
pub proof fn writes_only_where_it_may(region: RegionView, target: Target, i: int)
    requires
        0 <= i < planned_calls(region, target).len(),
        planned_calls(region, target)[i] is Write,
    ensures
        planned_calls(region, target)[i] == (RestoreAction::Write {
            address: region.base_address,
        }),
        target.is_fresh(region) || (target.found matches Some(found) && found.state != MEM_FREE
            && found.protect & PAGE_GUARD == 0),
{
}

/// A region counts as restored exactly if its bytes were written without error.
pub proof fn restored_means_written(region: RegionView, target: Target)
    ensures
        (planned_end(region, target) == RegionEnd::Outcome(RestoreOutcome::AllocatedAndWritten)
            || planned_end(region, target) == RegionEnd::Outcome(RestoreOutcome::DirectWritten))
            <==> (target.error is None && planned_calls(region, target).contains(
            RestoreAction::Write { address: region.base_address },
        )),
{
    let write = RestoreAction::Write { address: region.base_address };
    let all = planned_calls(region, target);
    let n = allocation_calls(region, target).len() as int;
    if target.is_fresh(region) {
        assert(all[n] == write);
    } else if target.is_overwritten(region) {
        assert(all[n + 2] == write);
    }
}

/// What came of the restore of one region.
pub type RegionResult = Result<RestoreOutcome, QuickResumeError>;

/// The number of write errors that are reported one by one.
pub const REPORTED_WRITE_ERRORS: usize = 10;

/// The counts reported of a restore.
pub struct MemoryReport {
    pub alloc_ok: usize,
    pub fallback_ok: usize,
    pub skip_guard: usize,
    pub skip_image: usize,
    pub skip_not_mapped: usize,
    pub skip_write_err: usize,
    /// All regions that were written.
    pub restored: usize,
    /// All regions that were not.
    pub skipped: usize,
    /// Whether to warn of regions that could not be written anywhere.
    pub warns: bool,
    /// The positions of the regions whose failure is to be reported.
    pub reported: Vec<usize>,
}

/// How many of the regions came to this outcome.
pub open spec fn count(results: Seq<RegionResult>, outcome: RestoreOutcome) -> nat {
    results.filter(|r: RegionResult| r == Ok::<RestoreOutcome, QuickResumeError>(outcome)).len()
}

/// The region could not be written, neither to fresh pages nor in place.
pub open spec fn is_write_error(result: RegionResult) -> bool {
    match result {
        Ok(outcome) => outcome is SkipWriteError,
        Err(_) => true,
    }
}

/// How many of the regions could not be written.
pub open spec fn write_errors(results: Seq<RegionResult>) -> nat {
    results.filter(|r: RegionResult| is_write_error(r)).len()
}

/// How many of the regions were written.
pub open spec fn restored(results: Seq<RegionResult>) -> nat {
    count(results, RestoreOutcome::AllocatedAndWritten) + count(
        results,
        RestoreOutcome::DirectWritten,
    )
}

/// The failure of region `i` is reported: always for fresh pages, and in place
/// for the first write errors only.
pub open spec fn is_reported(results: Seq<RegionResult>, i: int) -> bool {
    match results[i] {
        Ok(outcome) => outcome is SkipWriteError && write_errors(results.take(i + 1))
            <= REPORTED_WRITE_ERRORS,
        Err(_) => true,
    }
}

/// The report on these results.
pub open spec fn is_report(report: MemoryReport, results: Seq<RegionResult>) -> bool {
    &&& report.alloc_ok == count(results, RestoreOutcome::AllocatedAndWritten)
    &&& report.fallback_ok == count(results, RestoreOutcome::DirectWritten)
    &&& report.skip_guard == count(results, RestoreOutcome::SkipGuard)
    &&& report.skip_image == count(results, RestoreOutcome::SkipImage)
    &&& report.skip_not_mapped == count(results, RestoreOutcome::SkipNotMapped)
    &&& report.skip_write_err == write_errors(results)
    &&& report.restored == restored(results)
    &&& report.skipped == results.len() - restored(results)
    &&& report.warns == (count(results, RestoreOutcome::SkipNotMapped) > 0 || write_errors(results)
        > 0)
    &&& report.reported@.map_values(|i: usize| i as int) == Seq::new(
        results.len(),
        |i: int| i,
    ).filter(|i: int| is_reported(results, i))
}

/// The report counts every region exactly once.
pub proof fn report_counts_every_region(report: MemoryReport, results: Seq<RegionResult>)
    requires
        is_report(report, results),
    ensures
        report.alloc_ok + report.fallback_ok + report.skip_guard + report.skip_image
            + report.skip_not_mapped + report.skip_write_err == results.len(),
        report.restored == report.alloc_ok + report.fallback_ok,
        report.skipped == report.skip_guard + report.skip_image + report.skip_not_mapped
            + report.skip_write_err,
{
    lemma_counts(results);
}

proof fn lemma_counts(results: Seq<RegionResult>)
    ensures
        restored(results) + count(results, RestoreOutcome::SkipGuard) + count(
            results,
            RestoreOutcome::SkipImage,
        ) + count(results, RestoreOutcome::SkipNotMapped) + write_errors(results) == results.len(),
    decreases results.len(),
{
    reveal(Seq::filter);
    if results.len() > 0 {
        lemma_counts(results.drop_last());
    }
}

proof fn lemma_reported_step(results: Seq<RegionResult>, i: nat)
    ensures
        Seq::new(i + 1, |k: int| k).filter(|k: int| is_reported(results, k)) == {
            let before = Seq::new(i, |k: int| k).filter(|k: int| is_reported(results, k));
            if is_reported(results, i as int) {
                before.push(i as int)
            } else {
                before
            }
        },
{
    reveal(Seq::filter);
    assert(Seq::new(i + 1, |k: int| k).drop_last() =~= Seq::new(i, |k: int| k));
}

/// Counts what became of the regions. Individual failures do not make the
/// restore fail, only that nothing at all was written.
pub fn restore_memory(results: &[RegionResult]) -> (r: (
    MemoryReport,
    Result<(), QuickResumeError>,
))
    ensures
        is_report(r.0, results@),
        restored(results@) > 0 ==> r.1 is Ok,
        restored(results@) == 0 ==> (r.1 matches Err(e) && e.is_other(
            "All memory region restores failed"@,
        )),
{
    let mut report = MemoryReport {
        alloc_ok: 0,
        fallback_ok: 0,
        skip_guard: 0,
        skip_image: 0,
        skip_not_mapped: 0,
        skip_write_err: 0,
        restored: 0,
        skipped: 0,
        warns: false,
        reported: Vec::new(),
    };
    proof {
        reveal(Seq::filter);
    }
    assert(results@.take(0) =~= Seq::empty());
    assert(report.reported@.map_values(|i: usize| i as int) =~= Seq::new(0, |k: int| k).filter(
        |k: int| is_reported(results@, k),
    ));
    for i in 0..results.len()
        invariant
            report.alloc_ok == count(
                results@.take(i as int),
                RestoreOutcome::AllocatedAndWritten,
            ),
            report.fallback_ok == count(results@.take(i as int), RestoreOutcome::DirectWritten),
            report.skip_guard == count(results@.take(i as int), RestoreOutcome::SkipGuard),
            report.skip_image == count(results@.take(i as int), RestoreOutcome::SkipImage),
            report.skip_not_mapped == count(
                results@.take(i as int),
                RestoreOutcome::SkipNotMapped,
            ),
            report.skip_write_err == write_errors(results@.take(i as int)),
            report.reported@.map_values(|k: usize| k as int) == Seq::new(
                i as nat,
                |k: int| k,
            ).filter(|k: int| is_reported(results@, k)),
    {
        proof {
            lemma_counts(results@.take(i as int));
            lemma_reported_step(results@, i as nat);
            reveal(Seq::filter);
        }
        assert(results@.take(i + 1).drop_last() =~= results@.take(i as int));
        let ghost before = report.reported@;
        let mut reported: bool = false;
        match &results[i] {
            Ok(RestoreOutcome::AllocatedAndWritten) => {
                report.alloc_ok = report.alloc_ok + 1;
            },
            Ok(RestoreOutcome::DirectWritten) => {
                report.fallback_ok = report.fallback_ok + 1;
            },
            Ok(RestoreOutcome::SkipGuard) => {
                report.skip_guard = report.skip_guard + 1;
            },
            Ok(RestoreOutcome::SkipImage) => {
                report.skip_image = report.skip_image + 1;
            },
            Ok(RestoreOutcome::SkipNotMapped) => {
                report.skip_not_mapped = report.skip_not_mapped + 1;
            },
            Ok(RestoreOutcome::SkipWriteError(_)) => {
                report.skip_write_err = report.skip_write_err + 1;
                reported = report.skip_write_err <= REPORTED_WRITE_ERRORS;
            },
            Err(_) => {
                report.skip_write_err = report.skip_write_err + 1;
                reported = true;
            },
        }
        assert(reported == is_reported(results@, i as int));
        if reported {
            report.reported.push(i);
            assert(report.reported@.map_values(|k: usize| k as int) =~= before.map_values(
                |k: usize| k as int,
            ).push(i as int));
        }
    }
    assert(results@.take(results.len() as int) =~= results@);
    proof {
        lemma_counts(results@);
    }
    report.restored = report.alloc_ok + report.fallback_ok;
    report.skipped = results.len() - report.restored;
    report.warns = report.skip_not_mapped > 0 || report.skip_write_err > 0;
    let result = if report.restored == 0 {
        Err(QuickResumeError::Other("All memory region restores failed".to_string()))
    } else {
        Ok(())
    };
    (report, result)
}

} // verus!
