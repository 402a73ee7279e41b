use quick_resume::process::info::RegionInfo;
use quick_resume::restore::launch::{
    loader_ready, resume_main_thread, LoaderAction, LoaderWait, LOADER_ATTEMPTS,
};
use quick_resume::restore::memory::{
    restore_memory, RegionRestore, RegionResult, RestoreAction, RestoreOutcome, RestoreReply,
};
use quick_resume::restore::threads::{
    check_context, pair_threads, restore_one, restore_thread_contexts, ThreadPair, ThreadReport,
};
use quick_resume::snapshot::memory::MemoryRegion;
use quick_resume::snapshot::threads::ThreadSnapshot;
use quick_resume::util::error::QuickResumeError;

const COMMIT: u32 = 0x1000;
const FREE: u32 = 0x1_0000;
const PRIVATE: u32 = 0x2_0000;
const IMAGE: u32 = 0x100_0000;

const BASE: u64 = 0x40_0000;

fn saved(region_type: u32, data: Vec<u8>) -> MemoryRegion {
    MemoryRegion { base_address: BASE, size: 0x1000, protect: 4, region_type, data }
}

fn in_place(state: u32, protect: u32, region_type: u32) -> Option<RegionInfo> {
    Some(RegionInfo { base_address: BASE, size: 0x1000, state, protect, region_type })
}

/// Restores a region against a target that answers in this way.
fn run(
    region: &MemoryRegion,
    at: u64,
    found: Option<RegionInfo>,
    error: Option<i32>,
) -> (Vec<RestoreAction>, RegionResult) {
    let mut calls = Vec::new();
    let mut state = RegionRestore::start();
    while let Some(action) = state.action(region) {
        calls.push(action);
        let reply = match action {
            RestoreAction::Allocate { .. } => RestoreReply::Allocated { at },
            RestoreAction::Query { .. } => RestoreReply::Queried { found },
            RestoreAction::Write { .. } => RestoreReply::Written { error },
            _ => RestoreReply::Tried,
        };
        assert!(state.result(region).is_none());
        state = state.step(region, reply);
    }
    (calls, state.result(region).unwrap())
}

const ALLOCATE: RestoreAction = RestoreAction::Allocate { address: BASE, size: 0x1000 };
const QUERY: RestoreAction = RestoreAction::Query { address: BASE };
const WRITE: RestoreAction = RestoreAction::Write { address: BASE };

fn protect(size: usize, protect: u32) -> RestoreAction {
    RestoreAction::Protect { address: BASE, size, protect }
}

#[test]
fn fresh_pages_are_written_and_protected() {
    let region = saved(PRIVATE, vec![1, 2, 3]);
    let (calls, result) = run(&region, BASE, None, None);
    assert_eq!(calls, vec![ALLOCATE, WRITE, protect(3, 4)]);
    assert!(matches!(result, Ok(RestoreOutcome::AllocatedAndWritten)));
}

#[test]
fn failed_write_to_fresh_pages_is_an_error() {
    let region = saved(PRIVATE, vec![1, 2, 3]);
    let (calls, result) = run(&region, BASE, None, Some(-5));
    assert_eq!(calls, vec![ALLOCATE, WRITE, protect(3, 4)]);
    assert!(matches!(
        result,
        Err(QuickResumeError::WriteMemoryFailed { address: BASE, code: -5 })
    ));
}

#[test]
fn misplaced_pages_are_freed() {
    let region = saved(PRIVATE, vec![1, 2, 3]);
    let (calls, result) = run(&region, 0x99_0000, None, None);
    assert_eq!(
        calls,
        vec![ALLOCATE, RestoreAction::Free { address: 0x99_0000 }, QUERY]
    );
    assert!(matches!(result, Ok(RestoreOutcome::SkipNotMapped)));
}

#[test]
fn mapped_pages_are_overwritten() {
    let region = saved(PRIVATE, vec![1, 2, 3]);
    let (calls, result) = run(&region, 0, in_place(COMMIT, 2, PRIVATE), None);
    assert_eq!(
        calls,
        vec![ALLOCATE, QUERY, protect(3, 0x40), WRITE, protect(3, 4)]
    );
    assert!(matches!(result, Ok(RestoreOutcome::DirectWritten)));
}

#[test]
fn longest_restore_takes_six_calls() {
    let region = saved(PRIVATE, vec![]);
    let (calls, result) = run(&region, 0x10_0000, in_place(COMMIT, 2, IMAGE), None);
    assert_eq!(
        calls,
        vec![
            ALLOCATE,
            RestoreAction::Free { address: 0x10_0000 },
            QUERY,
            protect(1, 0x40),
            WRITE,
            protect(1, 4),
        ]
    );
    assert!(matches!(result, Ok(RestoreOutcome::DirectWritten)));
}

#[test]
fn failed_overwrite_is_categorised() {
    let region = saved(PRIVATE, vec![1]);
    let (calls, result) = run(&region, 0, in_place(COMMIT, 2, PRIVATE), Some(-2147024891));
    assert_eq!(calls.len(), 5);
    assert!(matches!(result, Ok(RestoreOutcome::SkipWriteError(0x8007_0005))));
    let (_, result) = run(&region, 0, in_place(COMMIT, 2, IMAGE), Some(-2147024891));
    assert!(matches!(result, Ok(RestoreOutcome::SkipImage)));
}

#[test]
fn pages_not_to_be_overwritten_are_skipped() {
    let image = saved(IMAGE, vec![1]);
    let private = saved(PRIVATE, vec![1]);
    let (calls, result) = run(&image, 0, in_place(COMMIT, 2, IMAGE), None);
    assert_eq!(calls, vec![ALLOCATE, QUERY]);
    assert!(matches!(result, Ok(RestoreOutcome::SkipImage)));
    let (_, result) = run(&private, 0, in_place(COMMIT, 0x104, PRIVATE), None);
    assert!(matches!(result, Ok(RestoreOutcome::SkipGuard)));
    let (_, result) = run(&image, 0, in_place(COMMIT, 0x102, IMAGE), None);
    assert!(matches!(result, Ok(RestoreOutcome::SkipGuard)));
    let (_, result) = run(&private, 0, in_place(FREE, 0x100, PRIVATE), None);
    assert!(matches!(result, Ok(RestoreOutcome::SkipNotMapped)));
    let (calls, result) = run(&private, 0, None, None);
    assert_eq!(calls, vec![ALLOCATE, QUERY]);
    assert!(matches!(result, Ok(RestoreOutcome::SkipNotMapped)));
}

#[test]
fn report_counts_each_region_once() {
    let results: Vec<RegionResult> = vec![
        Ok(RestoreOutcome::AllocatedAndWritten),
        Ok(RestoreOutcome::AllocatedAndWritten),
        Ok(RestoreOutcome::DirectWritten),
        Ok(RestoreOutcome::SkipGuard),
        Ok(RestoreOutcome::SkipImage),
        Ok(RestoreOutcome::SkipImage),
        Ok(RestoreOutcome::SkipNotMapped),
        Ok(RestoreOutcome::SkipWriteError(5)),
        Err(QuickResumeError::WriteMemoryFailed { address: 1, code: 2 }),
    ];
    let (report, verdict) = restore_memory(&results);
    assert!(verdict.is_ok());
    assert_eq!(report.alloc_ok, 2);
    assert_eq!(report.fallback_ok, 1);
    assert_eq!(report.skip_guard, 1);
    assert_eq!(report.skip_image, 2);
    assert_eq!(report.skip_not_mapped, 1);
    assert_eq!(report.skip_write_err, 2);
    assert_eq!(report.restored, 3);
    assert_eq!(report.skipped, 6);
    assert!(report.warns);
    assert_eq!(report.reported, vec![7, 8]);
}

#[test]
fn only_the_first_write_errors_are_reported() {
    let mut results: Vec<RegionResult> = Vec::new();
    results.push(Err(QuickResumeError::WriteMemoryFailed { address: 1, code: 2 }));
    for _ in 0..12 {
        results.push(Ok(RestoreOutcome::SkipWriteError(5)));
    }
    results.push(Err(QuickResumeError::WriteMemoryFailed { address: 1, code: 2 }));
    results.push(Ok(RestoreOutcome::DirectWritten));
    let (report, verdict) = restore_memory(&results);
    assert!(verdict.is_ok());
    assert_eq!(report.skip_write_err, 14);
    assert_eq!(report.reported, vec![0, 1, 2, 3, 4, 5, 6, 7, 8, 9, 13]);
}

#[test]
fn warning_is_for_regions_that_could_not_be_written() {
    let fine: Vec<RegionResult> = vec![
        Ok(RestoreOutcome::DirectWritten),
        Ok(RestoreOutcome::SkipGuard),
        Ok(RestoreOutcome::SkipImage),
    ];
    let report = restore_memory(&fine).0;
    assert!(!report.warns);
    assert_eq!((report.restored, report.skipped), (1, 2));
    assert!(restore_memory(&[Ok(RestoreOutcome::SkipNotMapped)]).0.warns);
    assert!(restore_memory(&[Ok(RestoreOutcome::SkipWriteError(5))]).0.warns);
}

#[test]
fn restore_of_nothing_fails() {
    let results: Vec<RegionResult> = vec![
        Ok(RestoreOutcome::SkipGuard),
        Ok(RestoreOutcome::SkipNotMapped),
    ];
    for r in [restore_memory(&results), restore_memory(&[])] {
        match r.1 {
            Err(QuickResumeError::Other(text)) => {
                assert_eq!(text, "All memory region restores failed")
            }
            other => panic!("{:?}", other),
        }
    }
}

fn snapshots(n: usize) -> Vec<ThreadSnapshot> {
    (0..n)
        .map(|i| ThreadSnapshot { tid: i as u32, context_bytes: vec![0; 4] })
        .collect()
}

#[test]
fn threads_are_matched_by_position() {
    let expected = vec![
        ThreadPair { new_tid: 900, slot: 0 },
        ThreadPair { new_tid: 800, slot: 1 },
    ];
    assert_eq!(pair_threads(&[900, 800, 700], &snapshots(2)).unwrap(), expected);
    assert_eq!(pair_threads(&[900, 800], &snapshots(5)).unwrap(), expected);
    assert!(pair_threads(&[900], &[]).unwrap().is_empty());
}

#[test]
fn a_process_without_threads_is_an_error() {
    match pair_threads(&[], &snapshots(1)) {
        Err(QuickResumeError::Other(text)) => {
            assert_eq!(text, "No threads found in restored process")
        }
        other => panic!("{:?}", other),
    }
}

#[test]
fn contexts_of_the_wrong_size_are_refused() {
    let snap = ThreadSnapshot { tid: 1, context_bytes: vec![0; 716] };
    assert!(check_context(12, &snap, 716).is_ok());
    match check_context(12, &snap, 1232) {
        Err(QuickResumeError::Other(text)) => {
            assert_eq!(text, "TID 12: context bytes size mismatch (716 vs 1232)")
        }
        other => panic!("{:?}", other),
    }
}

#[test]
fn a_failed_call_names_the_thread() {
    assert!(restore_one(3, Ok(())).is_ok());
    assert!(matches!(
        restore_one(3, Err(-7)),
        Err(QuickResumeError::ThreadContextFailed { tid: 3, code: -7 })
    ));
}

#[test]
fn thread_report_counts_and_drops() {
    let results = vec![restore_one(1, Ok(())), restore_one(2, Err(5)), restore_one(3, Ok(()))];
    let (report, verdict) = restore_thread_contexts(3, 7, &results);
    assert!(verdict.is_ok());
    assert_eq!(
        report,
        ThreadReport { pair_count: 3, succeeded: 2, failed: 1, dropped: 4 }
    );
    assert_eq!(restore_thread_contexts(7, 3, &results).0.dropped, 0);
}

#[test]
fn restore_without_any_thread_context_fails() {
    let all_failed = vec![restore_one(1, Err(5))];
    for r in [restore_thread_contexts(1, 1, &all_failed), restore_thread_contexts(1, 0, &[])] {
        assert_eq!(r.0.succeeded, 0);
        match r.1 {
            Err(QuickResumeError::Other(text)) => {
                assert_eq!(text, "All thread context restores failed")
            }
            other => panic!("{:?}", other),
        }
    }
}

fn names(list: &[&str]) -> Vec<String> {
    list.iter().map(|s| s.to_string()).collect()
}

#[test]
fn loader_needs_its_system_modules() {
    assert!(loader_ready(&names(&["Game.exe", "NTDLL.dll", "KERNEL32.DLL"])));
    assert!(loader_ready(&names(&["wow64cpu.dll", "ntdll.dll"])));
    assert!(!loader_ready(&names(&["kernel32.dll", "wow64cpu.dll"])));
    assert!(!loader_ready(&names(&["ntdll.dll", "kernelbase.dll"])));
    assert!(!loader_ready(&[]));
}

#[test]
fn wait_looks_only_at_a_suspended_thread() {
    let ready = names(&["ntdll.dll", "kernel32.dll"]);
    let not_ready = names(&["ntdll.dll"]);
    let mut wait = LoaderWait::start();
    let mut actions = Vec::new();
    let mut looks = 0;
    while let Some(action) = wait.action() {
        assert!(wait.result().is_none());
        actions.push(action);
        if action == LoaderAction::ListModules {
            looks += 1;
        }
        wait = wait.step(if looks == 2 { &ready } else { &not_ready });
    }
    let round = [
        LoaderAction::ResumeThread,
        LoaderAction::Sleep { millis: 100 },
        LoaderAction::SuspendThread,
        LoaderAction::ListModules,
    ];
    assert_eq!(actions, [round, round].concat());
    assert!(matches!(wait.result(), Some(Ok(2))));
    assert_eq!(wait.step(&not_ready), wait);
}

#[test]
fn wait_is_given_up_after_six_seconds() {
    let mut wait = LoaderWait::start();
    let mut looks = 0;
    let mut slept = 0;
    while let Some(action) = wait.action() {
        match action {
            LoaderAction::ListModules => looks += 1,
            LoaderAction::Sleep { millis } => slept += millis,
            _ => {}
        }
        wait = wait.step(&[]);
    }
    assert_eq!(looks, LOADER_ATTEMPTS);
    assert_eq!(slept, 6000);
    match wait.result() {
        Some(Err(QuickResumeError::Other(text))) => {
            assert_eq!(text, "Loader did not map system DLLs within 6 seconds")
        }
        other => panic!("{:?}", other),
    }
}

#[test]
fn resume_of_the_main_thread_can_fail() {
    assert!(resume_main_thread(0).is_ok());
    assert!(resume_main_thread(1).is_ok());
    match resume_main_thread(u32::MAX) {
        Err(QuickResumeError::Other(text)) => assert_eq!(text, "ResumeThread failed"),
        other => panic!("{:?}", other),
    }
}
