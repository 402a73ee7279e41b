use quick_resume::process::attach::{find_all_pids, find_process, ProcessEntry};
use quick_resume::process::info::{
    build_summary, enumerate_modules, enumerate_threads, next_address, total_committed,
    ModuleEntry, RegionInfo, RegionWalk, ThreadEntry, ThreadInfo,
};
use quick_resume::process::suspend::SuspendGuard;
use quick_resume::snapshot::memory::{
    classify, prot_str, region_stats, total_raw_bytes, type_str, DumpAction, MemoryDump,
    MemoryRegion, ReadOutcome, RegionClass, RegionStats,
};
use quick_resume::snapshot::threads::{capture_one, capture_thread_contexts, collect_tids};
use quick_resume::util::error::QuickResumeError;
use quick_resume::util::wide::to_wide;

const COMMIT: u32 = 0x1000;
const RESERVE: u32 = 0x2000;
const FREE: u32 = 0x1_0000;
const PRIVATE: u32 = 0x2_0000;
const MAPPED: u32 = 0x4_0000;
const IMAGE: u32 = 0x100_0000;

fn region(
    base_address: u64,
    size: usize,
    state: u32,
    protect: u32,
    region_type: u32,
) -> RegionInfo {
    RegionInfo { base_address, size, state, protect, region_type }
}

fn process(pid: u32, name: &str) -> ProcessEntry {
    ProcessEntry { pid, exe_file: to_wide(name) }
}

#[test]
fn first_process_of_the_name_is_found() {
    let list = vec![
        process(4, "System"),
        process(10, "Mini Metro.exe.old"),
        process(11, "MINI metro.exe"),
        process(12, "Mini Metro.exe"),
    ];
    let found = find_process(&list, "mini Metro.EXE").unwrap();
    assert_eq!(found.pid, 11);
    assert_eq!(found.name, "MINI metro.exe");
    assert_eq!(find_all_pids(&list, "Mini Metro.exe"), vec![11, 12]);
}

#[test]
fn missing_process_is_reported_by_name() {
    let list = vec![process(4, "System")];
    match find_process(&list, "Game.exe") {
        Err(QuickResumeError::ProcessNotFound(name)) => assert_eq!(name, "Game.exe"),
        other => panic!("{:?}", other),
    }
    assert!(find_all_pids(&list, "Game.exe").is_empty());
    assert!(find_process(&[], "Game.exe").is_err());
}

#[test]
fn addresses_do_not_wrap_around() {
    assert_eq!(next_address(&region(0x1000, 0x2000, FREE, 1, 0)), 0x3000);
    assert_eq!(next_address(&region(u64::MAX - 5, 100, FREE, 1, 0)), u64::MAX);
}

#[test]
fn walk_lists_all_regions() {
    let mut walk = RegionWalk::new();
    assert_eq!(walk.address, 0);
    walk.step(Some(region(0, 0x1000, FREE, 1, 0)));
    assert_eq!(walk.address, 0x1000);
    walk.step(Some(region(0x1000, 0x1000, COMMIT, 4, PRIVATE)));
    assert_eq!(walk.address, 0x2000);
    assert!(!walk.done);
    walk.step(None);
    assert!(walk.done);
    assert_eq!(walk.regions.len(), 2);
    assert_eq!(walk.regions[1], region(0x1000, 0x1000, COMMIT, 4, PRIVATE));
}

#[test]
fn walked_regions_are_in_order_and_can_be_summarised() {
    let mut walk = RegionWalk::new();
    for n in 0..5u64 {
        let before = walk.address;
        walk.step(Some(region(before, 0x1000 * (n as usize + 1), COMMIT, 4, MAPPED)));
        assert!(walk.address > before);
    }
    for pair in walk.regions.windows(2) {
        assert!(pair[0].base_address + pair[0].size as u64 <= pair[1].base_address);
    }
    assert_eq!(total_committed(&walk.regions), Some(walk.address));
    let s = build_summary(&walk.regions, vec![], vec![], 1, "g");
    assert!(s.mapped_region_count <= s.committed_region_count);
    assert!(s.committed_region_count + s.free_region_count <= walk.regions.len());
}

#[test]
fn walk_stops_rather_than_start_over() {
    let mut walk = RegionWalk::new();
    walk.step(Some(region(0, 0, COMMIT, 4, PRIVATE)));
    assert!(walk.done);
    assert_eq!(walk.regions.len(), 1);
}

#[test]
fn threads_of_one_process_are_listed() {
    let entries = vec![
        ThreadEntry { owner_pid: 7, tid: 70, base_priority: 8 },
        ThreadEntry { owner_pid: 8, tid: 80, base_priority: 9 },
        ThreadEntry { owner_pid: 7, tid: 71, base_priority: -2 },
    ];
    assert_eq!(
        enumerate_threads(&entries, 7),
        vec![
            ThreadInfo { tid: 70, base_priority: 8 },
            ThreadInfo { tid: 71, base_priority: -2 },
        ]
    );
    assert_eq!(collect_tids(&entries, 7), vec![70, 71]);
    assert_eq!(collect_tids(&entries, 9), Vec::<u32>::new());
}

#[test]
fn modules_are_listed_with_decoded_names() {
    let entries = vec![ModuleEntry {
        module: to_wide("ntdll.dll"),
        exe_path: to_wide("C:\\Windows\\ntdll.dll"),
        base_address: 0x7FFE_0000_0000,
        size: 0x1F_0000,
    }];
    let modules = enumerate_modules(&entries);
    assert_eq!(modules.len(), 1);
    assert_eq!(modules[0].name, "ntdll.dll");
    assert_eq!(modules[0].path, "C:\\Windows\\ntdll.dll");
    assert_eq!(modules[0].base_address, 0x7FFE_0000_0000);
    assert_eq!(modules[0].size, 0x1F_0000);
}

#[test]
fn summary_counts_regions_by_state() {
    let regions = vec![
        region(0, 0x1000, FREE, 1, 0),
        region(0x1000, 0x1000, COMMIT, 4, PRIVATE),
        region(0x2000, 0x3000, COMMIT, 2, MAPPED),
        region(0x5000, 0x1000, RESERVE, 0, MAPPED),
        region(0x6000, 0x1000, FREE, 1, 0),
    ];
    let threads = vec![ThreadInfo { tid: 1, base_priority: 8 }];
    assert_eq!(total_committed(&regions), Some(0x4000));
    let s = build_summary(&regions, threads, vec![], 42, "g.exe");
    assert_eq!(s.pid, 42);
    assert_eq!(s.name, "g.exe");
    assert_eq!(s.total_committed_bytes, 0x4000);
    assert_eq!(s.committed_region_count, 2);
    assert_eq!(s.free_region_count, 2);
    assert_eq!(s.mapped_region_count, 1);
    assert_eq!(s.thread_count, 1);
    assert_eq!(s.module_count, 0);
    assert_eq!(s.threads[0].tid, 1);
    assert!(s.modules.is_empty());
}

#[test]
fn committed_sizes_beyond_64_bits_are_noticed() {
    let regions = vec![
        region(0, usize::MAX, COMMIT, 4, PRIVATE),
        region(0, usize::MAX, FREE, 4, PRIVATE),
        region(0, 1, COMMIT, 4, PRIVATE),
    ];
    assert_eq!(total_committed(&regions[..2]), Some(usize::MAX as u64));
    assert_eq!(total_committed(&regions), None);
}

#[test]
fn failed_suspend_names_the_status() {
    match SuspendGuard::suspend(-1073741790) {
        Err(QuickResumeError::Other(text)) => {
            assert_eq!(text, "NtSuspendProcess failed: NTSTATUS=0xC0000022");
            assert_eq!(
                text,
                format!("NtSuspendProcess failed: NTSTATUS={:#010X}", -1073741790i32 as u32)
            );
        }
        other => panic!("{:?}", other),
    }
}

#[test]
fn resume_is_due_until_it_succeeds() {
    let mut guard = SuspendGuard::suspend(0).unwrap();
    assert!(guard.needs_resume());
    match guard.resume(i32::MIN) {
        Err(QuickResumeError::Other(text)) => {
            assert_eq!(text, "NtResumeProcess failed: NTSTATUS=0x80000000")
        }
        other => panic!("{:?}", other),
    }
    assert!(guard.needs_resume());
    assert!(guard.resume(0).is_ok());
    assert!(!guard.needs_resume());
    assert!(guard.resume(-1).is_ok());
    assert!(!guard.needs_resume());
}

#[test]
fn regions_are_classified_as_documented() {
    assert_eq!(classify(&region(0, 1, FREE, 1, 0)), RegionClass::NotCommitted);
    assert_eq!(classify(&region(0, 1, RESERVE, 4, PRIVATE)), RegionClass::NotCommitted);
    assert_eq!(classify(&region(0, 1, COMMIT, 0x01, PRIVATE)), RegionClass::NoAccess);
    assert_eq!(classify(&region(0, 1, COMMIT, 0x104, PRIVATE)), RegionClass::Guard);
    assert_eq!(classify(&region(0, 1, COMMIT, 0x101, PRIVATE)), RegionClass::Guard);
    assert_eq!(classify(&region(0, 1, COMMIT, 0x02, IMAGE)), RegionClass::ImageReadOnly);
    assert_eq!(classify(&region(0, 1, COMMIT, 0x20, IMAGE)), RegionClass::ImageReadOnly);
    assert_eq!(classify(&region(0, 1, COMMIT, 0x10, IMAGE)), RegionClass::Kept);
    assert_eq!(classify(&region(0, 1, COMMIT, 0x08, IMAGE)), RegionClass::Kept);
    assert_eq!(classify(&region(0, 1, COMMIT, 0x02, PRIVATE)), RegionClass::Kept);
    assert_eq!(classify(&region(0, 1, COMMIT, 0x20, MAPPED)), RegionClass::Kept);
}

#[test]
fn dump_keeps_readable_regions_and_counts_the_rest() {
    let found = vec![
        (region(0, 0x1000, FREE, 1, 0), 0),
        (region(0x1000, 4, COMMIT, 4, PRIVATE), 4),
        (region(0x1004, 4, COMMIT, 1, PRIVATE), 0),
        (region(0x1008, 4, COMMIT, 0x104, PRIVATE), 0),
        (region(0x100C, 4, COMMIT, 2, IMAGE), 0),
        (region(0x1010, 4, COMMIT, 8, IMAGE), 3),
        (region(0x1014, 4, COMMIT, 4, MAPPED), 0),
        (region(0x1018, 0, COMMIT, 4, MAPPED), 0),
    ];
    let mut outcomes = Vec::new();
    let mut dump = MemoryDump::new();
    let mut i = 0;
    loop {
        assert!(dump.has_room());
        match dump.action() {
            DumpAction::Query { address } => {
                if i < found.len() {
                    assert_eq!(address, found[i].0.base_address);
                    dump.on_query(Some(found[i].0));
                } else {
                    dump.on_query(None);
                }
                i += 1;
            }
            DumpAction::Read { base_address, size } => {
                let (r, n) = found[i - 1];
                assert_eq!((base_address, size), (r.base_address, r.size));
                let buf: Vec<u8> = (0..size as u8).collect();
                outcomes.push(dump.on_read(buf, n));
            }
            DumpAction::Finish => break,
        }
    }
    assert_eq!(
        outcomes,
        vec![ReadOutcome::Full, ReadOutcome::Partial, ReadOutcome::Failed, ReadOutcome::Full]
    );
    assert_eq!(dump.skipped_noaccess, 1);
    assert_eq!(dump.skipped_guard, 1);
    assert_eq!(dump.skipped_image_ro, 1);
    assert_eq!(dump.read_partial, 1);
    assert_eq!(dump.read_failed, 1);
    assert_eq!(dump.regions.len(), 3);
    assert_eq!(dump.regions[0].base_address, 0x1000);
    assert_eq!(dump.regions[0].data, vec![0, 1, 2, 3]);
    assert_eq!(dump.regions[1].base_address, 0x1010);
    assert_eq!(dump.regions[1].size, 4);
    assert_eq!(dump.regions[1].protect, 8);
    assert_eq!(dump.regions[1].region_type, IMAGE);
    assert_eq!(dump.regions[1].data, vec![0, 1, 2]);
    assert_eq!(dump.regions[2].data, Vec::<u8>::new());
}

#[test]
fn dump_stops_rather_than_start_over() {
    let mut dump = MemoryDump::new();
    dump.on_query(Some(region(0, 0, FREE, 1, 0)));
    assert_eq!(dump.action(), DumpAction::Finish);
}

#[test]
fn full_counters_are_noticed() {
    let mut dump = MemoryDump::new();
    assert!(dump.has_room());
    dump.read_failed = u32::MAX;
    assert!(!dump.has_room());
    // A step that raises another counter goes on.
    dump.on_query(Some(region(0, 4, COMMIT, 1, PRIVATE)));
    assert_eq!(dump.skipped_noaccess, 1);
    dump.on_query(Some(region(4, 4, COMMIT, 4, PRIVATE)));
    assert_eq!(dump.on_read(vec![1, 2, 3, 4], 2), ReadOutcome::Partial);
    assert_eq!((dump.read_partial, dump.read_failed), (1, u32::MAX));
}

#[test]
fn region_types_have_names() {
    assert_eq!(type_str(IMAGE), "image");
    assert_eq!(type_str(PRIVATE), "private");
    assert_eq!(type_str(MAPPED), "mapped");
    assert_eq!(type_str(0), "?");
}

#[test]
fn protections_have_names() {
    assert_eq!(prot_str(0x01), "NOACCESS");
    assert_eq!(prot_str(0x02), "READONLY");
    assert_eq!(prot_str(0x04), "READWRITE");
    assert_eq!(prot_str(0x08), "WRITECOPY");
    assert_eq!(prot_str(0x10), "EXECUTE");
    assert_eq!(prot_str(0x20), "EXECUTE_READ");
    assert_eq!(prot_str(0x40), "EXECUTE_READWRITE");
    assert_eq!(prot_str(0x80), "EXECUTE_WRITECOPY");
    assert_eq!(prot_str(0x03), "?");
    assert_eq!(prot_str(0x104), "READWRITE+GUARD");
    assert_eq!(prot_str(0x700), "?+GUARD+NOCACHE+WRITECOMBINE");
    assert_eq!(prot_str(0x602), "READONLY+NOCACHE+WRITECOMBINE");
}

#[test]
fn statistics_count_regions_by_type() {
    let make = |region_type: u32, n: usize| MemoryRegion {
        base_address: 0,
        size: n,
        protect: 4,
        region_type,
        data: vec![0; n],
    };
    let regions = vec![
        make(IMAGE, 1),
        make(PRIVATE, 2),
        make(PRIVATE, 4),
        make(MAPPED, 8),
        make(0, 16),
    ];
    assert_eq!(total_raw_bytes(&regions), Some(31));
    assert_eq!(
        region_stats(&regions),
        RegionStats {
            region_count: 5,
            image_count: 1,
            private_count: 2,
            mapped_count: 1,
            raw_bytes: 31,
        }
    );
}

#[test]
fn threads_that_cannot_be_captured_are_left_out() {
    let captures = vec![
        capture_one(5, Ok(vec![1, 2])),
        capture_one(6, Err(-2147024891)),
        capture_one(7, Ok(vec![3])),
    ];
    assert!(matches!(
        captures[1],
        Err(QuickResumeError::ThreadContextFailed { tid: 6, code: -2147024891 })
    ));
    let snapshots = capture_thread_contexts(captures);
    assert_eq!(snapshots.len(), 2);
    assert_eq!((snapshots[0].tid, &snapshots[0].context_bytes), (5, &vec![1, 2]));
    assert_eq!((snapshots[1].tid, &snapshots[1].context_bytes), (7, &vec![3]));
}
