//! Memory regions, threads and modules of a process, and their summary.
use crate::util::wide::{wide_text, wide_to_string};
use crate::util::win32::{MEM_COMMIT, MEM_FREE, MEM_MAPPED};
use vstd::prelude::*;

verus! {

/// A region of a process's address space, as the system describes it.
#[derive(Debug, PartialEq, Eq, Clone, Copy, Structural)]
pub struct RegionInfo {
    pub base_address: u64,
    pub size: usize,
    pub state: u32,
    pub protect: u32,
    /// Private, mapped or image memory.
    pub region_type: u32,
}

/// The address behind a region, or the last one where that is past the end.
pub open spec fn address_after(region: RegionInfo) -> u64 {
    if region.base_address + region.size > u64::MAX {
        u64::MAX
    } else {
        (region.base_address + region.size) as u64
    }
}

/// Where a walk over an address space goes on behind a region.
pub fn next_address(region: &RegionInfo) -> (a: u64)
    ensures
        a == address_after(*region),
{
    region.base_address.saturating_add(region.size as u64)
}

/// Where a walk that has come upon these regions goes on.
pub open spec fn walk_address(regions: Seq<RegionInfo>) -> u64 {
    if regions.len() == 0 {
        0
    } else {
        address_after(regions.last())
    }
}

/// A walk over all regions of an address space, from address 0 upwards. The
/// region at `address` is to be asked for next, unless the walk is `done`.
pub struct RegionWalk {
    pub address: u64,
    pub regions: Vec<RegionInfo>,
    pub done: bool,
}

impl RegionWalk {
    /// The walk goes on behind the last region, and stops where that is no
    /// further address.
    pub open spec fn wf(self) -> bool {
        &&& self.address == walk_address(self.regions@)
        &&& self.regions@.len() > 0 && self.address == 0 ==> self.done
    }

    /// A walk before its first step.
    pub fn new() -> (w: RegionWalk)
        ensures
            w.wf(),
            w.regions@ == Seq::<RegionInfo>::empty(),
            !w.done,
    {
        RegionWalk { address: 0, regions: Vec::new(), done: false }
    }

    /// Takes the region found at `address`, or `None` where the system knows
    /// of none. The walk ends there, or where it would start over at 0.
    pub fn step(&mut self, found: Option<RegionInfo>)
        requires
            old(self).wf(),
            !old(self).done,
        ensures
            final(self).wf(),
            match found {
                Some(region) => {
                    &&& final(self).regions@ == old(self).regions@.push(region)
                    &&& final(self).done == (address_after(region) == 0)
                },
                None => final(self).regions@ == old(self).regions@ && final(self).done,
            },
    {
        match found {
            Some(region) => {
                self.regions.push(region);
                self.address = next_address(&region);
                if self.address == 0 {
                    self.done = true;
                }
            },
            None => {
                self.done = true;
            },
        }
    }
}

/// A region that holds the address it was found at takes the walk forward: it
/// cannot go round in circles.
pub proof fn walk_advances(address: u64, found: RegionInfo)
    requires
        found.base_address <= address < found.base_address + found.size,
    ensures
        address_after(found) > address || address == u64::MAX,
        address_after(found) != 0,
{
}

/// A thread in a list of all threads of the system.
#[derive(Debug, PartialEq, Eq, Clone, Copy, Structural)]
pub struct ThreadEntry {
    pub owner_pid: u32,
    pub tid: u32,
    pub base_priority: i32,
}

#[derive(Debug, PartialEq, Eq, Clone, Copy, Structural)]
pub struct ThreadInfo {
    pub tid: u32,
    pub base_priority: i32,
}

/// What is kept of a thread in the list: nothing, if it is another process's.
pub open spec fn thread_of(entry: ThreadEntry, pid: u32) -> Option<ThreadInfo> {
    if entry.owner_pid == pid {
        Some(ThreadInfo { tid: entry.tid, base_priority: entry.base_priority })
    } else {
        None
    }
}

/// The threads that belong to `pid`, in the order of the list.
pub fn enumerate_threads(entries: &[ThreadEntry], pid: u32) -> (threads: Vec<ThreadInfo>)
    ensures
        threads@ == entries@.filter_map(|e: ThreadEntry| thread_of(e, pid)),
{
    let mut threads: Vec<ThreadInfo> = Vec::new();
    assert(entries@.take(0) =~= Seq::empty());
    for i in 0..entries.len()
        invariant
            threads@ == entries@.take(i as int).filter_map(|e: ThreadEntry| thread_of(e, pid)),
    {
        let entry = entries[i];
        assert(entries@.take(i + 1).drop_last() =~= entries@.take(i as int));
        if entry.owner_pid == pid {
            threads.push(ThreadInfo { tid: entry.tid, base_priority: entry.base_priority });
        }
    }
    assert(entries@.take(entries.len() as int) =~= entries@);
    threads
}

/// A loaded module as the system lists it, with zero-terminated names.
pub struct ModuleEntry {
    pub module: Vec<u16>,
    pub exe_path: Vec<u16>,
    pub base_address: u64,
    pub size: u32,
}

#[derive(Debug)]
pub struct ModuleInfo {
    pub name: String,
    pub base_address: u64,
    pub size: u32,
    pub path: String,
}

/// `info` describes the module of `entry`.
pub open spec fn describes(info: ModuleInfo, entry: ModuleEntry) -> bool {
    &&& info.name@ == wide_text(entry.module@)
    &&& info.base_address == entry.base_address
    &&& info.size == entry.size
    &&& info.path@ == wide_text(entry.exe_path@)
}

/// The modules of a list, with their names decoded.
pub fn enumerate_modules(entries: &[ModuleEntry]) -> (modules: Vec<ModuleInfo>)
    ensures
        modules@.len() == entries@.len(),
        forall|i: int| 0 <= i < modules@.len() ==> describes(#[trigger] modules@[i], entries@[i]),
{
    let mut modules: Vec<ModuleInfo> = Vec::new();
    for i in 0..entries.len()
        invariant
            modules@.len() == i,
            forall|j: int| 0 <= j < i ==> describes(#[trigger] modules@[j], entries@[j]),
    {
        let entry = &entries[i];
        modules.push(
            ModuleInfo {
                name: wide_to_string(entry.module.as_slice()),
                base_address: entry.base_address,
                size: entry.size,
                path: wide_to_string(entry.exe_path.as_slice()),
            },
        );
    }
    modules
}

/// A report on a process.
pub struct ProcessSummary {
    pub pid: u32,
    pub name: String,
    pub total_committed_bytes: u64,
    pub committed_region_count: usize,
    pub free_region_count: usize,
    pub mapped_region_count: usize,
    pub thread_count: usize,
    pub module_count: usize,
    pub modules: Vec<ModuleInfo>,
    pub threads: Vec<ThreadInfo>,
}

pub open spec fn is_committed(r: RegionInfo) -> bool {
    r.state == MEM_COMMIT
}

pub open spec fn is_free(r: RegionInfo) -> bool {
    r.state == MEM_FREE
}

pub open spec fn is_mapped(r: RegionInfo) -> bool {
    r.state == MEM_COMMIT && r.region_type == MEM_MAPPED
}

/// The sizes of the committed regions, added up.
pub open spec fn committed_bytes(regions: Seq<RegionInfo>) -> nat
    decreases regions.len(),
{
    if regions.len() == 0 {
        0
    } else {
        committed_bytes(regions.drop_last()) + if is_committed(regions.last()) {
            regions.last().size as nat
        } else {
            0nat
        }
    }
}

proof fn lemma_committed_prefix(regions: Seq<RegionInfo>, i: int)
    requires
        0 <= i <= regions.len(),
    ensures
        committed_bytes(regions.take(i)) <= committed_bytes(regions),
    decreases regions.len(),
{
    if i == regions.len() {
        assert(regions.take(i) =~= regions);
    } else {
        lemma_committed_prefix(regions.drop_last(), i);
        assert(regions.drop_last().take(i) =~= regions.take(i));
    }
}

/// Adds up the sizes of the committed regions. `None` stands for a sum that
/// does not fit in 64 bits.
pub fn total_committed(regions: &[RegionInfo]) -> (total: Option<u64>)
    ensures
        match total {
            Some(n) => n == committed_bytes(regions@),
            None => committed_bytes(regions@) > u64::MAX,
        },
{
    let mut total: u64 = 0;
    assert(regions@.take(0) =~= Seq::empty());
    for i in 0..regions.len()
        invariant
            total == committed_bytes(regions@.take(i as int)),
    {
        assert(regions@.take(i + 1).drop_last() =~= regions@.take(i as int));
        proof {
            lemma_committed_prefix(regions@, i + 1);
        }
        if regions[i].state == MEM_COMMIT {
            match total.checked_add(regions[i].size as u64) {
                Some(sum) => {
                    total = sum;
                },
                None => {
                    return None;
                },
            }
        }
    }
    assert(regions@.take(regions.len() as int) =~= regions@);
    Some(total)
}

/// Summarises what was found of a process.
pub fn build_summary(
    regions: &[RegionInfo],
    threads: Vec<ThreadInfo>,
    modules: Vec<ModuleInfo>,
    pid: u32,
    name: &str,
) -> (s: ProcessSummary)
    requires
        committed_bytes(regions@) <= u64::MAX,
    ensures
        s.pid == pid,
        s.name@ == name@,
        s.total_committed_bytes == committed_bytes(regions@),
        s.committed_region_count == regions@.filter(|r: RegionInfo| is_committed(r)).len(),
        s.free_region_count == regions@.filter(|r: RegionInfo| is_free(r)).len(),
        s.mapped_region_count == regions@.filter(|r: RegionInfo| is_mapped(r)).len(),
        s.thread_count == threads@.len(),
        s.module_count == modules@.len(),
        s.modules == modules,
        s.threads == threads,
{
    let mut total: u64 = 0;
    let mut committed: usize = 0;
    let mut free: usize = 0;
    let mut mapped: usize = 0;
    proof {
        reveal(Seq::filter);
    }
    assert(regions@.take(0) =~= Seq::empty());
    for i in 0..regions.len()
        invariant
            committed_bytes(regions@) <= u64::MAX,
            committed <= i,
            free <= i,
            mapped <= i,
            total == committed_bytes(regions@.take(i as int)),
            committed == regions@.take(i as int).filter(|r: RegionInfo| is_committed(r)).len(),
            free == regions@.take(i as int).filter(|r: RegionInfo| is_free(r)).len(),
            mapped == regions@.take(i as int).filter(|r: RegionInfo| is_mapped(r)).len(),
    {
        let r = regions[i];
        proof {
            reveal(Seq::filter);
        }
        assert(regions@.take(i + 1).drop_last() =~= regions@.take(i as int));
        proof {
            lemma_committed_prefix(regions@, i + 1);
        }
        if r.state == MEM_COMMIT {
            total = total + r.size as u64;
            committed = committed + 1;
            if r.region_type == MEM_MAPPED {
                mapped = mapped + 1;
            }
        }
        if r.state == MEM_FREE {
            free = free + 1;
        }
    }
    assert(regions@.take(regions.len() as int) =~= regions@);
    ProcessSummary {
        pid,
        name: name.to_string(),
        total_committed_bytes: total,
        committed_region_count: committed,
        free_region_count: free,
        mapped_region_count: mapped,
        thread_count: threads.len(),
        module_count: modules.len(),
        modules,
        threads,
    }
}

/// The regions follow one another without overlap, up to `end`.
pub open spec fn in_order(regions: Seq<RegionInfo>, end: int) -> bool
    decreases regions.len(),
{
    if regions.len() == 0 {
        0 <= end
    } else {
        let last = regions.last();
        last.base_address + last.size <= end && in_order(
            regions.drop_last(),
            last.base_address as int,
        )
    }
}

/// Regions that follow one another in a 64-bit address space can be summarised:
/// their sizes cannot add up to more than it holds.
pub proof fn regions_in_order_fit(regions: Seq<RegionInfo>, end: int)
    requires
        in_order(regions, end),
    ensures
        committed_bytes(regions) <= end,
    decreases regions.len(),
{
    if regions.len() > 0 {
        regions_in_order_fit(regions.drop_last(), regions.last().base_address as int);
    }
}

/// A walk whose regions each begin at or behind the address they were asked for
/// lists them in the order of their addresses, without overlap.
pub proof fn walk_lists_regions_in_order(regions: Seq<RegionInfo>)
    requires
        forall|i: int|
            0 <= i < regions.len() ==> (#[trigger] regions[i]).base_address >= walk_address(
                regions.take(i),
            ),
        forall|i: int|
            0 <= i < regions.len() ==> (#[trigger] regions[i]).base_address + regions[i].size
                <= u64::MAX,
    ensures
        in_order(regions, walk_address(regions) as int),
    decreases regions.len(),
{
    if regions.len() > 0 {
        let before = regions.drop_last();
        let last = regions[regions.len() - 1];
        assert forall|i: int| 0 <= i < before.len() implies (#[trigger] before[i]).base_address
            >= walk_address(before.take(i)) && before[i].base_address + before[i].size
            <= u64::MAX by {
            assert(before[i] == regions[i]);
            assert(before.take(i) =~= regions.take(i));
        }
        walk_lists_regions_in_order(before);
        assert(regions.take(regions.len() - 1) =~= before);
        lemma_in_order_further(before, walk_address(before) as int, last.base_address as int);
    }
}

proof fn lemma_in_order_further(regions: Seq<RegionInfo>, end: int, further: int)
    requires
        in_order(regions, end),
        end <= further,
    ensures
        in_order(regions, further),
{
}

/// A committed mapped region is a committed one, and none is both committed
/// and free.
pub proof fn counts_are_consistent(regions: Seq<RegionInfo>)
    ensures
        regions.filter(|r: RegionInfo| is_mapped(r)).len() <= regions.filter(
            |r: RegionInfo| is_committed(r),
        ).len(),
        regions.filter(|r: RegionInfo| is_committed(r)).len() + regions.filter(
            |r: RegionInfo| is_free(r),
        ).len() <= regions.len(),
    decreases regions.len(),
{
    reveal(Seq::filter);
    if regions.len() > 0 {
        counts_are_consistent(regions.drop_last());
    }
}

} // verus!
