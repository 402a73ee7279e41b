//! Laws of lists of processes, regions, threads and modules: what one more
//! entry changes, and nothing else.
use crate::process::attach::{pid_of, ProcessEntry};
use crate::process::info::{
    address_after, committed_bytes, describes, is_committed, is_free, is_mapped, thread_of,
    walk_address, ModuleEntry, ModuleInfo, RegionInfo, RegionWalk, ThreadEntry, ThreadInfo,
};
use crate::process::suspend::{owes_after, status_text, SuspendGuard};
use crate::util::laws::number_of;
use crate::util::text::same_name;
use crate::util::wide::wide_text;
use crate::util::win32::{MEM_COMMIT, MEM_FREE, MEM_MAPPED};
use vstd::prelude::*;

verus! {

/// What one more entry does to a list that keeps what `f` makes of each entry.
proof fn lemma_filter_map_push<A, B>(s: Seq<A>, f: spec_fn(A) -> Option<B>, a: A)
    ensures
        s.push(a).filter_map(f) == match f(a) {
            Some(b) => s.filter_map(f).push(b),
            None => s.filter_map(f),
        },
{
    assert(s.push(a).drop_last() =~= s);
}

proof fn lemma_filter_push<A>(s: Seq<A>, p: spec_fn(A) -> bool, a: A)
    ensures
        s.push(a).filter(p).len() == s.filter(p).len() + if p(a) {
            1int
        } else {
            0
        },
{
    reveal(Seq::filter);
    assert(s.push(a).drop_last() =~= s);
}

/// A walk goes on exactly behind the last region it came upon, and at the last
/// address there is where the region reaches beyond it.
pub proof fn walk_goes_on_behind_the_region(walk: RegionWalk, region: RegionInfo)
    ensures
        region.base_address + region.size <= u64::MAX ==> address_after(region)
            == region.base_address + region.size,
        region.base_address + region.size > u64::MAX ==> address_after(region) == u64::MAX,
        walk_address(Seq::<RegionInfo>::empty()) == 0,
        walk.wf() && walk.regions@.len() > 0 && walk.regions@.last() == region ==> walk.address
            == address_after(region),
        walk.wf() && walk.regions@.len() == 0 ==> walk.address == 0,
{
}

/// One more region counts as committed exactly if its state is `MEM_COMMIT`,
/// whatever its type and protection, and then adds its size. It counts as free
/// exactly if its state is `MEM_FREE`, and as mapped exactly if it is committed
/// and of the type `MEM_MAPPED`.
pub proof fn one_more_region_is_counted_by_its_state(regions: Seq<RegionInfo>, r: RegionInfo)
    ensures
        regions.push(r).filter(|x: RegionInfo| is_committed(x)).len() == regions.filter(
            |x: RegionInfo| is_committed(x),
        ).len() + if r.state == MEM_COMMIT {
            1int
        } else {
            0
        },
        committed_bytes(regions.push(r)) == committed_bytes(regions) + if r.state == MEM_COMMIT {
            r.size as int
        } else {
            0
        },
        regions.push(r).filter(|x: RegionInfo| is_free(x)).len() == regions.filter(
            |x: RegionInfo| is_free(x),
        ).len() + if r.state == MEM_FREE {
            1int
        } else {
            0
        },
        regions.push(r).filter(|x: RegionInfo| is_mapped(x)).len() == regions.filter(
            |x: RegionInfo| is_mapped(x),
        ).len() + if r.state == MEM_COMMIT && r.region_type == MEM_MAPPED {
            1int
        } else {
            0
        },
{
    lemma_filter_push(regions, |x: RegionInfo| is_committed(x), r);
    lemma_filter_push(regions, |x: RegionInfo| is_free(x), r);
    lemma_filter_push(regions, |x: RegionInfo| is_mapped(x), r);
    assert(regions.push(r).drop_last() =~= regions);
}

/// Without regions nothing is counted.
pub proof fn no_regions_count_nothing()
    ensures
        committed_bytes(Seq::<RegionInfo>::empty()) == 0,
        Seq::<RegionInfo>::empty().filter(|x: RegionInfo| is_committed(x)).len() == 0,
        Seq::<RegionInfo>::empty().filter(|x: RegionInfo| is_free(x)).len() == 0,
        Seq::<RegionInfo>::empty().filter(|x: RegionInfo| is_mapped(x)).len() == 0,
{
    reveal(Seq::filter);
}

/// A region is committed, free or mapped by its own fields alone: every region
/// with state `MEM_COMMIT` is among the committed ones, and no other is.
pub proof fn committed_regions_are_those_of_the_state(r: RegionInfo)
    ensures
        is_committed(r) <==> r.state == MEM_COMMIT,
        is_free(r) <==> r.state == MEM_FREE,
        is_mapped(r) <==> r.state == MEM_COMMIT && r.region_type == MEM_MAPPED,
{
}

/// One more thread is listed exactly if it belongs to the process, behind the
/// others, with its own id and priority.
pub proof fn one_more_thread_is_listed_by_its_owner(
    entries: Seq<ThreadEntry>,
    e: ThreadEntry,
    pid: u32,
)
    ensures
        Seq::<ThreadEntry>::empty().filter_map(|x: ThreadEntry| thread_of(x, pid)).len() == 0,
        e.owner_pid == pid ==> entries.push(e).filter_map(|x: ThreadEntry| thread_of(x, pid))
            == entries.filter_map(|x: ThreadEntry| thread_of(x, pid)).push(
            (ThreadInfo { tid: e.tid, base_priority: e.base_priority }),
        ),
        e.owner_pid != pid ==> entries.push(e).filter_map(|x: ThreadEntry| thread_of(x, pid))
            == entries.filter_map(|x: ThreadEntry| thread_of(x, pid)),
{
    lemma_filter_map_push(entries, |x: ThreadEntry| thread_of(x, pid), e);
}

/// A listed module has the name, path, address and size of its entry.
pub proof fn listed_module_keeps_its_entry(info: ModuleInfo, entry: ModuleEntry)
    ensures
        describes(info, entry) <==> {
            &&& info.name@ == wide_text(entry.module@)
            &&& info.path@ == wide_text(entry.exe_path@)
            &&& info.base_address == entry.base_address
            &&& info.size == entry.size
        },
{
}

/// One more process is found exactly if its decoded name is the name looked
/// for, and then behind the others.
pub proof fn one_more_process_is_found_by_its_name(
    entries: Seq<ProcessEntry>,
    e: ProcessEntry,
    name: Seq<char>,
)
    ensures
        e.matches_name(name) <==> same_name(wide_text(e.exe_file@), name),
        Seq::<ProcessEntry>::empty().filter_map(|x: ProcessEntry| pid_of(x, name)).len() == 0,
        same_name(wide_text(e.exe_file@), name) ==> entries.push(e).filter_map(
            |x: ProcessEntry| pid_of(x, name),
        ) == entries.filter_map(|x: ProcessEntry| pid_of(x, name)).push(e.pid),
        !same_name(wide_text(e.exe_file@), name) ==> entries.push(e).filter_map(
            |x: ProcessEntry| pid_of(x, name),
        ) == entries.filter_map(|x: ProcessEntry| pid_of(x, name)),
{
    lemma_filter_map_push(entries, |x: ProcessEntry| pid_of(x, name), e);
}

/// A guard owes a resume exactly while the process is not resumed. One more
/// attempt settles it exactly if its status is no failure.
pub proof fn one_more_attempt_settles_a_resume(
    guard: SuspendGuard,
    statuses: Seq<i32>,
    status: i32,
)
    ensures
        guard.owes_resume() <==> !guard.resumed,
        owes_after(Seq::<i32>::empty()),
        owes_after(statuses.push(status)) <==> owes_after(statuses) && status < 0,
{
    assert(statuses.push(status).drop_last() =~= statuses);
}

/// The error of a failed call names the call and then, in eight hexadecimal
/// digits, the bits of the status.
pub proof fn failed_status_is_shown_in_hexadecimal(call: Seq<char>, status: i32)
    ensures
        ({
            let text = status_text(call, status);
            let front = call + " failed: NTSTATUS=0x"@;
            &&& text.len() == front.len() + 8
            &&& text.take(front.len() as int) == front
            &&& number_of(text.skip(front.len() as int), 16) == status as u32
        }),
{
    let text = status_text(call, status);
    let front = call + " failed: NTSTATUS=0x"@;
    let digits = crate::util::text::hex(status as u32 as nat, 8);
    reveal_with_fuel(crate::util::laws::sixteens, 9);
    crate::util::laws::hex_stands_for_its_number(status as u32 as nat, 8);
    assert(text =~= front + digits);
    assert(text.take(front.len() as int) =~= front);
    assert(text.skip(front.len() as int) =~= digits);
}

} // verus!
