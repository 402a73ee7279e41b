//! Laws of a snapshot: which regions and threads it holds, how they are counted
//! and named, and how a file is laid out. They are stated in the fields of the
//! regions and the bytes of the files.
use crate::process::info::{RegionInfo, ThreadEntry};
use crate::snapshot::codec::{
    field_end, field_fits, field_value, full_bytes, lengths_fit, lengths_fit_from,
};
use crate::snapshot::encoding::{payload_bytes, PayloadView};
use crate::snapshot::memory::{
    base_protection_name, captured, class_of, dump_of, modifier_name, of_type, outcome_of,
    protection_name, raw_bytes, region_type_name, DumpAction, DumpView, Found, MemoryDump,
    MemoryRegion, RegionView,
};
use crate::snapshot::threads::{captured_thread, tid_of, ThreadSnapshot};
use crate::snapshot::writer::{is_snapshot_file, timestamp_of, SnapshotPayload};
use crate::util::bytes::{u32_at, u64_at};
use crate::util::error::QuickResumeError;
use crate::util::win32::{
    MEM_COMMIT, MEM_IMAGE, MEM_MAPPED, MEM_PRIVATE, PAGE_EXECUTE_READ, PAGE_GUARD, PAGE_NOACCESS,
    PAGE_READONLY,
};
use vstd::prelude::*;

verus! {

/// A region is kept exactly if it is committed, can be accessed, has no guard
/// and is no read-only image page. Each reason for skipping one holds of no
/// other region: a read-only image page is an image page that is read-only.
pub proof fn regions_are_classified_by_their_fields(r: RegionInfo)
    ensures
        class_of(r) is NotCommitted <==> r.state != MEM_COMMIT,
        class_of(r) is NoAccess <==> r.state == MEM_COMMIT && r.protect == PAGE_NOACCESS,
        class_of(r) is Guard <==> r.state == MEM_COMMIT && r.protect != PAGE_NOACCESS && r.protect
            & PAGE_GUARD != 0,
        class_of(r) is ImageReadOnly <==> r.state == MEM_COMMIT && r.region_type == MEM_IMAGE && (
        r.protect == PAGE_READONLY || r.protect == PAGE_EXECUTE_READ),
        class_of(r) is Kept <==> r.state == MEM_COMMIT && r.protect != PAGE_NOACCESS && r.protect
            & PAGE_GUARD == 0 && !(r.region_type == MEM_IMAGE && (r.protect == PAGE_READONLY
            || r.protect == PAGE_EXECUTE_READ)),
{
    assert(2u32 & 0x100u32 == 0) by (bit_vector);
    assert(0x20u32 & 0x100u32 == 0) by (bit_vector);
}

/// A read is full if it brings the whole region, else it fails if it brings
/// nothing and is partial if it brings something. What it brings is kept, cut
/// off behind the last byte read, with the region's own address, size,
/// protection and type.
pub proof fn what_a_read_brings_is_kept(r: RegionInfo, buf: Seq<u8>, bytes_read: usize)
    requires
        buf.len() == r.size,
        bytes_read <= r.size,
    ensures
        outcome_of(r.size, bytes_read) is Full <==> bytes_read == r.size,
        outcome_of(r.size, bytes_read) is Partial <==> 0 < bytes_read < r.size,
        outcome_of(r.size, bytes_read) is Failed <==> bytes_read == 0 && r.size > 0,
        bytes_read > 0 || r.size == 0 ==> (captured(r, buf, bytes_read) matches Some(kept) && {
            &&& kept.base_address == r.base_address
            &&& kept.size == r.size
            &&& kept.protect == r.protect
            &&& kept.region_type == r.region_type
            &&& kept.data == buf.take(bytes_read as int)
        }),
        bytes_read == 0 && r.size > 0 ==> captured(r, buf, bytes_read) is None,
{
    assert(buf.take(buf.len() as int) =~= buf);
}

/// A dump asks for a read of exactly the region it came upon, if that is
/// committed, accessible, without a guard and no read-only image page. Of no
/// other region does it ask for a read, and it raises the one counter for the
/// reason. Either way it goes on behind the region.
pub proof fn dump_reads_every_region_worth_keeping(dump: DumpView, r: RegionInfo)
    requires
        dump.pending is None,
    ensures
        ({
            let after = dump.after_query(Some(r));
            let committed = r.state == MEM_COMMIT;
            let no_access = r.protect == PAGE_NOACCESS;
            let guard = r.protect & PAGE_GUARD != 0;
            let image_ro = r.region_type == MEM_IMAGE && (r.protect == PAGE_READONLY || r.protect
                == PAGE_EXECUTE_READ);
            let end = r.base_address + r.size;
            &&& committed && !no_access && !guard && !image_ro ==> after.action()
                == (DumpAction::Read { base_address: r.base_address, size: r.size })
            &&& !(committed && !no_access && !guard && !image_ro) ==> after.action() == if 0 < end
                <= u64::MAX {
                DumpAction::Query { address: end as u64 }
            } else if end == 0 {
                DumpAction::Finish
            } else {
                DumpAction::Query { address: u64::MAX }
            }
            &&& after.address == if end <= u64::MAX {
                end
            } else {
                u64::MAX as int
            }
            &&& after.exhausted <==> end == 0
            &&& after.regions == dump.regions
            &&& after.skipped_noaccess == dump.skipped_noaccess + if committed && no_access {
                1int
            } else {
                0
            }
            &&& after.skipped_guard == dump.skipped_guard + if committed && !no_access && guard {
                1int
            } else {
                0
            }
            &&& after.skipped_image_ro == dump.skipped_image_ro + if committed && image_ro {
                1int
            } else {
                0
            }
            &&& after.read_partial == dump.read_partial
            &&& after.read_failed == dump.read_failed
        }),
{
    regions_are_classified_by_their_fields(r);
}

/// A step of a dump needs room in no counter but the one it raises.
pub proof fn dump_needs_room_only_where_it_counts(
    dump: MemoryDump,
    r: RegionInfo,
    bytes_read: usize,
)
    ensures
        dump.room_for_query(None),
        dump.skipped_noaccess < u32::MAX && dump.skipped_guard < u32::MAX && dump.skipped_image_ro
            < u32::MAX ==> dump.room_for_query(Some(r)),
        r.state != MEM_COMMIT ==> dump.room_for_query(Some(r)),
        r.protect != PAGE_NOACCESS && r.protect & PAGE_GUARD == 0 && r.region_type != MEM_IMAGE
            ==> dump.room_for_query(Some(r)),
        dump.pending == Some(r) && bytes_read == r.size ==> dump.room_for_read(bytes_read),
        dump.pending == Some(r) && dump.read_partial < u32::MAX && bytes_read > 0
            ==> dump.room_for_read(bytes_read),
        dump.pending == Some(r) && dump.read_failed < u32::MAX && bytes_read == 0
            ==> dump.room_for_read(bytes_read),
{
}

/// Where there is no region any more, a dump is finished and keeps all it has.
pub proof fn dump_ends_where_no_region_is(dump: DumpView)
    requires
        dump.pending is None,
    ensures
        dump.after_query(None).action() == DumpAction::Finish,
        dump.after_query(None).regions == dump.regions,
        dump.after_query(None).skipped_noaccess == dump.skipped_noaccess,
        dump.after_query(None).skipped_guard == dump.skipped_guard,
        dump.after_query(None).skipped_image_ro == dump.skipped_image_ro,
        dump.after_query(None).read_partial == dump.read_partial,
        dump.after_query(None).read_failed == dump.read_failed,
{
}

/// A dump begins at address 0 with nothing read and nothing counted.
pub proof fn dump_begins_at_the_first_address()
    ensures
        DumpView::start().action() == (DumpAction::Query { address: 0 }),
        DumpView::start().regions.len() == 0,
        DumpView::start().skipped_noaccess == 0,
        DumpView::start().skipped_guard == 0,
        DumpView::start().skipped_image_ro == 0,
        DumpView::start().read_partial == 0,
        DumpView::start().read_failed == 0,
{
}

/// A read that brings bytes adds one region to the dump, behind the others, with
/// these bytes; one that brings none adds nothing. Partial and failed reads are
/// counted, and the dump goes on as it would have without the read.
pub proof fn read_adds_its_region_to_the_dump(
    dump: DumpView,
    r: RegionInfo,
    buf: Seq<u8>,
    bytes_read: usize,
)
    requires
        dump.pending == Some(r),
        buf.len() == r.size,
        bytes_read <= r.size,
    ensures
        ({
            let after = dump.after_read(buf, bytes_read);
            let kept = RegionView {
                base_address: r.base_address,
                size: r.size,
                protect: r.protect,
                region_type: r.region_type,
                data: buf.take(bytes_read as int),
            };
            &&& bytes_read > 0 || r.size == 0 ==> after.regions == dump.regions.push(kept)
            &&& bytes_read == 0 && r.size > 0 ==> after.regions == dump.regions
            &&& after.read_partial == dump.read_partial + if 0 < bytes_read < r.size {
                1int
            } else {
                0
            }
            &&& after.read_failed == dump.read_failed + if bytes_read == 0 && r.size > 0 {
                1int
            } else {
                0
            }
            &&& after.skipped_noaccess == dump.skipped_noaccess
            &&& after.skipped_guard == dump.skipped_guard
            &&& after.skipped_image_ro == dump.skipped_image_ro
            &&& after.action() == if dump.exhausted {
                DumpAction::Finish
            } else {
                DumpAction::Query { address: dump.address }
            }
        }),
{
    assert(buf.take(buf.len() as int) =~= buf);
}

/// A dump holds every region it came upon that is committed, accessible, without
/// a guard and no read-only image page, and of which a read brought bytes.
pub proof fn dump_holds_every_region_worth_keeping(found: Seq<Found>, i: int)
    requires
        0 <= i < found.len(),
        found[i].region.state == MEM_COMMIT,
        found[i].region.protect != PAGE_NOACCESS,
        found[i].region.protect & PAGE_GUARD == 0,
        !(found[i].region.region_type == MEM_IMAGE && (found[i].region.protect == PAGE_READONLY
            || found[i].region.protect == PAGE_EXECUTE_READ)),
        found[i].buf.len() == found[i].region.size,
        0 < found[i].bytes_read <= found[i].region.size,
    ensures
        dump_of(found).regions.contains(
            (RegionView {
                base_address: found[i].region.base_address,
                size: found[i].region.size,
                protect: found[i].region.protect,
                region_type: found[i].region.region_type,
                data: found[i].buf.take(found[i].bytes_read as int),
            }),
        ),
    decreases found.len(),
{
    let f = found[i];
    let kept = RegionView {
        base_address: f.region.base_address,
        size: f.region.size,
        protect: f.region.protect,
        region_type: f.region.region_type,
        data: f.buf.take(f.bytes_read as int),
    };
    let before = found.drop_last();
    let last = found.last();
    crate::snapshot::memory::dump_keeps_and_counts(before);
    if i == found.len() - 1 {
        regions_are_classified_by_their_fields(f.region);
        what_a_read_brings_is_kept(f.region, f.buf, f.bytes_read);
        let n = dump_of(before).regions.len();
        assert(dump_of(found).regions[n as int] == kept);
    } else {
        assert(before[i] == f);
        dump_holds_every_region_worth_keeping(before, i);
        let k = choose|k: int|
            0 <= k < dump_of(before).regions.len() && dump_of(before).regions[k] == kept;
        assert(dump_of(found).regions[k] == kept);
    }
}

/// A region, a thread and a payload are seen with all their fields.
pub proof fn views_leave_nothing_out(
    r: MemoryRegion,
    t: ThreadSnapshot,
    p: SnapshotPayload,
)
    ensures
        r@.base_address == r.base_address,
        r@.size == r.size,
        r@.protect == r.protect,
        r@.region_type == r.region_type,
        r@.data == r.data@,
        t@.tid == t.tid,
        t@.context_bytes == t.context_bytes@,
        p@.process_name == p.process_name@,
        p@.pid == p.pid,
        p@.is_wow64 == p.is_wow64,
        p@.timestamp_ms == p.timestamp_ms,
        p@.memory_regions.len() == p.memory_regions@.len(),
        forall|i: int|
            0 <= i < p.memory_regions@.len() ==> #[trigger] p@.memory_regions[i]
                == p.memory_regions@[i]@,
        p@.thread_snapshots.len() == p.thread_snapshots@.len(),
        forall|i: int|
            0 <= i < p.thread_snapshots@.len() ==> #[trigger] p@.thread_snapshots[i]
                == p.thread_snapshots@[i]@,
{
}

/// A dump is seen with all its fields.
pub proof fn view_of_a_dump_leaves_nothing_out(d: MemoryDump)
    ensures
        d@.address == d.address,
        d@.exhausted == d.exhausted,
        d@.pending == d.pending,
        d@.skipped_noaccess == d.skipped_noaccess,
        d@.skipped_guard == d.skipped_guard,
        d@.skipped_image_ro == d.skipped_image_ro,
        d@.read_partial == d.read_partial,
        d@.read_failed == d.read_failed,
        d@.regions.len() == d.regions@.len(),
        forall|i: int|
            0 <= i < d.regions@.len() ==> #[trigger] d@.regions[i] == d.regions@[i]@,
{
}

/// One more region adds its own bytes to the sum, and one to the number of
/// regions of its type and of no other.
pub proof fn one_more_region_is_counted_by_its_type(
    regions: Seq<RegionView>,
    r: RegionView,
    region_type: u32,
)
    ensures
        raw_bytes(Seq::<RegionView>::empty()) == 0,
        raw_bytes(regions.push(r)) == raw_bytes(regions) + r.data.len(),
        of_type(Seq::<RegionView>::empty(), region_type).len() == 0,
        of_type(regions.push(r), region_type).len() == of_type(regions, region_type).len()
            + if r.region_type == region_type {
            1int
        } else {
            0
        },
{
    reveal(Seq::filter);
    assert(regions.push(r).drop_last() =~= regions);
}

/// Only the three types have names of their own.
pub proof fn region_types_are_named(region_type: u32)
    ensures
        region_type == MEM_IMAGE ==> region_type_name(region_type) == "image"@,
        region_type == MEM_PRIVATE ==> region_type_name(region_type) == "private"@,
        region_type == MEM_MAPPED ==> region_type_name(region_type) == "mapped"@,
        region_type != MEM_IMAGE && region_type != MEM_PRIVATE && region_type != MEM_MAPPED
            ==> region_type_name(region_type) == "?"@,
{
}

/// The name of a protection is that of its low eight bits, and then one name
/// for each of the three modifier bits that is set.
pub proof fn protections_are_named(protect: u32)
    ensures
        protection_name(protect) == base_protection_name(protect & 0xFF) + (if protect & 0x100
            != 0 {
            "+GUARD"@
        } else {
            Seq::<char>::empty()
        }) + (if protect & 0x200 != 0 {
            "+NOCACHE"@
        } else {
            Seq::<char>::empty()
        }) + (if protect & 0x400 != 0 {
            "+WRITECOMBINE"@
        } else {
            Seq::<char>::empty()
        }),
        base_protection_name(0x01) == "NOACCESS"@,
        base_protection_name(0x02) == "READONLY"@,
        base_protection_name(0x04) == "READWRITE"@,
        base_protection_name(0x08) == "WRITECOPY"@,
        base_protection_name(0x10) == "EXECUTE"@,
        base_protection_name(0x20) == "EXECUTE_READ"@,
        base_protection_name(0x40) == "EXECUTE_READWRITE"@,
        base_protection_name(0x80) == "EXECUTE_WRITECOPY"@,
        forall|base: u32|
            base != 1 && base != 2 && base != 4 && base != 8 && base != 16 && base != 32 && base
                != 64 && base != 128 ==> #[trigger] base_protection_name(base) == "?"@,
{
    assert(modifier_name(protect, 0x100, "+GUARD"@) == if protect & 0x100 != 0 {
        "+GUARD"@
    } else {
        Seq::<char>::empty()
    });
}

/// One more thread in the list is collected exactly if it belongs to the
/// process, and then behind the others.
pub proof fn one_more_thread_is_collected_by_its_owner(
    entries: Seq<ThreadEntry>,
    e: ThreadEntry,
    pid: u32,
)
    ensures
        Seq::<ThreadEntry>::empty().filter_map(|x: ThreadEntry| tid_of(x, pid)).len() == 0,
        e.owner_pid == pid ==> entries.push(e).filter_map(|x: ThreadEntry| tid_of(x, pid))
            == entries.filter_map(|x: ThreadEntry| tid_of(x, pid)).push(e.tid),
        e.owner_pid != pid ==> entries.push(e).filter_map(|x: ThreadEntry| tid_of(x, pid))
            == entries.filter_map(|x: ThreadEntry| tid_of(x, pid)),
{
    assert(entries.push(e).drop_last() =~= entries);
}

/// One more capture is kept, behind the others and as it is, exactly if it
/// succeeded.
pub proof fn one_more_capture_is_kept_if_it_succeeded(
    captures: Seq<Result<ThreadSnapshot, QuickResumeError>>,
    c: Result<ThreadSnapshot, QuickResumeError>,
)
    ensures
        ({
            let f = |r: Result<ThreadSnapshot, QuickResumeError>| captured_thread(r);
            &&& Seq::<Result<ThreadSnapshot, QuickResumeError>>::empty().filter_map(f).len() == 0
            &&& match c {
                Ok(snap) => captures.push(c).filter_map(f) == captures.filter_map(f).push(snap),
                Err(_) => captures.push(c).filter_map(f) == captures.filter_map(f),
            }
        }),
{
    assert(captures.push(c).drop_last() =~= captures);
}

/// The timestamp is the clock's number of milliseconds while it fits in 64
/// bits, and 0 where the clock has none.
pub proof fn timestamp_is_the_clock(ms: u128)
    ensures
        timestamp_of(None) == 0,
        ms <= u64::MAX ==> timestamp_of(Some(ms)) == ms,
        ms > u64::MAX ==> (ms - timestamp_of(Some(ms))) % 0x1_0000_0000_0000_0000 == 0,
{
}

/// A snapshot file begins with "QRSV", the version 1, the time of the snapshot
/// and the size of the serialized payload.
pub proof fn file_begins_with_its_header(file: Seq<u8>, p: PayloadView)
    requires
        is_snapshot_file(file, p),
        payload_bytes(p).len() <= u64::MAX,
    ensures
        file.len() >= 28,
        file[0] == 0x51 && file[1] == 0x52 && file[2] == 0x53 && file[3] == 0x56,
        u32_at(file, 4) == 1,
        u64_at(file, 8) == p.timestamp_ms,
        u64_at(file, 16) == payload_bytes(p).len(),
        u32_at(file.skip(24), 0) == payload_bytes(p).len() % 0x1_0000_0000,
{
    crate::restore::reader::header_tells_what_was_written(file, p);
    let front = file.take(4);
    assert(front[0] == file[0] && front[1] == file[1] && front[2] == file[2] && front[3]
        == file[3]);
}

/// The run of bytes 255 at a place is as long as it can be and no longer.
pub proof fn run_of_full_bytes_is_maximal(input: Seq<u8>, i: nat)
    requires
        i <= input.len(),
    ensures
        i + full_bytes(input, i) <= input.len(),
        forall|j: int| i <= j < i + full_bytes(input, i) ==> #[trigger] input[j] == 255,
        i + full_bytes(input, i) < input.len() ==> input[(i + full_bytes(input, i)) as int] != 255,
    decreases input.len() - i,
{
    if i < input.len() && input[i as int] == 255 {
        run_of_full_bytes_is_maximal(input, i + 1);
        assert forall|j: int| i <= j < i + full_bytes(input, i) implies #[trigger] input[j]
            == 255 by {
            if j > i {
                assert(i + 1 <= j < i + 1 + full_bytes(input, i + 1));
            }
        }
    }
}

proof fn lemma_short_runs_fit_from(input: Seq<u8>, i: nat, out: nat, size: nat, k: nat)
    requires
        forall|j: nat| #[trigger] full_bytes(input, j) <= k,
        255 * k + 254 <= u32::MAX,
        isize::MAX + 255 * k + 273 <= usize::MAX,
        size <= isize::MAX,
        out <= size,
    ensures
        lengths_fit_from(input, i, out, size),
    decreases input.len() - i,
{
    reveal(lengths_fit_from);
    if i < input.len() {
        let literal_bits = input[i as int] / 16;
        let match_bits = input[i as int] % 16;
        let literals = field_value(input, i + 1, literal_bits);
        let offset_at = field_end(input, i + 1, literal_bits) + literals;
        let copied = out + literals;
        let matched = 4 + field_value(input, offset_at + 2, match_bits);
        let next = field_end(input, offset_at + 2, match_bits);
        lemma_last_byte(input, i + 1);
        lemma_last_byte(input, offset_at + 2);
        assert(full_bytes(input, i + 1) <= k);
        assert(full_bytes(input, offset_at + 2) <= k);
        assert(field_fits(input, i + 1, literal_bits, 0));
        if copied <= size {
            assert(field_fits(input, offset_at + 2, match_bits, copied + 4));
            if next < input.len() && copied + matched <= size {
                lemma_short_runs_fit_from(input, next, copied + matched, size, k);
            }
        }
    }
}

/// The byte behind a run of bytes 255 is at most 254.
proof fn lemma_last_byte(input: Seq<u8>, i: nat)
    ensures
        i + full_bytes(input, i) < input.len() ==> input[(i + full_bytes(input, i)) as int] <= 254,
{
    if i <= input.len() {
        run_of_full_bytes_is_maximal(input, i);
    }
}

/// A block can be given to the decompressor if it announces an output that can
/// be allocated and nowhere holds more bytes 255 in a row than a length of 32
/// bits has. So can every block that is no longer than that.
pub proof fn blocks_without_long_runs_fit(input: Seq<u8>, k: nat)
    requires
        input.len() >= 4 ==> u32_at(input, 0) <= isize::MAX,
        255 * k + 254 <= u32::MAX,
        isize::MAX + 255 * k + 273 <= usize::MAX,
        input.len() <= k || forall|i: nat| #[trigger] full_bytes(input, i) <= k,
    ensures
        lengths_fit(input),
{
    assert forall|i: nat| #[trigger] full_bytes(input, i) <= k by {
        if i <= input.len() {
            run_of_full_bytes_is_maximal(input, i);
        }
    }
    if input.len() >= 4 {
        lemma_short_runs_fit_from(input, 4, 0, u32_at(input, 0) as nat, k);
    } else {
        reveal(lengths_fit_from);
    }
}

/// What stands behind the place where the decoder stops does not matter: behind
/// an offset of 0, behind literals that the output has no room for, and behind
/// a match that is too long for the output or begins before it.
pub proof fn nothing_behind_a_stop_matters(input: Seq<u8>, i: nat, out: nat, size: nat)
    requires
        i < input.len(),
        input[i as int] / 16 < 15,
    ensures
        ({
            let literals = (input[i as int] / 16) as nat;
            let at = i + 1 + literals;
            let offset = input[at as int] + 256 * input[at as int + 1];
            let short_match = input[i as int] % 16 < 15;
            let length = 4 + input[i as int] % 16;
            &&& at + 2 > input.len() ==> lengths_fit_from(input, i, out, size)
            &&& out + literals > size ==> lengths_fit_from(input, i, out, size)
            &&& offset == 0 ==> lengths_fit_from(input, i, out, size)
            &&& short_match && offset > out + literals ==> lengths_fit_from(input, i, out, size)
            &&& short_match && out + literals + length > size ==> lengths_fit_from(
                input,
                i,
                out,
                size,
            )
        }),
{
    reveal(lengths_fit_from);
}

/// A block whose first length needs more than 32 bits cannot be given to the
/// decompressor.
pub proof fn first_length_beyond_32_bits_does_not_fit(input: Seq<u8>)
    requires
        input.len() > 5,
        input[4] / 16 == 15,
        255 * full_bytes(input, 5) > u32::MAX,
    ensures
        !lengths_fit(input),
{
    reveal(lengths_fit_from);
}

} // verus!
