//! Building a snapshot and writing it in the `.qrs` file format.
//!
//! ```text
//! [4 bytes]  Magic: "QRSV"
//! [4 bytes]  Version: u32 (little-endian)
//! [8 bytes]  Timestamp: u64 unix milliseconds (little-endian)
//! [8 bytes]  Uncompressed payload size: u64 (little-endian)
//! [N bytes]  LZ4-compressed bincode payload
//! ```
use crate::snapshot::codec::{
    bincode_serialize, lengths_fit, lengths_fit_from, lz4_block_decompressed, lz4_compress,
    region_row, thread_row, RegionRow, ThreadRow,
};
use crate::snapshot::encoding::{
    lemma_payload_len, payload_bytes, regions_bytes, threads_bytes, PayloadView,
};
use crate::snapshot::memory::MemoryRegion;
use crate::snapshot::threads::ThreadSnapshot;
use crate::util::bytes::{push_u32, push_u64, u32_at, u32_bytes, u64_bytes};
use crate::util::error::QuickResumeError;
use std::time::{Duration, SystemTime, SystemTimeError, UNIX_EPOCH};
use vstd::prelude::*;

verus! {

/// The current version of the file format.
pub const VERSION: u32 = 1;

/// The size of the header in bytes.
pub const HEADER_SIZE: usize = 24;

/// "QRSV"
pub open spec fn magic() -> Seq<u8> {
    seq![0x51u8, 0x52u8, 0x53u8, 0x56u8]
}

/// The full snapshot of a process.
#[derive(Debug)]
pub struct SnapshotPayload {
    pub process_name: String,
    pub pid: u32,
    /// Whether the process was a 32-bit one.
    pub is_wow64: bool,
    pub timestamp_ms: u64,
    pub memory_regions: Vec<MemoryRegion>,
    pub thread_snapshots: Vec<ThreadSnapshot>,
}

impl View for SnapshotPayload {
    type V = PayloadView;

    open spec fn view(&self) -> PayloadView {
        PayloadView {
            process_name: self.process_name@,
            pid: self.pid,
            is_wow64: self.is_wow64,
            timestamp_ms: self.timestamp_ms,
            memory_regions: self.memory_regions@.map_values(|r: MemoryRegion| r@),
            thread_snapshots: self.thread_snapshots@.map_values(|t: ThreadSnapshot| t@),
        }
    }
}

/// `std::time::SystemTime`, carried from the clock to its conversion.
#[verifier::external_type_specification]
#[verifier::external_body]
pub struct ExSystemTime(SystemTime);

/// The error of a clock that stands before the Unix epoch.
#[verifier::external_type_specification]
#[verifier::external_body]
pub struct ExSystemTimeError(SystemTimeError);

/// `SystemTime::now` reads the clock; nothing is promised of the reading.
pub assume_specification[ SystemTime::now ]() -> (now: SystemTime)
;

/// `Duration::as_millis` gives the whole milliseconds of a duration. A duration
/// is opaque here, so nothing can be said of their number.
pub assume_specification[ Duration::as_millis ](d: &Duration) -> (ms: u128)
;

/// Calls `SystemTime::duration_since` with the Unix epoch. Nothing is promised
/// of the time elapsed on the machine's clock.
#[verifier::external_body]
fn since_unix_epoch(now: &SystemTime) -> (r: Result<Duration, SystemTimeError>) {
    now.duration_since(UNIX_EPOCH)
}

/// The timestamp for a clock reading in milliseconds since the Unix epoch: its
/// low 64 bits, or 0 for a clock that stands before the epoch.
pub open spec fn timestamp_of(clock_ms: Option<u128>) -> u64 {
    match clock_ms {
        Some(ms) => (ms % 0x1_0000_0000_0000_0000) as u64,
        None => 0,
    }
}

/// Builds a payload from captured data and a clock reading.
pub fn payload_at(
    clock_ms: Option<u128>,
    process_name: &str,
    pid: u32,
    is_wow64: bool,
    memory_regions: Vec<MemoryRegion>,
    thread_snapshots: Vec<ThreadSnapshot>,
) -> (p: SnapshotPayload)
    ensures
        p.process_name@ == process_name@,
        p.pid == pid,
        p.is_wow64 == is_wow64,
        p.timestamp_ms == timestamp_of(clock_ms),
        p.memory_regions == memory_regions,
        p.thread_snapshots == thread_snapshots,
{
    let timestamp_ms: u64 = match clock_ms {
        Some(ms) => {
            assert((ms as u64) == ms % 0x1_0000_0000_0000_0000u128) by (bit_vector);
            #[verifier::truncate]
            (ms as u64)
        },
        None => 0,
    };
    SnapshotPayload {
        process_name: process_name.to_string(),
        pid,
        is_wow64,
        timestamp_ms,
        memory_regions,
        thread_snapshots,
    }
}

/// Builds a payload from captured data, stamped with the current time.
pub fn build_payload(
    process_name: &str,
    pid: u32,
    is_wow64: bool,
    memory_regions: Vec<MemoryRegion>,
    thread_snapshots: Vec<ThreadSnapshot>,
) -> (p: SnapshotPayload)
    ensures
        p.process_name@ == process_name@,
        p.pid == pid,
        p.is_wow64 == is_wow64,
        p.memory_regions == memory_regions,
        p.thread_snapshots == thread_snapshots,
{
    let now = SystemTime::now();
    let clock_ms: Option<u128> = match since_unix_epoch(&now) {
        Ok(elapsed) => Some(elapsed.as_millis()),
        Err(_) => None,
    };
    payload_at(clock_ms, process_name, pid, is_wow64, memory_regions, thread_snapshots)
}

/// The header of a snapshot file.
pub open spec fn header_bytes(timestamp_ms: u64, raw_size: int) -> Seq<u8> {
    magic() + u32_bytes(VERSION as int) + u64_bytes(timestamp_ms as int) + u64_bytes(raw_size)
}

/// The LZ4 block in `compressed` holds exactly `raw`.
pub open spec fn block_holds(compressed: Seq<u8>, raw: Seq<u8>) -> bool {
    lz4_block_decompressed(compressed.skip(4), raw.len()) matches Ok(bytes) && bytes == raw
}

/// `compressed` can stand for `raw` in a snapshot file.
pub open spec fn compresses(compressed: Seq<u8>, raw: Seq<u8>) -> bool {
    &&& compressed.len() >= 4
    &&& u32_at(compressed, 0) == raw.len() % 0x1_0000_0000
    &&& raw.len() <= u32::MAX ==> lengths_fit(compressed)
    &&& lengths_fit_from(compressed, 4, 0, raw.len()) ==> block_holds(compressed, raw)
}

/// `file` holds the header for `raw`, then `raw` compressed.
pub open spec fn frames(file: Seq<u8>, timestamp_ms: u64, raw: Seq<u8>) -> bool {
    &&& file.len() >= HEADER_SIZE
    &&& file.take(HEADER_SIZE as int) == header_bytes(timestamp_ms, raw.len() as int)
    &&& compresses(file.skip(HEADER_SIZE as int), raw)
}

/// `file` is a snapshot file of `p`.
pub open spec fn is_snapshot_file(file: Seq<u8>, p: PayloadView) -> bool {
    frames(file, p.timestamp_ms, payload_bytes(p))
}

/// The bytes of a snapshot file, and what they cost before and after compression.
pub struct SnapshotFile {
    pub bytes: Vec<u8>,
    pub raw_size: u64,
    pub compressed_size: u64,
}

fn region_rows(regions: &Vec<MemoryRegion>) -> (rows: Vec<RegionRow>)
    ensures
        rows@.map_values(|r: RegionRow| region_row(r)) == regions@.map_values(
            |r: MemoryRegion| r@,
        ),
{
    let mut rows: Vec<RegionRow> = Vec::new();
    for i in 0..regions.len()
        invariant
            rows@.len() == i,
            forall|j: int| 0 <= j < i ==> region_row(#[trigger] rows@[j]) == regions@[j]@,
    {
        let r = &regions[i];
        rows.push((r.base_address, r.size, r.protect, r.region_type, r.data.as_slice()));
    }
    assert(rows@.map_values(|r: RegionRow| region_row(r)) =~= regions@.map_values(
        |r: MemoryRegion| r@,
    ));
    rows
}

fn thread_rows(threads: &Vec<ThreadSnapshot>) -> (rows: Vec<ThreadRow>)
    ensures
        rows@.map_values(|t: ThreadRow| thread_row(t)) == threads@.map_values(
            |t: ThreadSnapshot| t@,
        ),
{
    let mut rows: Vec<ThreadRow> = Vec::new();
    for i in 0..threads.len()
        invariant
            rows@.len() == i,
            forall|j: int| 0 <= j < i ==> thread_row(#[trigger] rows@[j]) == threads@[j]@,
    {
        let t = &threads[i];
        rows.push((t.tid, t.context_bytes.as_slice()));
    }
    assert(rows@.map_values(|t: ThreadRow| thread_row(t)) =~= threads@.map_values(
        |t: ThreadSnapshot| t@,
    ));
    rows
}

/// The header of a snapshot file, as bytes.
fn header(timestamp_ms: u64, raw_size: u64) -> (bytes: Vec<u8>)
    ensures
        bytes@ == header_bytes(timestamp_ms, raw_size as int),
        bytes@.len() == HEADER_SIZE,
{
    let mut bytes: Vec<u8> = vec![0x51, 0x52, 0x53, 0x56];
    assert(bytes@ =~= magic());
    push_u32(&mut bytes, VERSION);
    push_u64(&mut bytes, timestamp_ms);
    push_u64(&mut bytes, raw_size);
    bytes
}

/// Compresses a serialized payload and puts the header before it. The
/// condition leaves room for the compressor's buffer.
pub fn frame(timestamp_ms: u64, raw: &[u8]) -> (file: SnapshotFile)
    requires
        raw@.len() * 110 <= usize::MAX,
    ensures
        frames(file.bytes@, timestamp_ms, raw@),
        file.raw_size == raw@.len(),
        file.compressed_size == file.bytes@.len() - HEADER_SIZE,
{
    let raw_size: u64 = raw.len() as u64;
    let mut compressed = lz4_compress(raw);
    let compressed_size: u64 = compressed.len() as u64;
    let ghost body = compressed@;
    let mut bytes = header(timestamp_ms, raw_size);
    let ghost head = bytes@;
    bytes.append(&mut compressed);
    proof {
        lemma_halves(head, body);
    }
    SnapshotFile { bytes, raw_size, compressed_size }
}

proof fn lemma_halves(a: Seq<u8>, b: Seq<u8>)
    ensures
        (a + b).take(a.len() as int) == a,
        (a + b).skip(a.len() as int) == b,
{
    assert((a + b).take(a.len() as int) =~= a);
    assert((a + b).skip(a.len() as int) =~= b);
}

/// Adds the sizes of serialized regions to `start`, unless the sum leaves no
/// room for the compressor's buffer.
fn add_region_sizes(start: u128, regions: &Vec<MemoryRegion>) -> (r: Option<u128>)
    requires
        start * 110 <= usize::MAX,
    ensures
        ({
            let all = regions_bytes(regions@.map_values(|r: MemoryRegion| r@)).len();
            match r {
                Some(sum) => sum == start + all && sum * 110 <= usize::MAX,
                None => (start + all) * 110 > usize::MAX,
            }
        }),
{
    let ghost all = regions@.map_values(|r: MemoryRegion| r@);
    let mut sum: u128 = start;
    assert(all.skip(0) =~= all);
    for i in 0..regions.len()
        invariant
            all == regions@.map_values(|r: MemoryRegion| r@),
            sum + regions_bytes(all.skip(i as int)).len() == start + regions_bytes(all).len(),
            sum * 110 <= usize::MAX,
    {
        assert(all.skip(i as int).drop_first() =~= all.skip(i + 1));
        assert(all.skip(i as int)[0] == regions@[i as int]@);
        sum = sum + 32 + regions[i].data.len() as u128;
        if sum * 110 > usize::MAX as u128 {
            return None;
        }
    }
    Some(sum)
}

/// Adds the sizes of serialized threads to `start`, unless the sum leaves no
/// room for the compressor's buffer.
fn add_thread_sizes(start: u128, threads: &Vec<ThreadSnapshot>) -> (r: Option<u128>)
    requires
        start * 110 <= usize::MAX,
    ensures
        ({
            let all = threads_bytes(threads@.map_values(|t: ThreadSnapshot| t@)).len();
            match r {
                Some(sum) => sum == start + all && sum * 110 <= usize::MAX,
                None => (start + all) * 110 > usize::MAX,
            }
        }),
{
    let ghost all = threads@.map_values(|t: ThreadSnapshot| t@);
    let mut sum: u128 = start;
    assert(all.skip(0) =~= all);
    for i in 0..threads.len()
        invariant
            all == threads@.map_values(|t: ThreadSnapshot| t@),
            sum + threads_bytes(all.skip(i as int)).len() == start + threads_bytes(all).len(),
            sum * 110 <= usize::MAX,
    {
        assert(all.skip(i as int).drop_first() =~= all.skip(i + 1));
        assert(all.skip(i as int)[0] == threads@[i as int]@);
        sum = sum + 12 + threads[i].context_bytes.len() as u128;
        if sum * 110 > usize::MAX as u128 {
            return None;
        }
    }
    Some(sum)
}

/// Whether the serialized payload leaves room for the compressor's buffer, so
/// that the payload can be written.
pub fn can_write(payload: &SnapshotPayload) -> (r: bool)
    ensures
        r == (payload_bytes(payload@).len() * 110 <= usize::MAX),
{
    proof {
        lemma_payload_len(payload@);
    }
    let start: u128 = 37 + payload.process_name.as_str().as_bytes().len() as u128;
    if start * 110 > usize::MAX as u128 {
        return false;
    }
    match add_region_sizes(start, &payload.memory_regions) {
        Some(sum) => match add_thread_sizes(sum, &payload.thread_snapshots) {
            Some(_) => true,
            None => false,
        },
        None => false,
    }
}

/// Serializes and compresses a payload into the bytes of a snapshot file. The
/// size of the serialized payload leaves room for the compressor's buffer.
pub fn write_snapshot(payload: &SnapshotPayload) -> (r: Result<SnapshotFile, QuickResumeError>)
    requires
        payload_bytes(payload@).len() * 110 <= usize::MAX,
    ensures
        r matches Ok(file) && {
            &&& is_snapshot_file(file.bytes@, payload@)
            &&& file.raw_size == payload_bytes(payload@).len()
            &&& file.compressed_size == file.bytes@.len() - HEADER_SIZE
        },
{
    let regions = region_rows(&payload.memory_regions);
    let threads = thread_rows(&payload.thread_snapshots);
    match bincode_serialize(
        payload.process_name.as_str(),
        payload.pid,
        payload.is_wow64,
        payload.timestamp_ms,
        &regions,
        &threads,
    ) {
        Ok(raw) => Ok(frame(payload.timestamp_ms, raw.as_slice())),
        Err(e) => Err(QuickResumeError::Serialize(e)),
    }
}

} // verus!
