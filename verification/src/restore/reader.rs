//! Reading `.qrs` snapshot files.
use crate::snapshot::codec::{
    bincode_deserialize, field_end, field_fits, field_value, full_bytes, lengths_fit,
    lengths_fit_from, lz4_block_decompressed, lz4_decompress, lz4_decompressed, owned_region_row,
    owned_thread_row, payload_row, OwnedRegionRow, OwnedThreadRow,
};
use crate::snapshot::encoding::{payload_bytes, payload_unique, PayloadView};
use crate::snapshot::memory::MemoryRegion;
use crate::snapshot::threads::ThreadSnapshot;
use crate::snapshot::writer::{
    block_holds, compresses, frames, header_bytes, is_snapshot_file, magic, SnapshotPayload,
    HEADER_SIZE, VERSION,
};
use crate::util::bytes::{
    lemma_u32_at, lemma_u32_bytes, lemma_u64_at, lemma_u64_bytes, read_u16, read_u32, read_u64,
    u32_at, u32_bytes, u64_at, u64_bytes,
};
use crate::util::error::{unexpected_eof, QuickResumeError};
use crate::util::text::{decimal, push_decimal};
use vstd::prelude::*;

verus! {

/// What the bytes of a snapshot file turn out to be.
pub enum Reading {
    /// They end inside the header.
    Truncated,
    BadMagic,
    BadVersion(u32),
    /// The LZ4 block is damaged; the decoder's own words.
    BadBlock(Seq<char>),
    /// The block holds `got` bytes where the header promises `expected`.
    WrongSize { expected: usize, got: nat },
    /// The decompressed bytes do not begin with a payload.
    NoPayload,
    Payload(PayloadView),
}

/// The payload at the front of `raw`. There is at most one.
pub open spec fn payload_in(raw: Seq<u8>) -> Reading {
    if exists|p: PayloadView| (#[trigger] payload_bytes(p)).is_prefix_of(raw) {
        Reading::Payload(choose|p: PayloadView| (#[trigger] payload_bytes(p)).is_prefix_of(raw))
    } else {
        Reading::NoPayload
    }
}

/// What becomes of a decompressed block, given the size in the header.
pub open spec fn unpacked(
    decompressed: Result<Seq<u8>, Seq<char>>,
    uncompressed_size: usize,
) -> Reading {
    match decompressed {
        Err(text) => Reading::BadBlock(text),
        Ok(raw) => if raw.len() != uncompressed_size {
            Reading::WrongSize { expected: uncompressed_size, got: raw.len() }
        } else {
            payload_in(raw)
        },
    }
}

/// What a snapshot file is. The fields of the header are checked in the order
/// in which they stand, so a wrong one is reported before a missing one.
pub open spec fn reading(file: Seq<u8>) -> Reading {
    if file.len() < 4 {
        Reading::Truncated
    } else if file.take(4) != magic() {
        Reading::BadMagic
    } else if file.len() < 8 {
        Reading::Truncated
    } else if u32_at(file, 4) != VERSION {
        Reading::BadVersion(u32_at(file, 4) as u32)
    } else if file.len() < HEADER_SIZE {
        Reading::Truncated
    } else {
        unpacked(
            lz4_decompressed(file.skip(HEADER_SIZE as int)),
            (u64_at(file, 16) as u64) as usize,
        )
    }
}

/// The outcome of a read says what the file is.
pub open spec fn reports(
    outcome: Result<SnapshotPayload, QuickResumeError>,
    file: Reading,
) -> bool {
    match file {
        Reading::Truncated => outcome matches Err(e) && e.is_unexpected_eof(),
        Reading::BadMagic => outcome matches Err(QuickResumeError::InvalidSnapshotMagic),
        Reading::BadVersion(v) => outcome matches Err(QuickResumeError::UnsupportedVersion(w))
            && v == w,
        Reading::BadBlock(text) => outcome matches Err(e) && e.is_other(
            "LZ4 decompress failed: "@ + text,
        ),
        Reading::WrongSize { expected, got } => outcome matches Err(e) && e.is_other(
            "Size mismatch: expected "@ + decimal(expected as nat) + " bytes, got "@ + decimal(got),
        ),
        Reading::NoPayload => outcome matches Err(QuickResumeError::Serialize(_)),
        Reading::Payload(p) => outcome matches Ok(payload) && payload@ == p,
    }
}

fn regions_from(rows: Vec<OwnedRegionRow>) -> (regions: Vec<MemoryRegion>)
    ensures
        regions@.map_values(|r: MemoryRegion| r@) == rows@.map_values(
            |r: OwnedRegionRow| owned_region_row(r),
        ),
{
    let ghost all = rows@;
    let mut regions: Vec<MemoryRegion> = Vec::new();
    for row in it: rows
        invariant
            it.seq() == all,
            regions@.len() == it.index(),
            forall|j: int|
                0 <= j < it.index() ==> (#[trigger] regions@[j])@ == owned_region_row(all[j]),
    {
        regions.push(
            MemoryRegion {
                base_address: row.0,
                size: row.1,
                protect: row.2,
                region_type: row.3,
                data: row.4,
            },
        );
    }
    assert(regions@.map_values(|r: MemoryRegion| r@) =~= all.map_values(
        |r: OwnedRegionRow| owned_region_row(r),
    ));
    regions
}

fn threads_from(rows: Vec<OwnedThreadRow>) -> (threads: Vec<ThreadSnapshot>)
    ensures
        threads@.map_values(|t: ThreadSnapshot| t@) == rows@.map_values(
            |t: OwnedThreadRow| owned_thread_row(t),
        ),
{
    let ghost all = rows@;
    let mut threads: Vec<ThreadSnapshot> = Vec::new();
    for row in it: rows
        invariant
            it.seq() == all,
            threads@.len() == it.index(),
            forall|j: int|
                0 <= j < it.index() ==> (#[trigger] threads@[j])@ == owned_thread_row(all[j]),
    {
        threads.push(ThreadSnapshot { tid: row.0, context_bytes: row.1 });
    }
    assert(threads@.map_values(|t: ThreadSnapshot| t@) =~= all.map_values(
        |t: OwnedThreadRow| owned_thread_row(t),
    ));
    threads
}

/// Deserializes the payload at the front of decompressed bytes.
pub fn deserialize_payload(raw: &[u8]) -> (r: Result<SnapshotPayload, QuickResumeError>)
    ensures
        reports(r, payload_in(raw@)),
{
    match bincode_deserialize(raw) {
        Ok(row) => {
            let ghost p = payload_row(row);
            let payload = SnapshotPayload {
                process_name: row.0,
                pid: row.1,
                is_wow64: row.2,
                timestamp_ms: row.3,
                memory_regions: regions_from(row.4),
                thread_snapshots: threads_from(row.5),
            };
            proof {
                let q = choose|q: PayloadView| (#[trigger] payload_bytes(q)).is_prefix_of(raw@);
                assert(raw.len() <= u64::MAX);
                payload_unique(p, q, raw@);
            }
            Ok(payload)
        },
        Err(e) => Err(QuickResumeError::Serialize(e)),
    }
}

/// Goes on from the decompressor's result to the payload. `uncompressed_size`
/// is the size that the header promises.
pub fn unpack(
    decompressed: Result<Vec<u8>, String>,
    uncompressed_size: usize,
) -> (r: Result<SnapshotPayload, QuickResumeError>)
    ensures
        reports(
            r,
            unpacked(
                match decompressed {
                    Ok(raw) => Ok(raw@),
                    Err(text) => Err(text@),
                },
                uncompressed_size,
            ),
        ),
{
    match decompressed {
        Err(text) => {
            let mut message = "LZ4 decompress failed: ".to_string();
            message.append(text.as_str());
            Err(QuickResumeError::Other(message))
        },
        Ok(raw) => {
            if raw.len() != uncompressed_size {
                let mut message = "Size mismatch: expected ".to_string();
                push_decimal(&mut message, uncompressed_size as u64);
                message.append(" bytes, got ");
                push_decimal(&mut message, raw.len() as u64);
                return Err(QuickResumeError::Other(message));
            }
            deserialize_payload(raw.as_slice())
        },
    }
}

/// The first four bytes are the magic.
fn has_magic(file: &[u8]) -> (r: bool)
    requires
        file@.len() >= 4,
    ensures
        r == (file@.take(4) == magic()),
{
    let r = file[0] == 0x51 && file[1] == 0x52 && file[2] == 0x53 && file[3] == 0x56;
    proof {
        let front = file@.take(4);
        assert(front[0] == file@[0] && front[1] == file@[1] && front[2] == file@[2] && front[3]
            == file@[3]);
        if r {
            assert(front =~= magic());
        }
    }
    r
}

/// The block of a file with a sound header can be given to the decompressor.
pub open spec fn block_fits(file: Seq<u8>) -> bool {
    file.len() >= HEADER_SIZE && file.take(4) == magic() && u32_at(file, 4) == VERSION
        ==> lengths_fit(file.skip(HEADER_SIZE as int))
}

/// The header of a file is sound, but promises more bytes than the block
/// behind it announces.
pub open spec fn promises_too_much(file: Seq<u8>) -> bool {
    &&& file.len() >= HEADER_SIZE + 4
    &&& file.take(4) == magic()
    &&& u32_at(file, 4) == VERSION
    &&& ((u64_at(file, 16) as u64) as usize) > u32_at(file, HEADER_SIZE as int)
}

/// A file that promises too much is refused as damaged.
pub open spec fn refuses_too_much(
    outcome: Result<SnapshotPayload, QuickResumeError>,
    file: Seq<u8>,
) -> bool {
    promises_too_much(file) ==> (outcome matches Err(QuickResumeError::Other(_)))
}

/// Reads a snapshot file. No file reads as a payload of more than 32 bits of
/// bytes, because the block announces its size in 32 bits.
pub fn read_snapshot(file: &[u8]) -> (r: Result<SnapshotPayload, QuickResumeError>)
    requires
        block_fits(file@),
    ensures
        reports(r, reading(file@)),
        refuses_too_much(r, file@),
        r is Ok && usize::MAX == u64::MAX ==> u64_at(file@, 16) <= u32::MAX,
{
    if file.len() < 4 {
        return Err(unexpected_eof());
    }
    if !has_magic(file) {
        return Err(QuickResumeError::InvalidSnapshotMagic);
    }
    if file.len() < 8 {
        return Err(unexpected_eof());
    }
    let version: u32 = read_u32(file, 4);
    if version != VERSION {
        return Err(QuickResumeError::UnsupportedVersion(version));
    }
    if file.len() < HEADER_SIZE {
        return Err(unexpected_eof());
    }
    #[verifier::truncate]
    let uncompressed_size: usize = read_u64(file, 16) as usize;
    let compressed = vstd::slice::slice_subrange(file, HEADER_SIZE, file.len());
    assert(compressed@ =~= file@.skip(HEADER_SIZE as int));
    let decompressed = lz4_decompress(compressed);
    proof {
        if file@.len() >= HEADER_SIZE + 4 {
            lemma_u32_at(file@, HEADER_SIZE as int);
            lemma_u32_at(compressed@, 0);
            assert(compressed@.subrange(0, 4) =~= file@.subrange(
                HEADER_SIZE as int,
                HEADER_SIZE + 4,
            ));
        }
    }
    unpack(decompressed, uncompressed_size)
}

/// Counts the bytes 255 from `i` on.
fn count_full(input: &[u8], i: usize) -> (k: usize)
    requires
        i <= input.len(),
    ensures
        k == full_bytes(input@, i as nat),
        i + k <= input@.len(),
{
    let mut k: usize = 0;
    while i + k < input.len() && input[i + k] == 255
        invariant
            i + k <= input@.len() <= usize::MAX,
            full_bytes(input@, i as nat) == k + full_bytes(input@, (i + k) as nat),
        decreases input@.len() - i - k,
    {
        k = k + 1;
    }
    k
}

/// Reads a length whose additional bytes are at `i`, and where it ends. `None`
/// stands for one that cannot be added up.
fn read_field(input: &[u8], i: usize, bits: u8, base: u128) -> (r: Option<(u128, u128)>)
    requires
        i <= input.len(),
        bits <= 15,
        base <= 0x1_0000_0000_0000_0000,
    ensures
        match r {
            Some((value, end)) => {
                &&& field_fits(input@, i as nat, bits, base as nat)
                &&& value == field_value(input@, i as nat, bits)
                &&& end == field_end(input@, i as nat, bits)
                &&& value <= 15 + u32::MAX
                &&& end <= input@.len() + 1
            },
            None => !field_fits(input@, i as nat, bits, base as nat),
        },
{
    if bits != 15 {
        return Some((bits as u128, i as u128));
    }
    let k: usize = count_full(input, i);
    let mut value: u128 = 15 + 255 * (k as u128);
    let ended = i + k < input.len();
    if ended {
        value = value + input[i + k] as u128;
    }
    if value - 15 > u32::MAX as u128 || (ended && base + value > usize::MAX as u128) {
        return None;
    }
    Some((value, i as u128 + k as u128 + 1))
}

/// Whether an LZ4 block can be given to the decompressor.
pub fn check_lengths(input: &[u8]) -> (r: bool)
    ensures
        r == lengths_fit(input@),
{
    proof {
        reveal(lengths_fit_from);
    }
    if input.len() < 4 {
        return true;
    }
    let size: u128 = read_u32(input, 0) as u128;
    if size > isize::MAX as u128 {
        return false;
    }
    let len: u128 = input.len() as u128;
    let mut i: usize = 4;
    let mut out: u128 = 0;
    while i < input.len()
        invariant
            len == input@.len(),
            out <= size <= u32::MAX,
            lengths_fit(input@) == lengths_fit_from(input@, i as nat, out as nat, size as nat),
        decreases input@.len() - i,
    {
        proof {
            reveal(lengths_fit_from);
        }
        let literal_bits: u8 = input[i] / 16;
        let match_bits: u8 = input[i] % 16;
        let (literals, literals_at) = match read_field(input, i + 1, literal_bits, 0) {
            Some(field) => field,
            None => {
                return false;
            },
        };
        let offset_at: u128 = literals_at + literals;
        let copied: u128 = out + literals;
        if offset_at + 2 > len || copied > size {
            return true;
        }
        let at: usize = offset_at as usize;
        let offset: u128 = read_u16(input, at) as u128;
        if offset == 0 {
            return true;
        }
        let (length, next) = match read_field(input, at + 2, match_bits, copied + 4) {
            Some(field) => field,
            None => {
                return false;
            },
        };
        let written: u128 = copied + 4 + length;
        if next >= len || written > size || offset > copied {
            return true;
        }
        i = next as usize;
        out = written;
    }
    true
}

/// Reads a snapshot file of any origin. `None` stands for a block with a
/// length that the decompressor cannot add up.
pub fn read_snapshot_checked(file: &[u8]) -> (r: Option<Result<
    SnapshotPayload,
    QuickResumeError,
>>)
    ensures
        r is None <==> !block_fits(file@),
        r matches Some(outcome) ==> reports(outcome, reading(file@)),
        r matches Some(outcome) ==> refuses_too_much(outcome, file@),
{
    if file.len() >= HEADER_SIZE && has_magic(file) && read_u32(file, 4) == VERSION {
        let compressed = vstd::slice::slice_subrange(file, HEADER_SIZE, file.len());
        assert(compressed@ =~= file@.skip(HEADER_SIZE as int));
        if !check_lengths(compressed) {
            return None;
        }
    }
    Some(read_snapshot(file))
}

/// What the header of a snapshot file says, with the size of what follows it.
#[derive(Debug, PartialEq, Eq, Clone, Copy, Structural)]
pub struct SnapshotHeader {
    pub version: u32,
    pub timestamp_ms: u64,
    pub uncompressed_size: u64,
    pub compressed_size: u64,
}

/// Reads the header of a snapshot file of any version. `front` holds the first
/// bytes of the file, as many as the header has or all there are; `file_size`
/// is the size of the whole file.
pub fn peek_snapshot_header(front: &[u8], file_size: u64) -> (r: Result<
    SnapshotHeader,
    QuickResumeError,
>)
    requires
        front@.len() >= HEADER_SIZE ==> file_size >= HEADER_SIZE,
    ensures
        front@.len() < 4 ==> (r matches Err(e) && e.is_unexpected_eof()),
        front@.len() >= 4 && front@.take(4) != magic() ==> r matches Err(
            QuickResumeError::InvalidSnapshotMagic,
        ),
        4 <= front@.len() < HEADER_SIZE && front@.take(4) == magic() ==> (r matches Err(e)
            && e.is_unexpected_eof()),
        front@.len() >= HEADER_SIZE && front@.take(4) == magic() ==> (r matches Ok(header) && {
            &&& header.version == u32_at(front@, 4)
            &&& header.timestamp_ms == u64_at(front@, 8)
            &&& header.uncompressed_size == u64_at(front@, 16)
            &&& header.compressed_size == file_size - HEADER_SIZE
        }),
{
    if front.len() < 4 {
        return Err(unexpected_eof());
    }
    if !has_magic(front) {
        return Err(QuickResumeError::InvalidSnapshotMagic);
    }
    if front.len() < HEADER_SIZE {
        return Err(unexpected_eof());
    }
    Ok(
        SnapshotHeader {
            version: read_u32(front, 4),
            timestamp_ms: read_u64(front, 8),
            uncompressed_size: read_u64(front, 16),
            compressed_size: file_size - HEADER_SIZE as u64,
        },
    )
}

proof fn lemma_header_fields(file: Seq<u8>, timestamp_ms: u64, raw_size: int)
    requires
        0 <= raw_size <= u64::MAX,
        file.len() >= HEADER_SIZE,
        file.take(HEADER_SIZE as int) == header_bytes(timestamp_ms, raw_size),
    ensures
        file.take(4) == magic(),
        u32_at(file, 4) == VERSION,
        u64_at(file, 8) == timestamp_ms,
        u64_at(file, 16) == raw_size,
{
    let head = file.take(HEADER_SIZE as int);
    let (v, t, z) = (
        u32_bytes(VERSION as int),
        u64_bytes(timestamp_ms as int),
        u64_bytes(raw_size),
    );
    assert(file.take(4) =~= head.take(4));
    assert(file.subrange(4, 8) =~= head.subrange(4, 8));
    assert(file.subrange(8, 16) =~= head.subrange(8, 16));
    assert(file.subrange(16, 24) =~= head.subrange(16, 24));
    assert(head.take(4) =~= magic());
    assert(head.subrange(4, 8) =~= v);
    assert(head.subrange(8, 16) =~= t);
    assert(head.subrange(16, 24) =~= z);
    lemma_u32_at(file, 4);
    lemma_u64_at(file, 8);
    lemma_u64_at(file, 16);
    lemma_u32_bytes(VERSION as int);
    lemma_u64_bytes(timestamp_ms as int);
    lemma_u64_bytes(raw_size);
}

/// The payload at the front of its own serialized form.
proof fn lemma_payload_in(p: PayloadView)
    requires
        payload_bytes(p).len() <= u64::MAX,
    ensures
        payload_in(payload_bytes(p)) == Reading::Payload(p),
{
    let raw = payload_bytes(p);
    assert(raw.is_prefix_of(raw));
    let q = choose|q: PayloadView| (#[trigger] payload_bytes(q)).is_prefix_of(raw);
    payload_unique(p, q, raw);
}

/// The block of a written file gives back what was compressed.
proof fn lemma_block_reads(compressed: Seq<u8>, raw: Seq<u8>)
    requires
        compresses(compressed, raw),
        raw.len() <= u32::MAX,
    ensures
        lz4_decompressed(compressed) == Ok::<Seq<u8>, Seq<char>>(raw),
{
    assert(u32_at(compressed, 0) == raw.len());
    assert(lengths_fit(compressed));
    assert(block_holds(compressed, raw));
}

/// A written file reads as what its serialized bytes read as.
proof fn lemma_written_reads(file: Seq<u8>, timestamp_ms: u64, raw: Seq<u8>)
    requires
        frames(file, timestamp_ms, raw),
        raw.len() <= u32::MAX,
    ensures
        reading(file) == payload_in(raw),
{
    lemma_header_fields(file, timestamp_ms, raw.len() as int);
    lemma_block_reads(file.skip(HEADER_SIZE as int), raw);
}

/// Reading a written snapshot gives back the payload that was written. The
/// LZ4 block announces its size in 32 bits, hence the bound.
pub proof fn read_gives_back_what_was_written(file: Seq<u8>, p: PayloadView)
    requires
        is_snapshot_file(file, p),
        payload_bytes(p).len() <= u32::MAX,
    ensures
        reading(file) == Reading::Payload(p),
{
    let raw = payload_bytes(p);
    lemma_written_reads(file, p.timestamp_ms, raw);
    lemma_payload_in(p);
}

/// A snapshot of more than 32 bits of bytes does not read back: its header
/// promises more than its block announces, so the reader refuses it.
pub proof fn large_snapshot_does_not_read_back(
    file: Seq<u8>,
    p: PayloadView,
    outcome: Result<SnapshotPayload, QuickResumeError>,
)
    requires
        is_snapshot_file(file, p),
        u32::MAX < payload_bytes(p).len() <= usize::MAX,
        refuses_too_much(outcome, file),
    ensures
        outcome matches Err(QuickResumeError::Other(_)),
{
    let raw_size = payload_bytes(p).len() as int;
    lemma_header_fields(file, p.timestamp_ms, raw_size);
    let compressed = file.skip(HEADER_SIZE as int);
    lemma_u32_at(file, HEADER_SIZE as int);
    lemma_u32_at(compressed, 0);
    assert(compressed.subrange(0, 4) =~= file.subrange(HEADER_SIZE as int, HEADER_SIZE + 4));
}

/// A written snapshot can be given to the reader.
pub proof fn written_snapshot_can_be_read(file: Seq<u8>, p: PayloadView)
    requires
        is_snapshot_file(file, p),
        payload_bytes(p).len() <= u32::MAX,
    ensures
        block_fits(file),
{
}

/// The header of a written snapshot tells the version, the time of the
/// snapshot and the size of the serialized payload.
pub proof fn header_tells_what_was_written(file: Seq<u8>, p: PayloadView)
    requires
        is_snapshot_file(file, p),
        payload_bytes(p).len() <= u64::MAX,
    ensures
        file.take(4) == magic(),
        u32_at(file, 4) == VERSION,
        u64_at(file, 8) == p.timestamp_ms,
        u64_at(file, 16) == payload_bytes(p).len(),
{
    lemma_header_fields(file, p.timestamp_ms, payload_bytes(p).len() as int);
}

/// Two files written of one payload agree: they have the same header, which
/// tells the same size, and they read the same as far as the size announced by
/// the LZ4 block goes. Beyond that, their blocks still hold the same bytes,
/// as long as the decoder can add up the lengths there.
pub proof fn files_of_one_payload_agree(a: Seq<u8>, b: Seq<u8>, p: PayloadView)
    requires
        is_snapshot_file(a, p),
        is_snapshot_file(b, p),
        payload_bytes(p).len() <= u64::MAX,
    ensures
        a.take(HEADER_SIZE as int) == b.take(HEADER_SIZE as int),
        u64_at(a, 16) == u64_at(b, 16),
        payload_bytes(p).len() <= u32::MAX ==> reading(a) == reading(b),
        ({
            let (x, y) = (a.skip(HEADER_SIZE as int), b.skip(HEADER_SIZE as int));
            let size = payload_bytes(p).len();
            lengths_fit_from(x, 4, 0, size) && lengths_fit_from(y, 4, 0, size)
                ==> lz4_block_decompressed(x.skip(4), size) == lz4_block_decompressed(
                y.skip(4),
                size,
            )
        }),
{
    header_tells_what_was_written(a, p);
    header_tells_what_was_written(b, p);
    if payload_bytes(p).len() <= u32::MAX {
        read_gives_back_what_was_written(a, p);
        read_gives_back_what_was_written(b, p);
    }
}

/// The time in the header does not matter to what a file reads as, nor to
/// whether it can be given to the reader.
pub proof fn header_time_does_not_change_the_reading(a: Seq<u8>, b: Seq<u8>)
    requires
        a.len() == b.len(),
        forall|i: int| 0 <= i < a.len() && !(8 <= i < 16) ==> a[i] == b[i],
    ensures
        reading(a) == reading(b),
        block_fits(a) == block_fits(b),
{
    if a.len() >= 4 {
        assert(a.take(4) =~= b.take(4));
    }
    if a.len() >= HEADER_SIZE {
        assert(a.skip(HEADER_SIZE as int) =~= b.skip(HEADER_SIZE as int));
    }
}

} // verus!
