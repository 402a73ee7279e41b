//! The outside codecs of the snapshot payload: bincode and LZ4.
//!
//! A payload passes through bincode as a tuple of plain values. bincode writes
//! a tuple and a struct with the same fields in the same way.
use crate::snapshot::encoding::{payload_bytes, PayloadView};
use crate::snapshot::memory::RegionView;
use crate::snapshot::threads::ThreadView;
use crate::util::bytes::{u16_at, u32_at};
use vstd::prelude::*;

verus! {

/// A region about to be serialized: base address, size, protection, type, bytes.
pub type RegionRow<'a> = (u64, usize, u32, u32, &'a [u8]);

/// A thread about to be serialized: thread id, context.
pub type ThreadRow<'a> = (u32, &'a [u8]);

/// A region just read, in the same order.
pub type OwnedRegionRow = (u64, usize, u32, u32, Vec<u8>);

/// A thread just read, in the same order.
pub type OwnedThreadRow = (u32, Vec<u8>);

/// A payload just read: process name, process id, 32-bit flag, time, regions, threads.
pub type PayloadRow = (String, u32, bool, u64, Vec<OwnedRegionRow>, Vec<OwnedThreadRow>);

pub open spec fn region_row(row: RegionRow) -> RegionView {
    RegionView {
        base_address: row.0,
        size: row.1,
        protect: row.2,
        region_type: row.3,
        data: row.4@,
    }
}

pub open spec fn thread_row(row: ThreadRow) -> ThreadView {
    ThreadView { tid: row.0, context_bytes: row.1@ }
}

pub open spec fn owned_region_row(row: OwnedRegionRow) -> RegionView {
    RegionView {
        base_address: row.0,
        size: row.1,
        protect: row.2,
        region_type: row.3,
        data: row.4@,
    }
}

pub open spec fn owned_thread_row(row: OwnedThreadRow) -> ThreadView {
    ThreadView { tid: row.0, context_bytes: row.1@ }
}

pub open spec fn payload_row(row: PayloadRow) -> PayloadView {
    PayloadView {
        process_name: row.0@,
        pid: row.1,
        is_wow64: row.2,
        timestamp_ms: row.3,
        memory_regions: row.4@.map_values(|r: OwnedRegionRow| owned_region_row(r)),
        thread_snapshots: row.5@.map_values(|t: OwnedThreadRow| owned_thread_row(t)),
    }
}

/// The payload with these parts.
pub open spec fn borrowed_payload(
    process_name: Seq<char>,
    pid: u32,
    is_wow64: bool,
    timestamp_ms: u64,
    regions: Seq<RegionRow>,
    threads: Seq<ThreadRow>,
) -> PayloadView {
    PayloadView {
        process_name,
        pid,
        is_wow64,
        timestamp_ms,
        memory_regions: regions.map_values(|r: RegionRow| region_row(r)),
        thread_snapshots: threads.map_values(|t: ThreadRow| thread_row(t)),
    }
}

/// Calls `bincode::serialize`, whose default configuration writes fixed-width
/// little-endian integers, one byte for a flag, and a 64-bit length before a
/// string or a sequence. With no size limit and with lengths known in advance
/// it has nothing to fail on. It allocates the whole output at once, which must
/// not be larger than an allocation can be.
#[verifier::external_body]
pub(crate) fn bincode_serialize(
    process_name: &str,
    pid: u32,
    is_wow64: bool,
    timestamp_ms: u64,
    regions: &Vec<RegionRow>,
    threads: &Vec<ThreadRow>,
) -> (res: Result<Vec<u8>, bincode::Error>)
    requires
        payload_bytes(
            borrowed_payload(process_name@, pid, is_wow64, timestamp_ms, regions@, threads@),
        ).len() <= isize::MAX,
    ensures
        match res {
            Ok(bytes) => bytes@ == payload_bytes(
                borrowed_payload(process_name@, pid, is_wow64, timestamp_ms, regions@, threads@),
            ),
            Err(_) => false,
        },
{
    bincode::serialize(&(process_name, pid, is_wow64, timestamp_ms, regions, threads))
}

/// Calls `bincode::deserialize`, which reads the fields in order from the
/// front, allows bytes behind them, and fails exactly where no payload stands
/// at the front: a field is cut off, the flag byte is neither 0 nor 1, or the
/// name is not UTF-8.
#[verifier::external_body]
pub(crate) fn bincode_deserialize(bytes: &[u8]) -> (res: Result<PayloadRow, bincode::Error>)
    ensures
        match res {
            Ok(row) => payload_bytes(payload_row(row)).is_prefix_of(bytes@),
            Err(_) => forall|p: PayloadView| !(#[trigger] payload_bytes(p)).is_prefix_of(bytes@),
        },
{
    bincode::deserialize(bytes)
}

/// The number of bytes 255 that stand one behind the other from `i` on.
pub open spec fn full_bytes(input: Seq<u8>, i: nat) -> nat
    decreases input.len() - i,
{
    if i < input.len() && input[i as int] == 255 {
        1 + full_bytes(input, i + 1)
    } else {
        0
    }
}

/// A length whose additional bytes are at `i`. Lengths below 15 stand in four
/// bits of a token. Else these bits are 15, and the bytes at `i` are added: all
/// bytes 255 there and the one behind them.
pub open spec fn field_value(input: Seq<u8>, i: nat, bits: u8) -> nat {
    if bits == 15 {
        let k = full_bytes(input, i);
        if i + k < input.len() {
            15 + 255 * k + input[(i + k) as int] as nat
        } else {
            15 + 255 * k
        }
    } else {
        bits as nat
    }
}

/// Where a length whose additional bytes are at `i` ends.
pub open spec fn field_end(input: Seq<u8>, i: nat, bits: u8) -> nat {
    if bits == 15 {
        i + full_bytes(input, i) + 1
    } else {
        i
    }
}

/// A length whose additional bytes are at `i` can be added up: the bytes in 32
/// bits and, if they do not run out, the length and `base` in a `usize`.
pub open spec fn field_fits(input: Seq<u8>, i: nat, bits: u8, base: nat) -> bool {
    bits == 15 ==> {
        &&& field_value(input, i, bits) - 15 <= u32::MAX
        &&& field_end(input, i, bits) <= input.len() ==> base + field_value(input, i, bits)
            <= usize::MAX
    }
}

/// From `i` on, every length of an LZ4 block that the decoder comes to can be
/// added up. `out` bytes of output have been written, of at most `size`.
///
/// The block is a row of sequences: a token, the length of the literals, the
/// literals, two bytes of offset and the length of the match less 4. It ends
/// with literals. The decoder stops where the block ends, where the output is
/// full, and where the offset is 0 or points before the output.
#[verifier::opaque]
pub open spec fn lengths_fit_from(input: Seq<u8>, i: nat, out: nat, size: nat) -> bool
    decreases input.len() - i,
{
    i < input.len() ==> {
        let literal_bits = input[i as int] / 16;
        let match_bits = input[i as int] % 16;
        let literals = field_value(input, i + 1, literal_bits);
        let offset_at = field_end(input, i + 1, literal_bits) + literals;
        let offset = u16_at(input, offset_at as int);
        let copied = out + literals;
        let matched = 4 + field_value(input, offset_at + 2, match_bits);
        let next = field_end(input, offset_at + 2, match_bits);
        &&& field_fits(input, i + 1, literal_bits, 0)
        &&& offset_at + 2 <= input.len() && copied <= size && offset != 0 ==> {
            &&& field_fits(input, offset_at + 2, match_bits, copied + 4)
            &&& next < input.len() && copied + matched <= size && offset <= copied
                ==> lengths_fit_from(input, next, copied + matched, size)
        }
    }
}

/// The output that an LZ4 block announces can be allocated, and every length
/// in the block behind it that the decoder comes to can be added up.
pub open spec fn lengths_fit(input: Seq<u8>) -> bool {
    &&& input.len() >= 4 ==> u32_at(input, 0) <= isize::MAX
    &&& lengths_fit_from(input, 4, 0, u32_at(input, 0) as nat)
}

/// What `lz4_flex::block::decompress` makes of an LZ4 block and an output of
/// `size` bytes: the bytes, or the text of its error.
pub uninterp spec fn lz4_block_decompressed(block: Seq<u8>, size: nat) -> Result<
    Seq<u8>,
    Seq<char>,
>;

/// What becomes of an LZ4 block behind the size of its output.
pub open spec fn lz4_decompressed(input: Seq<u8>) -> Result<Seq<u8>, Seq<char>> {
    if input.len() < 4 {
        Err("expected another byte, found none"@)
    } else {
        lz4_block_decompressed(input.skip(4), u32_at(input, 0) as nat)
    }
}

/// Calls `lz4_flex::block::compress_prepend_size`, which puts the low 32 bits
/// of the length before one LZ4 block. Given an output of the full length, the
/// decoder gets the whole input back from the block, as long as it can add up
/// the lengths there. Up to 32 bits it can, because a length in the block counts
/// at most the bytes of the input. Which matches the compressor finds depends on
/// the machine's word size, so nothing is said of the bytes of the block itself.
/// The bound on the length keeps the computed size of the output buffer from
/// overflowing.
#[verifier::external_body]
pub(crate) fn lz4_compress(raw: &[u8]) -> (compressed: Vec<u8>)
    requires
        raw@.len() * 110 <= usize::MAX,
    ensures
        compressed@.len() >= 4,
        u32_at(compressed@, 0) == raw@.len() % 0x1_0000_0000,
        raw@.len() <= u32::MAX ==> lengths_fit(compressed@),
        lengths_fit_from(compressed@, 4, 0, raw@.len()) ==> match lz4_block_decompressed(
            compressed@.skip(4),
            raw@.len(),
        ) {
            Ok(bytes) => bytes == raw@,
            Err(_) => false,
        },
{
    lz4_flex::block::compress_prepend_size(raw)
}

/// Calls `lz4_flex::block::decompress_size_prepended` and turns its error into
/// the error's text. It reads the size of the output from the first four bytes,
/// allocates it and decompresses the rest as `lz4_flex::block::decompress` does.
/// It gives back no more bytes than that. The decoder adds up the bytes of a
/// length in 32 bits, hence the condition.
#[verifier::external_body]
pub(crate) fn lz4_decompress(input: &[u8]) -> (res: Result<Vec<u8>, String>)
    requires
        lengths_fit(input@),
    ensures
        match res {
            Ok(raw) => lz4_decompressed(input@) matches Ok(d) && d == raw@,
            Err(text) => lz4_decompressed(input@) matches Err(t) && t == text@,
        },
        res matches Ok(raw) ==> raw@.len() <= u32_at(input@, 0),
{
    lz4_flex::block::decompress_size_prepended(input).map_err(|e| e.to_string())
}

} // verus!
