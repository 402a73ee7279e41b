//! Little-endian integers inside byte strings.
use vstd::prelude::*;

verus! {

/// The 16-bit little-endian integer at index `i`.
pub open spec fn u16_at(s: Seq<u8>, i: int) -> int {
    s[i] + 0x100 * s[i + 1]
}

/// The 32-bit little-endian integer at index `i`.
pub open spec fn u32_at(s: Seq<u8>, i: int) -> int {
    u16_at(s, i) + 0x1_0000 * u16_at(s, i + 2)
}

/// The 64-bit little-endian integer at index `i`.
pub open spec fn u64_at(s: Seq<u8>, i: int) -> int {
    u32_at(s, i) + 0x1_0000_0000 * u32_at(s, i + 4)
}

/// The low byte of `n`, then the next one.
pub open spec fn u16_bytes(n: int) -> Seq<u8> {
    seq![(n % 0x100) as u8, (n / 0x100 % 0x100) as u8]
}

/// The four bytes of a 32-bit integer, least significant first.
pub open spec fn u32_bytes(n: int) -> Seq<u8> {
    seq![
        (n % 0x100) as u8,
        (n / 0x100 % 0x100) as u8,
        (n / 0x1_0000 % 0x100) as u8,
        (n / 0x100_0000 % 0x100) as u8,
    ]
}

/// The eight bytes of a 64-bit integer, least significant first.
pub open spec fn u64_bytes(n: int) -> Seq<u8> {
    seq![
        (n % 0x100) as u8,
        (n / 0x100 % 0x100) as u8,
        (n / 0x1_0000 % 0x100) as u8,
        (n / 0x100_0000 % 0x100) as u8,
        (n / 0x1_0000_0000 % 0x100) as u8,
        (n / 0x100_0000_0000 % 0x100) as u8,
        (n / 0x1_0000_0000_0000 % 0x100) as u8,
        (n / 0x100_0000_0000_0000 % 0x100) as u8,
    ]
}

/// The bytes of a 32-bit integer read back as that integer.
pub proof fn lemma_u32_bytes(n: int)
    requires
        0 <= n < 0x1_0000_0000,
    ensures
        u32_bytes(n).len() == 4,
        u32_at(u32_bytes(n), 0) == n,
{
}

/// The bytes of a 64-bit integer read back as that integer.
pub proof fn lemma_u64_bytes(n: int)
    requires
        0 <= n < 0x1_0000_0000_0000_0000,
    ensures
        u64_bytes(n).len() == 8,
        u64_at(u64_bytes(n), 0) == n,
{
    lemma_low_half(n);
    lemma_high_half(n);
    let (low, high) = (n % 0x1_0000_0000, n / 0x1_0000_0000);
    lemma_u32_bytes(low);
    lemma_u32_bytes(high);
    let s = u64_bytes(n);
    assert(u32_bytes(low) =~= seq![s[0], s[1], s[2], s[3]]);
    assert(u32_bytes(high) =~= seq![s[4], s[5], s[6], s[7]]);
}

proof fn lemma_low_half(n: int)
    requires
        0 <= n,
    ensures
        n % 0x100 == n % 0x1_0000_0000 % 0x100,
        n / 0x100 % 0x100 == n % 0x1_0000_0000 / 0x100 % 0x100,
        n / 0x1_0000 % 0x100 == n % 0x1_0000_0000 / 0x1_0000 % 0x100,
        n / 0x100_0000 % 0x100 == n % 0x1_0000_0000 / 0x100_0000 % 0x100,
{
    let (q, r) = (n / 0x1_0000_0000, n % 0x1_0000_0000);
    assert(n / 0x100 == 0x100_0000 * q + r / 0x100);
    assert(n / 0x1_0000 == 0x1_0000 * q + r / 0x1_0000);
    assert(n / 0x100_0000 == 0x100 * q + r / 0x100_0000);
}

proof fn lemma_high_half(n: int)
    requires
        0 <= n,
    ensures
        n / 0x100_0000_0000 == n / 0x1_0000_0000 / 0x100,
        n / 0x1_0000_0000_0000 == n / 0x1_0000_0000 / 0x1_0000,
        n / 0x100_0000_0000_0000 == n / 0x1_0000_0000 / 0x100_0000,
{
}

/// An integer depends on its own four bytes only.
pub proof fn lemma_u32_at(s: Seq<u8>, i: int)
    requires
        0 <= i,
        i + 4 <= s.len(),
    ensures
        u32_at(s, i) == u32_at(s.subrange(i, i + 4), 0),
{
}

/// An integer depends on its own eight bytes only.
pub proof fn lemma_u64_at(s: Seq<u8>, i: int)
    requires
        0 <= i,
        i + 8 <= s.len(),
    ensures
        u64_at(s, i) == u64_at(s.subrange(i, i + 8), 0),
{
}

/// Reads the 16-bit little-endian integer at `i`.
pub fn read_u16(data: &[u8], i: usize) -> (n: u16)
    requires
        i + 2 <= data.len(),
    ensures
        n == u16_at(data@, i as int),
{
    data[i] as u16 + 0x100 * (data[i + 1] as u16)
}

/// Reads the 32-bit little-endian integer at `i`.
pub fn read_u32(data: &[u8], i: usize) -> (n: u32)
    requires
        i + 4 <= data.len(),
    ensures
        n == u32_at(data@, i as int),
{
    read_u16(data, i) as u32 + 0x1_0000 * (read_u16(data, i + 2) as u32)
}

/// Reads the 64-bit little-endian integer at `i`.
pub fn read_u64(data: &[u8], i: usize) -> (n: u64)
    requires
        i + 8 <= data.len(),
    ensures
        n == u64_at(data@, i as int),
{
    read_u32(data, i) as u64 + 0x1_0000_0000 * (read_u32(data, i + 4) as u64)
}

/// Appends the four bytes of `n`, least significant first.
pub fn push_u32(out: &mut Vec<u8>, n: u32)
    ensures
        final(out)@ == old(out)@ + u32_bytes(n as int),
{
    out.push((n % 0x100) as u8);
    out.push((n / 0x100 % 0x100) as u8);
    out.push((n / 0x1_0000 % 0x100) as u8);
    out.push((n / 0x100_0000 % 0x100) as u8);
    assert(out@ =~= old(out)@ + u32_bytes(n as int));
}

/// Appends the eight bytes of `n`, least significant first.
pub fn push_u64(out: &mut Vec<u8>, n: u64)
    ensures
        final(out)@ == old(out)@ + u64_bytes(n as int),
{
    out.push((n % 0x100) as u8);
    out.push((n / 0x100 % 0x100) as u8);
    out.push((n / 0x1_0000 % 0x100) as u8);
    out.push((n / 0x100_0000 % 0x100) as u8);
    out.push((n / 0x1_0000_0000 % 0x100) as u8);
    out.push((n / 0x100_0000_0000 % 0x100) as u8);
    out.push((n / 0x1_0000_0000_0000 % 0x100) as u8);
    out.push((n / 0x100_0000_0000_0000 % 0x100) as u8);
    assert(out@ =~= old(out)@ + u64_bytes(n as int));
}

} // verus!
