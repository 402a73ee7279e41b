//! The bytes of a snapshot payload, and why they can be read in one way only.
//!
//! Fields stand one behind the other in declaration order. Integers are
//! little-endian and of fixed width, a flag is one byte, and a string or a
//! list is preceded by its length in eight bytes.
use crate::snapshot::memory::RegionView;
use crate::snapshot::threads::ThreadView;
use crate::util::bytes::{lemma_u32_bytes, lemma_u64_bytes, u32_bytes, u64_bytes};
use vstd::prelude::*;
use vstd::utf8::{encode_utf8, encode_utf8_decode_utf8};

verus! {

/// Everything a snapshot says of a process.
#[verifier::ext_equal]
pub struct PayloadView {
    pub process_name: Seq<char>,
    pub pid: u32,
    pub is_wow64: bool,
    pub timestamp_ms: u64,
    pub memory_regions: Seq<RegionView>,
    pub thread_snapshots: Seq<ThreadView>,
}

/// A byte string behind its length.
pub open spec fn blob_bytes(data: Seq<u8>) -> Seq<u8> {
    u64_bytes(data.len() as int) + data
}

/// One flag.
pub open spec fn flag_bytes(b: bool) -> Seq<u8> {
    seq![if b { 1u8 } else { 0u8 }]
}

pub open spec fn region_bytes(r: RegionView) -> Seq<u8> {
    u64_bytes(r.base_address as int) + u64_bytes(r.size as int) + u32_bytes(r.protect as int)
        + u32_bytes(r.region_type as int) + blob_bytes(r.data)
}

pub open spec fn thread_bytes(t: ThreadView) -> Seq<u8> {
    u32_bytes(t.tid as int) + blob_bytes(t.context_bytes)
}

/// Regions one behind the other.
pub open spec fn regions_bytes(s: Seq<RegionView>) -> Seq<u8>
    decreases s.len(),
{
    if s.len() == 0 {
        Seq::empty()
    } else {
        region_bytes(s[0]) + regions_bytes(s.drop_first())
    }
}

/// Threads one behind the other.
pub open spec fn threads_bytes(s: Seq<ThreadView>) -> Seq<u8>
    decreases s.len(),
{
    if s.len() == 0 {
        Seq::empty()
    } else {
        thread_bytes(s[0]) + threads_bytes(s.drop_first())
    }
}

/// The serialized form of a payload.
pub open spec fn payload_bytes(p: PayloadView) -> Seq<u8> {
    blob_bytes(encode_utf8(p.process_name)) + u32_bytes(p.pid as int) + flag_bytes(p.is_wow64)
        + u64_bytes(p.timestamp_ms as int) + u64_bytes(p.memory_regions.len() as int)
        + regions_bytes(p.memory_regions) + u64_bytes(p.thread_snapshots.len() as int)
        + threads_bytes(p.thread_snapshots)
}

/// Appending can be grouped either way.
proof fn lemma_assoc(a: Seq<u8>, b: Seq<u8>, c: Seq<u8>)
    ensures
        (a + b) + c == a + (b + c),
{
    assert((a + b) + c =~= a + (b + c));
}

/// A prefix and what is behind it make up the whole.
proof fn lemma_prefix_and_rest(a: Seq<u8>, all: Seq<u8>)
    requires
        a.is_prefix_of(all),
    ensures
        a + all.skip(a.len() as int) == all,
{
    assert(a + all.skip(a.len() as int) =~= all);
}

/// Equal texts whose heads are equally long have equal heads and tails.
proof fn lemma_split(a: Seq<u8>, x: Seq<u8>, b: Seq<u8>, y: Seq<u8>)
    requires
        a.len() == b.len(),
        a + x == b + y,
    ensures
        a == b,
        x == y,
{
    assert(a =~= (a + x).take(a.len() as int));
    assert(b =~= (b + y).take(a.len() as int));
    assert(x =~= (a + x).skip(a.len() as int));
    assert(y =~= (b + y).skip(a.len() as int));
}

proof fn lemma_u32_unique(m: u32, x: Seq<u8>, n: u32, y: Seq<u8>)
    requires
        u32_bytes(m as int) + x == u32_bytes(n as int) + y,
    ensures
        m == n,
        x == y,
{
    lemma_u32_bytes(m as int);
    lemma_u32_bytes(n as int);
    lemma_split(u32_bytes(m as int), x, u32_bytes(n as int), y);
}

proof fn lemma_u64_unique(m: int, x: Seq<u8>, n: int, y: Seq<u8>)
    requires
        0 <= m <= u64::MAX,
        0 <= n <= u64::MAX,
        u64_bytes(m) + x == u64_bytes(n) + y,
    ensures
        m == n,
        x == y,
{
    lemma_u64_bytes(m);
    lemma_u64_bytes(n);
    lemma_split(u64_bytes(m), x, u64_bytes(n), y);
}

proof fn lemma_blob_unique(a: Seq<u8>, x: Seq<u8>, b: Seq<u8>, y: Seq<u8>)
    requires
        a.len() <= u64::MAX,
        b.len() <= u64::MAX,
        blob_bytes(a) + x == blob_bytes(b) + y,
    ensures
        a == b,
        x == y,
{
    lemma_assoc(u64_bytes(a.len() as int), a, x);
    lemma_assoc(u64_bytes(b.len() as int), b, y);
    lemma_u64_unique(a.len() as int, a + x, b.len() as int, b + y);
    lemma_split(a, x, b, y);
}

/// The fields of a region and what follows, one behind the other.
proof fn lemma_region_fields(r: RegionView, x: Seq<u8>)
    ensures
        region_bytes(r) + x == u64_bytes(r.base_address as int) + (u64_bytes(r.size as int) + (
        u32_bytes(r.protect as int) + (u32_bytes(r.region_type as int) + (blob_bytes(r.data)
            + x)))),
{
    let a = u64_bytes(r.base_address as int);
    let b = u64_bytes(r.size as int);
    let c = u32_bytes(r.protect as int);
    let d = u32_bytes(r.region_type as int);
    let e = blob_bytes(r.data);
    lemma_assoc(a + b + c + d, e, x);
    lemma_assoc(a + b + c, d, e + x);
    lemma_assoc(a + b, c, d + (e + x));
    lemma_assoc(a, b, c + (d + (e + x)));
}

proof fn lemma_region_unique(r: RegionView, x: Seq<u8>, s: RegionView, y: Seq<u8>)
    requires
        r.data.len() <= u64::MAX,
        s.data.len() <= u64::MAX,
        region_bytes(r) + x == region_bytes(s) + y,
    ensures
        r == s,
        x == y,
{
    let r4 = blob_bytes(r.data) + x;
    let s4 = blob_bytes(s.data) + y;
    let r3 = u32_bytes(r.region_type as int) + r4;
    let s3 = u32_bytes(s.region_type as int) + s4;
    let r2 = u32_bytes(r.protect as int) + r3;
    let s2 = u32_bytes(s.protect as int) + s3;
    let r1 = u64_bytes(r.size as int) + r2;
    let s1 = u64_bytes(s.size as int) + s2;
    lemma_region_fields(r, x);
    lemma_region_fields(s, y);
    lemma_u64_unique(r.base_address as int, r1, s.base_address as int, s1);
    lemma_u64_unique(r.size as int, r2, s.size as int, s2);
    lemma_u32_unique(r.protect, r3, s.protect, s3);
    lemma_u32_unique(r.region_type, r4, s.region_type, s4);
    lemma_blob_unique(r.data, x, s.data, y);
}

proof fn lemma_thread_unique(t: ThreadView, x: Seq<u8>, u: ThreadView, y: Seq<u8>)
    requires
        t.context_bytes.len() <= u64::MAX,
        u.context_bytes.len() <= u64::MAX,
        thread_bytes(t) + x == thread_bytes(u) + y,
    ensures
        t == u,
        x == y,
{
    let t1 = blob_bytes(t.context_bytes) + x;
    let u1 = blob_bytes(u.context_bytes) + y;
    lemma_assoc(u32_bytes(t.tid as int), blob_bytes(t.context_bytes), x);
    lemma_assoc(u32_bytes(u.tid as int), blob_bytes(u.context_bytes), y);
    lemma_u32_unique(t.tid, t1, u.tid, u1);
    lemma_blob_unique(t.context_bytes, x, u.context_bytes, y);
}

/// Every region takes at least a byte.
proof fn lemma_regions_len(s: Seq<RegionView>)
    ensures
        s.len() <= regions_bytes(s).len(),
    decreases s.len(),
{
    if s.len() > 0 {
        lemma_regions_len(s.drop_first());
    }
}

/// Every thread takes at least a byte.
proof fn lemma_threads_len(s: Seq<ThreadView>)
    ensures
        s.len() <= threads_bytes(s).len(),
    decreases s.len(),
{
    if s.len() > 0 {
        lemma_threads_len(s.drop_first());
    }
}

proof fn lemma_regions_unique(r: Seq<RegionView>, x: Seq<u8>, s: Seq<RegionView>, y: Seq<u8>)
    requires
        r.len() == s.len(),
        (regions_bytes(r) + x).len() <= u64::MAX,
        regions_bytes(r) + x == regions_bytes(s) + y,
    ensures
        r == s,
        x == y,
    decreases r.len(),
{
    if r.len() > 0 {
        let rest_r = regions_bytes(r.drop_first()) + x;
        let rest_s = regions_bytes(s.drop_first()) + y;
        lemma_assoc(region_bytes(r[0]), regions_bytes(r.drop_first()), x);
        lemma_assoc(region_bytes(s[0]), regions_bytes(s.drop_first()), y);
        assert(r[0].data.len() <= region_bytes(r[0]).len());
        assert(s[0].data.len() <= region_bytes(s[0]).len());
        lemma_region_unique(r[0], rest_r, s[0], rest_s);
        lemma_regions_unique(r.drop_first(), x, s.drop_first(), y);
        assert(r =~= seq![r[0]] + r.drop_first());
        assert(s =~= seq![s[0]] + s.drop_first());
    } else {
        assert(regions_bytes(r) + x =~= x);
        assert(regions_bytes(s) + y =~= y);
    }
}

proof fn lemma_threads_unique(t: Seq<ThreadView>, x: Seq<u8>, u: Seq<ThreadView>, y: Seq<u8>)
    requires
        t.len() == u.len(),
        (threads_bytes(t) + x).len() <= u64::MAX,
        threads_bytes(t) + x == threads_bytes(u) + y,
    ensures
        t == u,
        x == y,
    decreases t.len(),
{
    if t.len() > 0 {
        let rest_t = threads_bytes(t.drop_first()) + x;
        let rest_u = threads_bytes(u.drop_first()) + y;
        lemma_assoc(thread_bytes(t[0]), threads_bytes(t.drop_first()), x);
        lemma_assoc(thread_bytes(u[0]), threads_bytes(u.drop_first()), y);
        assert(t[0].context_bytes.len() <= thread_bytes(t[0]).len());
        assert(u[0].context_bytes.len() <= thread_bytes(u[0]).len());
        lemma_thread_unique(t[0], rest_t, u[0], rest_u);
        lemma_threads_unique(t.drop_first(), x, u.drop_first(), y);
        assert(t =~= seq![t[0]] + t.drop_first());
        assert(u =~= seq![u[0]] + u.drop_first());
    } else {
        assert(threads_bytes(t) + x =~= x);
        assert(threads_bytes(u) + y =~= y);
    }
}

/// The fields of a payload and what follows, one behind the other.
proof fn lemma_payload_fields(p: PayloadView, x: Seq<u8>)
    ensures
        payload_bytes(p) + x == blob_bytes(encode_utf8(p.process_name)) + (u32_bytes(p.pid as int)
            + (flag_bytes(p.is_wow64) + (u64_bytes(p.timestamp_ms as int) + (u64_bytes(
            p.memory_regions.len() as int,
        ) + (regions_bytes(p.memory_regions) + (u64_bytes(p.thread_snapshots.len() as int) + (
        threads_bytes(p.thread_snapshots) + x))))))),
{
    let a = blob_bytes(encode_utf8(p.process_name));
    let b = u32_bytes(p.pid as int);
    let c = flag_bytes(p.is_wow64);
    let d = u64_bytes(p.timestamp_ms as int);
    let e = u64_bytes(p.memory_regions.len() as int);
    let f = regions_bytes(p.memory_regions);
    let g = u64_bytes(p.thread_snapshots.len() as int);
    let h = threads_bytes(p.thread_snapshots);
    lemma_assoc(a + b + c + d + e + f + g, h, x);
    lemma_assoc(a + b + c + d + e + f, g, h + x);
    lemma_assoc(a + b + c + d + e, f, g + (h + x));
    lemma_assoc(a + b + c + d, e, f + (g + (h + x)));
    lemma_assoc(a + b + c, d, e + (f + (g + (h + x))));
    lemma_assoc(a + b, c, d + (e + (f + (g + (h + x)))));
    lemma_assoc(a, b, c + (d + (e + (f + (g + (h + x))))));
}

/// A payload's fixed fields, then its tail.
proof fn lemma_head_unique(p: PayloadView, x: Seq<u8>, q: PayloadView, y: Seq<u8>)
    requires
        encode_utf8(p.process_name).len() <= u64::MAX,
        encode_utf8(q.process_name).len() <= u64::MAX,
        blob_bytes(encode_utf8(p.process_name)) + (u32_bytes(p.pid as int) + (flag_bytes(p.is_wow64)
            + (u64_bytes(p.timestamp_ms as int) + x))) == blob_bytes(encode_utf8(q.process_name))
            + (u32_bytes(q.pid as int) + (flag_bytes(q.is_wow64) + (u64_bytes(q.timestamp_ms as int)
            + y))),
    ensures
        p.process_name == q.process_name,
        p.pid == q.pid,
        p.is_wow64 == q.is_wow64,
        p.timestamp_ms == q.timestamp_ms,
        x == y,
{
    let p3 = u64_bytes(p.timestamp_ms as int) + x;
    let q3 = u64_bytes(q.timestamp_ms as int) + y;
    let p2 = flag_bytes(p.is_wow64) + p3;
    let q2 = flag_bytes(q.is_wow64) + q3;
    let p1 = u32_bytes(p.pid as int) + p2;
    let q1 = u32_bytes(q.pid as int) + q2;
    lemma_blob_unique(encode_utf8(p.process_name), p1, encode_utf8(q.process_name), q1);
    encode_utf8_decode_utf8(p.process_name);
    encode_utf8_decode_utf8(q.process_name);
    lemma_u32_unique(p.pid, p2, q.pid, q2);
    lemma_split(flag_bytes(p.is_wow64), p3, flag_bytes(q.is_wow64), q3);
    assert(flag_bytes(p.is_wow64)[0] == flag_bytes(q.is_wow64)[0]);
    lemma_u64_unique(p.timestamp_ms as int, x, q.timestamp_ms as int, y);
}

/// A payload's two lists, then what follows.
proof fn lemma_lists_unique(p: PayloadView, x: Seq<u8>, q: PayloadView, y: Seq<u8>)
    requires
        regions_bytes(p.memory_regions).len() + threads_bytes(p.thread_snapshots).len() + x.len()
            + 8 <= u64::MAX,
        regions_bytes(q.memory_regions).len() + threads_bytes(q.thread_snapshots).len() + y.len()
            + 8 <= u64::MAX,
        u64_bytes(p.memory_regions.len() as int) + (regions_bytes(p.memory_regions) + (u64_bytes(
            p.thread_snapshots.len() as int,
        ) + (threads_bytes(p.thread_snapshots) + x))) == u64_bytes(q.memory_regions.len() as int)
            + (regions_bytes(q.memory_regions) + (u64_bytes(q.thread_snapshots.len() as int) + (
        threads_bytes(q.thread_snapshots) + y))),
    ensures
        p.memory_regions == q.memory_regions,
        p.thread_snapshots == q.thread_snapshots,
        x == y,
{
    let p3 = threads_bytes(p.thread_snapshots) + x;
    let q3 = threads_bytes(q.thread_snapshots) + y;
    let p2 = u64_bytes(p.thread_snapshots.len() as int) + p3;
    let q2 = u64_bytes(q.thread_snapshots.len() as int) + q3;
    let p1 = regions_bytes(p.memory_regions) + p2;
    let q1 = regions_bytes(q.memory_regions) + q2;
    lemma_regions_len(p.memory_regions);
    lemma_regions_len(q.memory_regions);
    lemma_u64_unique(p.memory_regions.len() as int, p1, q.memory_regions.len() as int, q1);
    lemma_regions_unique(p.memory_regions, p2, q.memory_regions, q2);
    lemma_threads_len(p.thread_snapshots);
    lemma_threads_len(q.thread_snapshots);
    lemma_u64_unique(p.thread_snapshots.len() as int, p3, q.thread_snapshots.len() as int, q3);
    lemma_threads_unique(p.thread_snapshots, x, q.thread_snapshots, y);
}

/// A payload's length is that of its parts.
pub proof fn lemma_payload_len(p: PayloadView)
    ensures
        payload_bytes(p).len() == encode_utf8(p.process_name).len() + regions_bytes(
            p.memory_regions,
        ).len() + threads_bytes(p.thread_snapshots).len() + 37,
{
}

/// The serialized form can be read in one way only: no two payloads begin
/// the same bytes.
pub proof fn payload_unique(p: PayloadView, q: PayloadView, bytes: Seq<u8>)
    requires
        bytes.len() <= u64::MAX,
        payload_bytes(p).is_prefix_of(bytes),
        payload_bytes(q).is_prefix_of(bytes),
    ensures
        p == q,
{
    let x = bytes.skip(payload_bytes(p).len() as int);
    let y = bytes.skip(payload_bytes(q).len() as int);
    lemma_prefix_and_rest(payload_bytes(p), bytes);
    lemma_prefix_and_rest(payload_bytes(q), bytes);
    lemma_payload_len(p);
    lemma_payload_len(q);
    lemma_payload_fields(p, x);
    lemma_payload_fields(q, y);
    let p4 = u64_bytes(p.memory_regions.len() as int) + (regions_bytes(p.memory_regions) + (
    u64_bytes(p.thread_snapshots.len() as int) + (threads_bytes(p.thread_snapshots) + x)));
    let q4 = u64_bytes(q.memory_regions.len() as int) + (regions_bytes(q.memory_regions) + (
    u64_bytes(q.thread_snapshots.len() as int) + (threads_bytes(q.thread_snapshots) + y)));
    lemma_head_unique(p, p4, q, q4);
    lemma_lists_unique(p, x, q, y);
}

} // verus!
