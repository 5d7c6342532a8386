//! What the VirtIO queues look like to a driver, in bytes of guest memory: where requests
//! are offered, how they are described and how they are answered.

#[allow(unused_imports)]
use crate::bytes::{
    law_read_after_write, le_bytes, le_value, lemma_byte_ranges, lemma_le_bytes_len, read_at,
    write_at,
};
#[allow(unused_imports)]
use crate::dram::{
    dram_read16, dram_read32, dram_read64, dram_read8, dram_write16, dram_write32, dram_write8,
};
#[allow(unused_imports)]
use crate::virtio::{
    begin, begin_request, chain_at, end_request, gather, gather_one, header_at, run_used_len,
    scatter, serve, settle, total_len, Begin, BlkRunView, BlkStepView, BlkView, DiskActionView,
    DiskOp, DiskReplyView, Served,
};
#[allow(unused_imports)]
use crate::virtq::{
    descriptor_at, guest_offset, guest_write, law_guest_write, queue_at, used_ring_offset,
    QueueRun, VirtqDesc,
};
use vstd::prelude::*;

verus! {

/// The two bytes from `o` on as a number, the low byte first.
pub open spec fn two(d: Seq<u8>, o: int) -> int {
    d[o] + 256 * d[o + 1]
}

/// The four bytes from `o` on as a number.
pub open spec fn four(d: Seq<u8>, o: int) -> int {
    two(d, o) + 0x1_0000 * two(d, o + 2)
}

/// The eight bytes from `o` on as a number.
pub open spec fn eight(d: Seq<u8>, o: int) -> int {
    four(d, o) + 0x1_0000_0000 * four(d, o + 4)
}

/// Numbers in memory have their low byte first.
#[verifier::rlimit(60)]
pub proof fn law_little_endian(d: Seq<u8>, o: int)
    requires
        0 <= o,
    ensures
        o + 1 <= d.len() ==> read_at(d, o, 1) == d[o],
        o + 2 <= d.len() ==> read_at(d, o, 2) == two(d, o),
        o + 4 <= d.len() ==> read_at(d, o, 4) == four(d, o),
        o + 8 <= d.len() ==> read_at(d, o, 8) == eight(d, o),
{
    reveal_with_fuel(le_value, 9);
    if o + 1 <= d.len() {
        let s = d.subrange(o, o + 1);
        assert(s.drop_first() =~= Seq::<u8>::empty());
    }
    if o + 2 <= d.len() {
        lemma_two(d, o);
    }
    if o + 4 <= d.len() {
        lemma_four(d, o);
    }
    if o + 8 <= d.len() {
        lemma_four(d, o + 4);
        lemma_four(d, o);
        lemma_split(d.subrange(o, o + 8), 4);
        assert(d.subrange(o, o + 8).take(4) =~= d.subrange(o, o + 4));
        assert(d.subrange(o, o + 8).skip(4) =~= d.subrange(o + 4, o + 8));
        lemma_byte_ranges();
    }
}

/// Two bytes.
#[verifier::rlimit(60)]
proof fn lemma_two(d: Seq<u8>, o: int)
    requires
        0 <= o,
        o + 2 <= d.len(),
    ensures
        read_at(d, o, 2) == two(d, o),
{
    reveal_with_fuel(le_value, 3);
    let s = d.subrange(o, o + 2);
    let t = s.drop_first();
    assert(t[0] == d[o + 1]);
    assert(t.drop_first() =~= Seq::<u8>::empty());
}

/// Four bytes.
#[verifier::rlimit(60)]
proof fn lemma_four(d: Seq<u8>, o: int)
    requires
        0 <= o,
        o + 4 <= d.len(),
    ensures
        read_at(d, o, 4) == four(d, o),
{
    lemma_two(d, o);
    lemma_two(d, o + 2);
    lemma_split(d.subrange(o, o + 4), 2);
    assert(d.subrange(o, o + 4).take(2) =~= d.subrange(o, o + 2));
    assert(d.subrange(o, o + 4).skip(2) =~= d.subrange(o + 2, o + 4));
    lemma_byte_ranges();
}

/// The number of a block of bytes, from those of its two parts.
#[verifier::rlimit(60)]
proof fn lemma_split(s: Seq<u8>, n: nat)
    requires
        n <= s.len(),
    ensures
        le_value(s) == le_value(s.take(n as int)) + crate::bytes::byte_range(n) * le_value(
            s.skip(n as int),
        ),
    decreases n,
{
    if n == 0 {
        assert(s.skip(0) =~= s);
        assert(s.take(0) =~= Seq::<u8>::empty());
        let v = le_value(s);
        let r = crate::bytes::byte_range(0);
        assert(r * v == v) by (nonlinear_arith)
            requires
                r == 1,
        ;
    } else {
        let t = s.drop_first();
        let m = (n - 1) as nat;
        lemma_split(t, m);
        assert(s.take(n as int).drop_first() =~= t.take(m as int));
        assert(t.skip(m as int) =~= s.skip(n as int));
        let r = crate::bytes::byte_range(m);
        let v = le_value(s.skip(n as int));
        let p = crate::bytes::byte_range(n);
        assert(p == 256 * r);
        assert(p * v == 256 * (r * v)) by (nonlinear_arith)
            requires
                p == 256 * r,
        ;
        assert(s.take(n as int)[0] == s[0]);
        assert(le_value(s.take(n as int)) == s[0] as nat + 256 * le_value(t.take(m as int)));
        assert(le_value(s) == s[0] as nat + 256 * le_value(t));
    }
}

/// Where a queue's parts stand in a memory that starts at `base`: the descriptors, the
/// available ring behind them, and the used ring.
pub open spec fn table_of(q: QueueRun, base: u64) -> int {
    q.addr - base
}

/// The available ring: flags, index, then the entries of two bytes.
pub open spec fn avail_of(q: QueueRun, base: u64) -> int {
    q.addr - base + 16 * q.num
}

/// The used ring: flags, index, then the entries of eight bytes.
pub open spec fn used_of(q: QueueRun, base: u64) -> int {
    q.addr - base + q.used_offset
}

/// The queue has entries and lies in memory.
pub open spec fn in_memory(q: QueueRun, d: Seq<u8>, base: u64) -> bool {
    &&& q.num > 0
    &&& base <= q.addr
    &&& q.addr + 18 * q.num + 6 <= q.addr + q.used_offset
    &&& used_of(q, base) + 4 + 8 * q.num <= d.len()
    &&& q.addr + q.used_offset + 4 + 8 * q.num <= u64::MAX
}

/// The rings are circular: request number `n` is offered in entry `n mod num` of the
/// available ring and answered in entry `n mod num` of the used ring, so that request
/// number `n + num` has the entries of request number `n`. The entries lie within their
/// rings.
#[verifier::rlimit(60)]
pub proof fn law_rings_are_circular(q: QueueRun, d: Seq<u8>, base: u64, slot: int)
    requires
        in_memory(q, d, base),
        0 <= slot < q.num,
        exists|laps: int| q.used_idx == slot + #[trigger] (laps * q.num),
    ensures
        q.head(d, base) == Ok::<u16, Seq<char>>(two(d, avail_of(q, base) + 4 + 2 * slot) as u16),
        guest_offset(q.avail_entry(), base) == avail_of(q, base) + 4 + 2 * slot,
        guest_offset(q.used_entry(), base) == used_of(q, base) + 4 + 8 * slot,
        avail_of(q, base) + 4 <= guest_offset(q.avail_entry(), base) < avail_of(q, base) + 4 + 2
            * q.num,
        used_of(q, base) + 4 <= guest_offset(q.used_entry(), base) < used_of(q, base) + 4 + 8
            * q.num,
{
    let laps = choose|laps: int| q.used_idx == slot + #[trigger] (laps * q.num);
    vstd::arithmetic::div_mod::lemma_fundamental_div_mod_converse(
        q.used_idx as int,
        q.num as int,
        laps,
        slot,
    );
    law_little_endian(d, avail_of(q, base) + 4 + 2 * slot);
}

/// Two runs that are a whole number of laps apart read and write the same entries.
#[verifier::rlimit(60)]
pub proof fn law_laps_repeat(q: QueueRun, p: QueueRun, d: Seq<u8>, base: u64)
    requires
        in_memory(q, d, base),
        p == (QueueRun { used_idx: p.used_idx, left: p.left, ..q }),
        p.used_idx == q.used_idx + q.num,
    ensures
        p.head(d, base) == q.head(d, base),
        p.used_entry() == q.used_entry(),
{
    vstd::arithmetic::div_mod::lemma_mod_add_multiples_vanish(q.used_idx as int, q.num as int);
}

/// The queue as the device finds it: the used ring is behind the available ring at the
/// next multiple of the alignment, the flags and the index of the available ring and the
/// index of the used ring are read there, and what the driver has offered beyond the used
/// index is left to serve.
#[verifier::rlimit(60)]
pub proof fn law_queue_layout(d: Seq<u8>, base: u64, pfn: u32, num: u32, align: u32)
    requires
        align > 0,
        base <= pfn * 4096,
        pfn * 4096 - base + used_ring_offset(num, align) + 4 <= d.len(),
    ensures
        queue_at(d, base, pfn, num, align) matches Ok(q) && {
            &&& q.addr == pfn * 4096
            &&& q.num == num
            &&& q.used_offset as int % align as int == 0
            &&& 18 * num + 6 <= q.used_offset < 18 * num + 6 + align
            &&& q.flags == two(d, avail_of(q, base))
            &&& q.used_idx == two(d, used_of(q, base) + 2)
            &&& q.left == (two(d, avail_of(q, base) + 2) - two(d, used_of(q, base) + 2)) % 0x1_0000
        },
{
    let x = 18 * num + 6;
    let a = align as int;
    assert(x <= (x + a - 1) / a * a < x + a && (x + a - 1) / a * a % a == 0) by (nonlinear_arith)
        requires
            a > 0,
            x >= 0,
    ;
    let addr = pfn * 4096;
    let off = used_ring_offset(num, align);
    assert(0 <= off < 0x2_0000_0000 * 18);
    law_little_endian(d, addr + 16 * num - base);
    law_little_endian(d, addr + 16 * num + 2 - base);
    law_little_endian(d, addr + off + 2 - base);
}

/// A descriptor: eight bytes of address, four of length, two of flags, two of the number
/// of the next. Descriptor `i` stands at `16 * i` in the table.
#[verifier::rlimit(60)]
pub proof fn law_descriptor_layout(q: QueueRun, d: Seq<u8>, base: u64, i: u16)
    requires
        base <= q.addr,
        q.addr + 16 * i + 16 <= u64::MAX,
        table_of(q, base) + 16 * i + 16 <= d.len(),
    ensures
        ({
            let o = table_of(q, base) + 16 * i;
            descriptor_at(d, q.desc_addr(i), base) == Ok::<VirtqDesc, Seq<char>>(
                VirtqDesc {
                    addr: eight(d, o) as u64,
                    len: four(d, o + 8) as u32,
                    flags: two(d, o + 12) as u16,
                    next: two(d, o + 14) as u16,
                },
            )
        }),
{
    let o = table_of(q, base) + 16 * i;
    law_little_endian(d, o);
    law_little_endian(d, o + 8);
    law_little_endian(d, o + 12);
    law_little_endian(d, o + 14);
}

/// `a` and `b` are memories of one size that differ in the `n` bytes from `o` on at most.
pub open spec fn changed_at(a: Seq<u8>, b: Seq<u8>, o: int, n: int) -> bool {
    a.len() == b.len() && forall|i: int|
        0 <= i < a.len() && !(o <= i < o + n) ==> #[trigger] b[i] == a[i]
}

/// Completing a request writes its head and its length into the used ring, four bytes
/// each, and nothing else. It is then no longer left, and the used index is one further.
#[verifier::rlimit(60)]
pub proof fn law_request_completed(
    q: QueueRun,
    d: Seq<u8>,
    base: u64,
    head: u16,
    len: u32,
    slot: int,
)
    requires
        in_memory(q, d, base),
        q.left > 0,
        0 <= slot < q.num,
        exists|laps: int| q.used_idx == slot + #[trigger] (laps * q.num),
    ensures
        ({
            let (d2, r) = q.complete(d, base, head, len);
            let o = used_of(q, base) + 4 + 8 * slot;
            &&& r matches Ok(q2) && q2 == (QueueRun {
                used_idx: ((q.used_idx + 1) % 0x1_0000) as u16,
                left: (q.left - 1) as u16,
                ..q
            })
            &&& four(d2, o) == head
            &&& four(d2, o + 4) == len
            &&& changed_at(d, d2, o, 8)
        }),
{
    law_rings_are_circular(q, d, base, slot);
    let o = used_of(q, base) + 4 + 8 * slot;
    lemma_byte_ranges();
    law_read_after_write(d, o, 4, head as nat);
    let d1 = write_at(d, o, 4, head as nat);
    law_read_after_write(d1, o + 4, 4, len as nat);
    let d2 = write_at(d1, o + 4, 4, len as nat);
    crate::bytes::law_disjoint_write(d1, o + 4, 4, len as nat, o, 4);
    law_little_endian(d2, o);
    law_little_endian(d2, o + 4);
}

/// Publishing writes the used index, two bytes, and nothing else.
#[verifier::rlimit(60)]
pub proof fn law_used_index_published(q: QueueRun, d: Seq<u8>, base: u64)
    requires
        in_memory(q, d, base),
    ensures
        ({
            let (d2, r) = q.finish(d, base);
            &&& r is Ok
            &&& two(d2, used_of(q, base) + 2) == q.used_idx
            &&& changed_at(d, d2, used_of(q, base) + 2, 2)
        }),
{
    let o = used_of(q, base) + 2;
    lemma_byte_ranges();
    law_read_after_write(d, o, 2, q.used_idx as nat);
    law_little_endian(write_at(d, o, 2, q.used_idx as nat), o);
}

} // verus!
