//! What a block request comes to, from the driver's bytes in guest memory to the disk and
//! back.

#[allow(unused_imports)]
use crate::bytes::lemma_byte_ranges;
#[allow(unused_imports)]
use crate::dram::{dram_read32, dram_read64, dram_read8, dram_write8};
#[allow(unused_imports)]
use crate::queue_laws::{
    avail_of, changed_at, eight, four, in_memory, law_descriptor_layout, law_little_endian,
    law_request_completed, law_rings_are_circular, law_used_index_published, table_of, two, used_of,
};
#[allow(unused_imports)]
use crate::text::ascii;
#[allow(unused_imports)]
use crate::virtio::{
    begin, begin_request, chain_at, end_request, fits, gather, gather_one, header_at, run_used_len,
    scatter, sectors_needed, serial_in, serve, settle, total_len, used_len, Begin, BlkHeader, BlkRunView,
    BlkStepView, BlkView, DiskActionView, DiskOp, DiskReplyView, Served,
};
#[allow(unused_imports)]
use crate::virtq::{
    descriptor_at, guest_offset, guest_write, law_guest_write, queue_at, QueueRun, VirtqDesc,
};
use vstd::prelude::*;

verus! {

/// Descriptor `i` of the table as its sixteen bytes spell it.
pub open spec fn desc_bytes(q: QueueRun, d: Seq<u8>, base: u64, i: u16) -> VirtqDesc {
    let o = table_of(q, base) + 16 * i;
    VirtqDesc {
        addr: eight(d, o) as u64,
        len: four(d, o + 8) as u32,
        flags: two(d, o + 12) as u16,
        next: two(d, o + 14) as u16,
    }
}

/// Descriptor `i` lies in memory.
pub open spec fn desc_in_memory(q: QueueRun, d: Seq<u8>, base: u64, i: u16) -> bool {
    base <= q.addr && q.addr + 16 * i + 16 <= u64::MAX && table_of(q, base) + 16 * i + 16 <= d.len()
}

/// The descriptors `x`, `y` and `z` form a chain: the lowest flag of the first two says that
/// another follows, and the number of the next is that one; the flag of the last does not.
pub open spec fn chained(q: QueueRun, d: Seq<u8>, base: u64, x: u16, y: u16, z: u16) -> bool {
    &&& desc_in_memory(q, d, base, x)
    &&& desc_in_memory(q, d, base, y)
    &&& desc_in_memory(q, d, base, z)
    &&& desc_bytes(q, d, base, x).flags % 2 == 1 && desc_bytes(q, d, base, x).next == y
    &&& desc_bytes(q, d, base, y).flags % 2 == 1 && desc_bytes(q, d, base, y).next == z
    &&& desc_bytes(q, d, base, z).flags % 2 == 0
}

/// The flags of a descriptor as remainders: bit 0 says that another follows, bit 1 that the
/// device writes to it.
#[verifier::rlimit(60)]
pub(crate) proof fn lemma_flag(f: u16)
    ensures
        (f & 1 == 0) == (f % 2 == 0),
        (f & 2 != 0) == (f / 2 % 2 == 1),
{
    assert((f & 1 == 0) == (f % 2 == 0) && (f & 2 != 0) == (f / 2 % 2 == 1)) by (bit_vector);
}

/// A chain of three.
#[verifier::rlimit(60)]
proof fn lemma_chain(q: QueueRun, d: Seq<u8>, base: u64, x: u16, y: u16, z: u16)
    requires
        chained(q, d, base, x, y, z),
    ensures
        chain_at(d, base, q, x, Seq::empty()) == Ok::<Seq<VirtqDesc>, Seq<char>>(
            seq![desc_bytes(q, d, base, x), desc_bytes(q, d, base, y), desc_bytes(q, d, base, z)],
        ),
{
    law_descriptor_layout(q, d, base, x);
    law_descriptor_layout(q, d, base, y);
    law_descriptor_layout(q, d, base, z);
    lemma_flag(desc_bytes(q, d, base, x).flags);
    lemma_flag(desc_bytes(q, d, base, y).flags);
    lemma_flag(desc_bytes(q, d, base, z).flags);
    reveal_with_fuel(chain_at, 4);
    let e = Seq::<VirtqDesc>::empty();
    let s = e.push(desc_bytes(q, d, base, x)).push(desc_bytes(q, d, base, y)).push(
        desc_bytes(q, d, base, z),
    );
    assert(s =~= seq![
        desc_bytes(q, d, base, x),
        desc_bytes(q, d, base, y),
        desc_bytes(q, d, base, z),
    ]);
}

/// The bytes of one buffer, collected.
#[verifier::rlimit(60)]
proof fn lemma_collected(d: Seq<u8>, base: u64, buffer: VirtqDesc, i: nat, acc: Seq<u8>)
    requires
        i <= buffer.len,
        base <= buffer.addr,
        buffer.addr - base + buffer.len <= d.len(),
        buffer.addr + buffer.len <= u64::MAX,
    ensures
        gather_one(d, base, buffer, i, acc) == Ok::<Seq<u8>, Seq<char>>(
            acc + d.subrange(buffer.addr - base + i, buffer.addr - base + buffer.len),
        ),
    decreases buffer.len - i,
{
    let o = buffer.addr - base;
    if i < buffer.len {
        lemma_collected(d, base, buffer, i + 1, acc.push(d[o + i]));
        assert(acc.push(d[o + i]) + d.subrange(o + i + 1, o + buffer.len) =~= acc + d.subrange(
            o + i,
            o + buffer.len,
        ));
    } else {
        assert(acc + d.subrange(o + i, o + buffer.len) =~= acc);
    }
}

/// A request of three descriptors: a header, one buffer of data and a byte for the status.
/// The header's first four bytes are its type, its last eight the first sector.
pub open spec fn offered(
    q: QueueRun,
    d: Seq<u8>,
    base: u64,
    slot: int,
    x: u16,
    y: u16,
    z: u16,
) -> bool {
    let h = desc_bytes(q, d, base, x);
    let t = desc_bytes(q, d, base, y);
    &&& in_memory(q, d, base)
    &&& 0 <= slot < q.num
    &&& exists|laps: int| q.used_idx == slot + #[trigger] (laps * q.num)
    &&& two(d, avail_of(q, base) + 4 + 2 * slot) == x
    &&& chained(q, d, base, x, y, z)
    &&& base <= h.addr && h.addr + 16 <= u64::MAX && h.addr - base + 16 <= d.len()
    &&& base <= t.addr && t.addr + t.len <= u64::MAX && t.addr - base + t.len <= d.len()
}

/// The type in the header of an offered request.
pub open spec fn offered_type(q: QueueRun, d: Seq<u8>, base: u64, x: u16) -> int {
    four(d, desc_bytes(q, d, base, x).addr - base)
}

/// The first sector in the header of an offered request.
pub open spec fn offered_sector(q: QueueRun, d: Seq<u8>, base: u64, x: u16) -> int {
    eight(d, desc_bytes(q, d, base, x).addr - base + 8)
}

/// The first request of a queue, as the disk gets it. Type 0 asks for the bytes from the
/// first sector on, as many as the buffer holds, and type 1 hands over the bytes of the
/// buffer to be written there, sectors having 512 bytes; a request that would reach beyond
/// the capacity is refused with status 2. Type 4 asks for a flush. What waits remembers
/// the head, the buffer and where the status goes.
#[verifier::spinoff_prover]
#[verifier::rlimit(60)]
pub proof fn law_block_request(
    d: Seq<u8>,
    base: u64,
    capacity: u64,
    q: QueueRun,
    slot: int,
    x: u16,
    y: u16,
    z: u16,
)
    requires
        offered(q, d, base, slot, x, y, z),
        capacity <= 0x7F_FFFF_FFFF_FFFF,
    ensures
        ({
            let t = desc_bytes(q, d, base, y);
            let ty = offered_type(q, d, base, x);
            let sector = offered_sector(q, d, base, x);
            let room = sector * 512 + t.len <= capacity * 512;
            let (d2, r) = begin(d, base, capacity, q);
            let run = |op: DiskOp|
                BlkRunView {
                    queue: q,
                    head: x,
                    status_addr: desc_bytes(q, d, base, z).addr,
                    op,
                    buffers: seq![t],
                    total: t.len as u64,
                };
            &&& ty == 0 && room ==> d2 == d && r == Begin::Wait(
                run(DiskOp::Read),
                DiskActionView::Read { offset: (sector * 512) as u64, len: t.len as u64 },
            )
            &&& ty == 1 && room ==> d2 == d && r == Begin::Wait(
                run(DiskOp::Write),
                DiskActionView::Write {
                    offset: (sector * 512) as u64,
                    data: d.subrange(t.addr - base, t.addr - base + t.len),
                },
            )
            &&& ty == 4 ==> d2 == d && r == Begin::Wait(run(DiskOp::Flush), DiskActionView::Flush)
            &&& (ty == 0 || ty == 1) && !room ==> d2 == d && r is Settled && r->head == x
                && r->status_addr == desc_bytes(q, d, base, z).addr && r->status == 2 && r->len
                == (if ty == 0 {
                (t.len + 1) % 0x1_0000_0000
            } else {
                1
            })
            &&& ty != 0 && ty != 1 && ty != 4 && ty != 8 ==> r is Settled && r->head == x && r->status
                == 2 && r->len == 1
            &&& ty == 8 && r is Settled ==> r->status == 0
        }),
{
    let h = desc_bytes(q, d, base, x);
    let t = desc_bytes(q, d, base, y);
    law_rings_are_circular(q, d, base, slot);
    lemma_chain(q, d, base, x, y, z);
    let o = h.addr - base;
    law_little_endian(d, o);
    law_little_endian(d, o + 4);
    law_little_endian(d, o + 8);
    let chain = seq![h, t, desc_bytes(q, d, base, z)];
    let buffers = chain.subrange(1, 2);
    assert(buffers =~= seq![t]);
    assert(chain.last() == desc_bytes(q, d, base, z));
    assert(total_len(buffers) == t.len) by {
        assert(buffers.drop_last() =~= Seq::<VirtqDesc>::empty());
        assert(buffers.last() == t);
        reveal_with_fuel(total_len, 2);
    }
    reveal_with_fuel(gather, 2);
    lemma_collected(d, base, t, 0, Seq::empty());
    assert(Seq::<u8>::empty() + d.subrange(t.addr - base + 0, t.addr - base + t.len)
        =~= d.subrange(t.addr - base, t.addr - base + t.len));
    let sector = offered_sector(q, d, base, x);
    let n = (t.len + 511) / 512;
    assert(sector + n <= capacity <==> sector * 512 + t.len <= capacity * 512);
}

/// Type 8 is answered at once: the buffer gets the serial number, cut off or padded with
/// zeros, with status 0 and one byte more than the buffer holds as the length.
#[verifier::spinoff_prover]
#[verifier::rlimit(60)]
pub proof fn law_serial_number(
    d: Seq<u8>,
    base: u64,
    capacity: u64,
    q: QueueRun,
    slot: int,
    x: u16,
    y: u16,
    z: u16,
    i: int,
)
    requires
        offered(q, d, base, slot, x, y, z),
        offered_type(q, d, base, x) == 8,
        d.len() <= 0x1_0000_0000_0000,
        0 <= i < desc_bytes(q, d, base, y).len,
    ensures
        ({
            let t = desc_bytes(q, d, base, y);
            let (d2, r) = begin(d, base, capacity, q);
            &&& r is Settled && r->head == x && r->status == 0 && r->len == (t.len + 1)
                % 0x1_0000_0000
            &&& r->status_addr == desc_bytes(q, d, base, z).addr
            &&& d2[t.addr - base + i] == (if i < 16 {
                ascii("MYSIM-VIRTIO-BLK"@)[i]
            } else {
                0u8
            })
        }),
{
    let h = desc_bytes(q, d, base, x);
    let t = desc_bytes(q, d, base, y);
    law_rings_are_circular(q, d, base, slot);
    lemma_chain(q, d, base, x, y, z);
    let o = h.addr - base;
    law_little_endian(d, o);
    law_little_endian(d, o + 4);
    law_little_endian(d, o + 8);
    let chain = seq![h, t, desc_bytes(q, d, base, z)];
    let buffers = chain.subrange(1, 2);
    assert(buffers =~= seq![t]);
    assert(chain.last() == desc_bytes(q, d, base, z));
    let data = serial_in(t.len as nat);
    lemma_guest_write_fits(d, t.addr, base, data, 0);
    law_guest_write(d, t.addr, base, data);
    assert((t.addr - base + i + base - t.addr) % 0x1_0000_0000_0000_0000 == i);
}

/// The parts of memory that a waiting request of one buffer is answered in do not overlap:
/// the buffer, the status byte and the used ring.
pub open spec fn answerable(r: BlkRunView, d: Seq<u8>, base: u64, slot: int) -> bool {
    let t = r.buffers[0];
    let u = used_of(r.queue, base);
    let s = r.status_addr - base;
    let o = t.addr - base;
    let end = u + 4 + 8 * r.queue.num;
    &&& r.buffers.len() == 1
    &&& r.total == t.len
    &&& in_memory(r.queue, d, base)
    &&& r.queue.left == 1
    &&& 0 <= slot < r.queue.num
    &&& exists|laps: int| r.queue.used_idx == slot + #[trigger] (laps * r.queue.num)
    &&& base <= t.addr && o + t.len <= d.len() && t.addr + t.len <= u64::MAX
    &&& base <= r.status_addr && s < d.len()
    &&& d.len() <= 0x1_0000_0000_0000
    &&& s < o || o + t.len <= s
    &&& s < u || end <= s
    &&& o + t.len <= u || end <= o
}

/// What the driver finds when its last request was served: the status, the head and the
/// length in the used ring, the used index one further, and the interrupt raised unless the
/// lowest flag of the available ring says not to.
pub open spec fn answered(
    b: BlkView,
    out: (BlkView, Seq<u8>, BlkStepView),
    r: BlkRunView,
    base: u64,
    slot: int,
    status: u8,
    len: int,
) -> bool {
    let d = out.1;
    let u = used_of(r.queue, base);
    &&& d[r.status_addr - base] == status
    &&& four(d, u + 4 + 8 * slot) == r.head
    &&& four(d, u + 8 + 8 * slot) == len
    &&& two(d, u + 2) == (r.queue.used_idx + 1) % 0x1_0000
    &&& out.2 == BlkStepView::Done(r.queue.flags % 2 == 0)
    &&& out.0.run is None
    &&& r.queue.flags % 2 == 0 ==> out.0.interrupt_status == b.interrupt_status | 1
    &&& r.queue.flags % 2 == 1 ==> out.0.interrupt_status == b.interrupt_status
}

/// A request ends.
#[verifier::rlimit(60)]
proof fn lemma_ended(b: BlkView, d: Seq<u8>, d2: Seq<u8>, base: u64, slot: int, status: u8)
    requires
        b.run matches Some(r) && answerable(r, d, base, slot) && d2.len() == d.len(),
    ensures
        ({
            let r = b.run->0;
            let len = run_used_len(r);
            let (d3, e) = end_request(d2, base, r.queue, r.head, r.status_addr, status, len);
            let out = b.after(base, serve(d3, base, b.capacity, e->Ok_0));
            &&& e is Ok
            &&& answered(b, out, r, base, slot, status, len as int)
            &&& forall|i: int|
                0 <= i < d.len() && i != r.status_addr - base && !(used_of(r.queue, base) <= i
                    < used_of(r.queue, base) + 4 + 8 * r.queue.num) ==> #[trigger] out.1[i]
                    == d2[i]
        }),
{
    let r = b.run->0;
    let q = r.queue;
    let len = run_used_len(r);
    let s = r.status_addr - base;
    let d1 = d2.update(s, status);
    assert(dram_write8(d2, guest_offset(r.status_addr, base), status) == (
        d1,
        Ok::<(), Seq<char>>(()),
    ));
    law_request_completed(q, d1, base, r.head, len, slot);
    let (d3, e) = end_request(d2, base, q, r.head, r.status_addr, status, len);
    let q2 = e->Ok_0;
    assert(serve(d3, base, b.capacity, q2) == (d3, Served::All(q2))) by {
        reveal(serve);
    }
    law_used_index_published(q2, d3, base);
    lemma_flag(q.flags);
}

/// The disk's reply to a waiting request of one buffer, the last of its queue. To a read
/// the bytes go into the buffer, with status 0 and one byte more than they are as the
/// length; a failure is answered with status 2. To a write and to a flush status 0 says
/// that it is done, and the length is one. No other memory but the rings changes.
#[verifier::spinoff_prover]
#[verifier::rlimit(60)]
pub proof fn law_block_reply(b: BlkView, d: Seq<u8>, base: u64, slot: int, data: Seq<u8>)
    requires
        b.run matches Some(r) && answerable(r, d, base, slot),
    ensures
        ({
            let r = b.run->0;
            let t = r.buffers[0];
            let o = t.addr - base;
            let got = b.resume(d, base, DiskReplyView::Data(data));
            let done = b.resume(d, base, DiskReplyView::Done);
            let failed = b.resume(d, base, DiskReplyView::Failed);
            let n = if r.op == DiskOp::Read {
                (t.len + 1) % 0x1_0000_0000
            } else {
                1
            };
            &&& r.op == DiskOp::Read && data.len() == t.len ==> answered(
                b,
                got,
                r,
                base,
                slot,
                0,
                n,
            ) && forall|i: int| 0 <= i < t.len ==> #[trigger] got.1[o + i] == data[i]
            &&& r.op != DiskOp::Read ==> answered(b, done, r, base, slot, 0, n) && forall|i: int|
                0 <= i < t.len ==> #[trigger] done.1[o + i] == d[o + i]
            &&& answered(b, failed, r, base, slot, 2, n)
            &&& r.op == DiskOp::Read ==> answered(b, done, r, base, slot, 2, n)
        }),
{
    reveal(BlkView::resume);
    reveal(settle);
    let r = b.run->0;
    let t = r.buffers[0];
    let o = t.addr - base;
    lemma_ended(b, d, d, base, slot, 0);
    lemma_ended(b, d, d, base, slot, 2);
    if r.op == DiskOp::Read && data.len() == t.len {
        assert(data.subrange(0, t.len as int) =~= data);
        lemma_guest_write_fits(d, t.addr, base, data, 0);
        law_guest_write(d, t.addr, base, data);
        let d2 = guest_write(d, t.addr, base, data, 0).0;
        reveal_with_fuel(scatter, 2);
        assert(scatter(d, base, r.buffers, data, 0, 0) == (d2, Ok::<u8, Seq<char>>(0)));
        lemma_ended(b, d, d2, base, slot, 0);
        assert forall|i: int| 0 <= i < t.len implies d2[o + i] == #[trigger] data[i] by {
            assert((o + i + base - t.addr) % 0x1_0000_0000_0000_0000 == i);
        }
        let got = b.resume(d, base, DiskReplyView::Data(data));
        assert forall|i: int| 0 <= i < t.len implies #[trigger] got.1[o + i] == data[i] by {
            assert(got.1[o + i] == d2[o + i]);
        }
    }
}

/// A block that lies in memory can be written there.
#[verifier::rlimit(60)]
pub(crate) proof fn lemma_guest_write_fits(d: Seq<u8>, addr: u64, base: u64, data: Seq<u8>, i: nat)
    requires
        base <= addr,
        addr + data.len() <= u64::MAX,
        addr - base + data.len() <= d.len(),
        i <= data.len(),
    ensures
        guest_write(d, addr, base, data, i).1 is Ok,
    decreases data.len() - i,
{
    if i < data.len() {
        let d2 = dram_write8(
            d,
            guest_offset(addr.wrapping_add(i as u64), base),
            data[i as int],
        ).0;
        lemma_guest_write_fits(d2, addr, base, data, i + 1);
    }
}

} // verus!
