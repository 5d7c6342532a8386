//! What a request for random bytes comes to, and how a rung bell leads from the registers
//! of the block device to its queue.

#[allow(unused_imports)]
use crate::block_laws::{
    desc_bytes, desc_in_memory, lemma_flag, lemma_guest_write_fits, offered, offered_sector, offered_type,
};
#[allow(unused_imports)]
use crate::queue_laws::{
    avail_of, changed_at, eight, four, in_memory, law_descriptor_layout, law_request_completed,
    law_rings_are_circular, law_used_index_published, table_of, two, used_of,
};
#[allow(unused_imports)]
use crate::virtio::{begin, serve, Begin, BlkStepView, BlkView, DiskActionView, Served};
#[allow(unused_imports)]
use crate::virtio_rng::{rng_go_on, rng_serve, walk, RngRun, RngServed, RngStepView, RngView, Walk};
#[allow(unused_imports)]
use crate::virtq::{guest_write, law_guest_write, queue_at, QueueRun, VirtqDesc};
use vstd::prelude::*;

verus! {

/// A request whose first descriptor is a buffer for the device to write to asks for as many
/// bytes as that holds.
#[verifier::rlimit(60)]
pub proof fn law_entropy_request(
    b: RngView,
    d: Seq<u8>,
    base: u64,
    q: QueueRun,
    slot: int,
    x: u16,
)
    requires
        b.queue_pfn != 0,
        b.queue_num != 0,
        queue_at(d, base, b.queue_pfn, b.queue_num, 4096) == Ok::<QueueRun, Seq<char>>(q),
        q.left > 0,
        in_memory(q, d, base),
        0 <= slot < q.num,
        exists|laps: int| q.used_idx == slot + #[trigger] (laps * q.num),
        two(d, avail_of(q, base) + 4 + 2 * slot) == x,
        desc_in_memory(q, d, base, x),
        desc_bytes(q, d, base, x).flags / 2 % 2 == 1,
    ensures
        ({
            let (s, e, step) = b.process(d, base);
            let t = desc_bytes(q, d, base, x);
            &&& e == d
            &&& step == RngStepView::NeedBytes(t.len)
            &&& s == RngView {
                run: Some(RngRun { queue: q, head: x, desc: t, seen: 0, written: 0 }),
                ..b
            }
        }),
{
    reveal(RngView::process);
    law_rings_are_circular(q, d, base, slot);
    law_descriptor_layout(q, d, base, x);
    lemma_flag(desc_bytes(q, d, base, x).flags);
}

/// The random bytes go into the buffer that waits. If it was the last of the last request,
/// the used ring names the request's head and how many bytes were written, the used index
/// is one further, and the interrupt is raised unless the driver wants none.
#[verifier::rlimit(60)]
pub proof fn law_entropy_reply(b: RngView, d: Seq<u8>, base: u64, slot: int, bytes: Seq<u8>)
    requires
        b.run matches Some(r) && {
            let t = r.desc;
            let u = used_of(r.queue, base);
            &&& t.flags % 2 == 0
            &&& bytes.len() == t.len
            &&& r.queue.left == 1
            &&& in_memory(r.queue, d, base)
            &&& 0 <= slot < r.queue.num
            &&& exists|laps: int| r.queue.used_idx == slot + #[trigger] (laps * r.queue.num)
            &&& base <= t.addr && t.addr - base + t.len <= d.len() && t.addr + t.len <= u64::MAX
            &&& d.len() <= 0x1_0000_0000_0000
            &&& t.addr - base + t.len <= u || u + 4 + 8 * r.queue.num <= t.addr - base
        },
    ensures
        ({
            let r = b.run->0;
            let (s, e, step) = b.resume(d, base, bytes);
            let u = used_of(r.queue, base);
            let o = r.desc.addr - base;
            &&& forall|i: int| 0 <= i < bytes.len() ==> #[trigger] e[o + i] == bytes[i]
            &&& four(e, u + 4 + 8 * slot) == r.head
            &&& four(e, u + 8 + 8 * slot) == (r.written + r.desc.len) % 0x1_0000_0000
            &&& two(e, u + 2) == (r.queue.used_idx + 1) % 0x1_0000
            &&& step == RngStepView::Done(r.queue.flags % 2 == 0)
            &&& s.run is None
            &&& s.interrupt_status == (if r.queue.flags % 2 == 0 {
                b.interrupt_status | 1
            } else {
                b.interrupt_status
            })
        }),
{
    let r = b.run->0;
    let o = r.desc.addr - base;
    lemma_written(d, r.desc.addr, base, bytes);
    let d2 = guest_write(d, r.desc.addr, base, bytes, 0).0;
    let out = b.after(base, rng_go_on(d2, base, r));
    assert(b.resume(d, base, bytes) == out) by {
        reveal(RngView::resume);
    }
    lemma_ended(b, d2, base, slot);
    let e = b.resume(d, base, bytes).1;
    assert forall|i: int| 0 <= i < bytes.len() implies #[trigger] e[o + i] == bytes[i] by {
        assert(d2[o + i] == bytes[i]);
        assert(e[o + i] == d2[o + i]);
    }
}

/// A block in memory after it was written.
#[verifier::rlimit(60)]
proof fn lemma_written(d: Seq<u8>, addr: u64, base: u64, data: Seq<u8>)
    requires
        base <= addr,
        addr + data.len() <= u64::MAX,
        addr - base + data.len() <= d.len(),
        d.len() <= 0x1_0000_0000_0000,
        data.len() <= 0x1_0000_0000,
    ensures
        guest_write(d, addr, base, data, 0).1 is Ok,
        guest_write(d, addr, base, data, 0).0.len() == d.len(),
        forall|i: int|
            0 <= i < data.len() ==> #[trigger] guest_write(d, addr, base, data, 0).0[addr - base
                + i] == data[i],
{
    lemma_guest_write_fits(d, addr, base, data, 0);
    law_guest_write(d, addr, base, data);
    let d2 = guest_write(d, addr, base, data, 0).0;
    assert forall|i: int| 0 <= i < data.len() implies #[trigger] d2[addr - base + i] == data[i] by {
        assert((addr - base + i + base - addr) % 0x1_0000_0000_0000_0000 == i);
    }
}

/// The last buffer of the last request was filled.
#[verifier::rlimit(60)]
proof fn lemma_ended(b: RngView, d: Seq<u8>, base: u64, slot: int)
    requires
        b.run matches Some(r) && {
            &&& r.desc.flags % 2 == 0
            &&& r.queue.left == 1
            &&& in_memory(r.queue, d, base)
            &&& 0 <= slot < r.queue.num
            &&& exists|laps: int| r.queue.used_idx == slot + #[trigger] (laps * r.queue.num)
        },
    ensures
        ({
            let r = b.run->0;
            let (s, e, step) = b.after(base, rng_go_on(d, base, r));
            let u = used_of(r.queue, base);
            &&& changed_at(d, e, u, 4 + 8 * r.queue.num)
            &&& four(e, u + 4 + 8 * slot) == r.head
            &&& four(e, u + 8 + 8 * slot) == (r.written + r.desc.len) % 0x1_0000_0000
            &&& two(e, u + 2) == (r.queue.used_idx + 1) % 0x1_0000
            &&& step == RngStepView::Done(r.queue.flags % 2 == 0)
            &&& s.run is None
            &&& s.interrupt_status == (if r.queue.flags % 2 == 0 {
                b.interrupt_status | 1
            } else {
                b.interrupt_status
            })
        }),
{
    let r = b.run->0;
    let q = r.queue;
    lemma_flag(r.desc.flags);
    lemma_flag(q.flags);
    let n = r.written.wrapping_add(r.desc.len);
    law_request_completed(q, d, base, r.head, n, slot);
    let (d3, c) = q.complete(d, base, r.head, n);
    let q2 = c->Ok_0;
    law_used_index_published(q2, d3, base);
    assert(rng_serve(d3, base, q2) == (d3, RngServed::All(q2)));
}

/// When the bell of the block device was rung, the first request of the queue that its
/// registers name goes to the disk as its bytes say; without a queue, or without a request,
/// nothing happens.
#[verifier::rlimit(60)]
pub proof fn law_block_bell(b: BlkView, d: Seq<u8>, base: u64, q: QueueRun)
    requires
        b.queue_align != 0,
    ensures
        b.queue_pfn == 0 ==> b.process(d, base) == (
            BlkView { run: None, ..b },
            d,
            BlkStepView::Done(false),
        ),
        b.queue_pfn != 0 && queue_at(d, base, b.queue_pfn, b.queue_num, b.queue_align) == Ok::<
            QueueRun,
            Seq<char>,
        >(q) ==> {
            &&& q.left == 0 ==> b.process(d, base) == (
                BlkView { run: None, ..b },
                d,
                BlkStepView::Done(false),
            )
            &&& q.left > 0 && q.num > 0 ==> (begin(d, base, b.capacity, q) matches (
                e,
                Begin::Wait(r, a),
            ) ==> b.process(d, base) == (
                BlkView { run: Some(r), ..b },
                e,
                BlkStepView::Disk(a),
            ))
        },
{
    reveal(BlkView::process);
    reveal(serve);
}

} // verus!
