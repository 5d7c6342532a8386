//! How the descriptors of a request are linked, and the order in which their buffers are
//! read and filled.

#[allow(unused_imports)]
use crate::queue_laws::law_little_endian;
#[allow(unused_imports)]
use crate::virtio::{chain_at, gather, gather_one, scatter, sectors_needed, total_len};
#[allow(unused_imports)]
use crate::virtq::{descriptor_at, guest_write, QueueRun, VirtqDesc};
use vstd::prelude::*;

verus! {

/// A row of descriptors is linked from index `i` on: each says that another follows and
/// which, and that one is next; the last says that none follows.
pub open spec fn linked(
    d: Seq<u8>,
    base: u64,
    q: QueueRun,
    c: Seq<VirtqDesc>,
    i: int,
) -> bool {
    &&& 0 <= i < c.len()
    &&& c.last().flags & 1 == 0
    &&& forall|k: int|
        #![trigger c[k]]
        i <= k < c.len() - 1 ==> c[k].flags & 1 != 0 && descriptor_at(
            d,
            q.desc_addr(c[k].next),
            base,
        ) == Ok::<VirtqDesc, Seq<char>>(c[k + 1])
}

/// A chain behind others.
#[verifier::rlimit(60)]
proof fn lemma_linked(d: Seq<u8>, base: u64, q: QueueRun, x: u16, acc: Seq<VirtqDesc>)
    ensures
        chain_at(d, base, q, x, acc) matches Ok(c) ==> {
            &&& acc.len() < c.len() <= 256
            &&& c.take(acc.len() as int) == acc
            &&& descriptor_at(d, q.desc_addr(x), base) == Ok::<VirtqDesc, Seq<char>>(
                c[acc.len() as int],
            )
            &&& linked(d, base, q, c, acc.len() as int)
        },
    decreases 256 - acc.len(),
{
    if acc.len() < 256 {
        match descriptor_at(d, q.desc_addr(x), base) {
            Ok(desc) => {
                if desc.flags & 1 == 0 {
                    assert(acc.push(desc).take(acc.len() as int) =~= acc);
                } else {
                    lemma_linked(d, base, q, desc.next, acc.push(desc));
                    match chain_at(d, base, q, x, acc) {
                        Ok(c) => {
                            assert(c.take(acc.len() as int + 1)[acc.len() as int] == desc);
                            assert(c.take(acc.len() as int) =~= c.take(acc.len() as int + 1).take(
                                acc.len() as int,
                            ));
                            assert(acc.push(desc).take(acc.len() as int) =~= acc);
                        },
                        Err(e) => {},
                    }
                }
            },
            Err(e) => {},
        }
    }
}

/// The chain of a request starts at its head, has at most 256 descriptors, and goes on from
/// each to the one that it names, up to the first that names none.
pub proof fn law_chain_links(d: Seq<u8>, base: u64, q: QueueRun, head: u16)
    ensures
        chain_at(d, base, q, head, Seq::empty()) matches Ok(c) ==> {
            &&& 0 < c.len() <= 256
            &&& descriptor_at(d, q.desc_addr(head), base) == Ok::<VirtqDesc, Seq<char>>(c[0])
            &&& linked(d, base, q, c, 0)
        },
{
    lemma_linked(d, base, q, head, Seq::empty());
}

/// A buffer lies in main memory.
pub open spec fn in_memory(d: Seq<u8>, base: u64, x: VirtqDesc) -> bool {
    base <= x.addr && x.addr - base + x.len <= d.len() && x.addr + x.len <= u64::MAX
}

/// The bytes of a buffer.
pub open spec fn bytes_of(d: Seq<u8>, base: u64, x: VirtqDesc) -> Seq<u8> {
    d.subrange(x.addr - base, x.addr - base + x.len)
}

/// The bytes of one buffer.
#[verifier::rlimit(60)]
proof fn lemma_one(d: Seq<u8>, base: u64, x: VirtqDesc, i: nat, acc: Seq<u8>)
    requires
        in_memory(d, base, x),
        i <= x.len,
    ensures
        gather_one(d, base, x, i, acc) == Ok::<Seq<u8>, Seq<char>>(
            acc + bytes_of(d, base, x).skip(i as int),
        ),
    decreases x.len - i,
{
    let s = bytes_of(d, base, x);
    if i < x.len {
        let o = x.addr - base + i;
        law_little_endian(d, o);
        lemma_one(d, base, x, i + 1, acc.push(d[o]));
        assert(acc.push(d[o]) + s.skip(i as int + 1) =~= acc + s.skip(i as int));
    } else {
        assert(acc + s.skip(i as int) =~= acc);
    }
}

/// One buffer more, from index `k` on.
#[verifier::rlimit(60)]
proof fn lemma_one_more(
    d: Seq<u8>,
    base: u64,
    b: Seq<VirtqDesc>,
    x: VirtqDesc,
    k: nat,
    acc: Seq<u8>,
)
    requires
        in_memory(d, base, x),
        k <= b.len(),
    ensures
        gather(d, base, b, k, acc) matches Ok(t) ==> gather(d, base, b.push(x), k, acc) == Ok::<
            Seq<u8>,
            Seq<char>,
        >(t + bytes_of(d, base, x)),
    decreases b.len() - k,
{
    reveal_with_fuel(gather, 3);
    if k < b.len() {
        match gather_one(d, base, b[k as int], 0, acc) {
            Ok(acc2) => lemma_one_more(d, base, b, x, k + 1, acc2),
            Err(e) => {},
        }
    } else {
        lemma_one(d, base, x, 0, acc);
        assert(bytes_of(d, base, x).skip(0) =~= bytes_of(d, base, x));
    }
}

/// What the disk is given to write is the bytes of the buffers in their order: one more
/// buffer adds its bytes at the end, and no buffers give no bytes.
pub proof fn law_buffers_in_order(d: Seq<u8>, base: u64, b: Seq<VirtqDesc>, x: VirtqDesc)
    requires
        in_memory(d, base, x),
    ensures
        gather(d, base, Seq::empty(), 0, Seq::empty()) == Ok::<Seq<u8>, Seq<char>>(Seq::empty()),
        gather(d, base, b, 0, Seq::empty()) matches Ok(t) ==> gather(
            d,
            base,
            b.push(x),
            0,
            Seq::empty(),
        ) == Ok::<Seq<u8>, Seq<char>>(t + bytes_of(d, base, x)),
{
    lemma_one_more(d, base, b, x, 0, Seq::empty());
}

/// Filling one buffer more, from index `k` on.
#[verifier::rlimit(60)]
proof fn lemma_fill_more(
    d: Seq<u8>,
    base: u64,
    b: Seq<VirtqDesc>,
    x: VirtqDesc,
    data: Seq<u8>,
    k: nat,
)
    requires
        k <= b.len(),
        total_len(b) + x.len <= data.len(),
        scatter(d, base, b, data, k, total_len(b.take(k as int))).1 == Ok::<u8, Seq<char>>(0),
    ensures
        ({
            let off = total_len(b.take(k as int));
            let n = total_len(b);
            let e = scatter(d, base, b, data, k, off).0;
            let w = guest_write(e, x.addr, base, data.subrange(n as int, n + x.len), 0);
            let out = scatter(d, base, b.push(x), data, k, off);
            &&& out.0 == w.0
            &&& w.1 is Ok ==> out.1 == Ok::<u8, Seq<char>>(0)
        }),
    decreases b.len() - k,
{
    reveal_with_fuel(scatter, 3);
    if k < b.len() {
        assert(b.take(k as int + 1).drop_last() =~= b.take(k as int));
        let off = total_len(b.take(k as int));
        let end = off + b[k as int].len as nat;
        assert(total_len(b.take(k as int + 1)) == end);
        assert(b.push(x)[k as int] == b[k as int]);
        let w = guest_write(d, b[k as int].addr, base, data.subrange(off as int, end as int), 0);
        lemma_fill_more(w.0, base, b, x, data, k + 1);
    } else {
        assert(b.take(k as int) =~= b);
        assert(b.push(x)[k as int] == x);
    }
}

/// What the disk gives is put into the buffers in their order: one more buffer gets the
/// bytes behind those of the others.
pub proof fn law_fills_in_order(
    d: Seq<u8>,
    base: u64,
    b: Seq<VirtqDesc>,
    x: VirtqDesc,
    data: Seq<u8>,
)
    requires
        total_len(b) + x.len <= data.len(),
        scatter(d, base, b, data, 0, 0).1 == Ok::<u8, Seq<char>>(0),
    ensures
        ({
            let n = total_len(b);
            let e = scatter(d, base, b, data, 0, 0).0;
            let w = guest_write(e, x.addr, base, data.subrange(n as int, n + x.len), 0);
            let out = scatter(d, base, b.push(x), data, 0, 0);
            &&& out.0 == w.0
            &&& w.1 is Ok ==> out.1 == Ok::<u8, Seq<char>>(0)
        }),
{
    assert(b.take(0) =~= Seq::<VirtqDesc>::empty());
    lemma_fill_more(d, base, b, x, data, 0);
}

/// Buffers hold what each of them holds, and their sectors are as many as just suffice.
pub proof fn law_lengths(b: Seq<VirtqDesc>, x: VirtqDesc, n: nat)
    ensures
        total_len(Seq::empty()) == 0,
        total_len(b.push(x)) == total_len(b) + x.len,
        512 * sectors_needed(n) >= n,
        512 * sectors_needed(n) < n + 512,
{
    assert(b.push(x).drop_last() =~= b);
}

} // verus!
