//! Split virtqueues of the legacy VirtIO interface, in guest memory.
//!
//! A queue of `num` entries at a page-aligned address holds `num` descriptors of
//! 16 bytes, then the available ring, then, aligned, the used ring.

use crate::dram::Dram;
#[allow(unused_imports)]
use crate::dram::{
    dram_read16, dram_read32, dram_read64, dram_read8, dram_write16, dram_write32, dram_write8,
};
#[allow(unused_imports)]
use crate::outcome::same_result;
use vstd::prelude::*;

verus! {

/// Descriptor flag: another descriptor follows.
pub const VIRTQ_DESC_F_NEXT: u16 = 1;

/// Descriptor flag: the device writes to the buffer.
pub const VIRTQ_DESC_F_WRITE: u16 = 2;

/// Available-ring flag: the driver wants no interrupt.
pub const VRING_AVAIL_F_NO_INTERRUPT: u16 = 1;

/// A descriptor: a buffer in guest memory.
#[derive(Debug, Clone, Copy, PartialEq, Eq, Structural)]
pub struct VirtqDesc {
    /// Guest-physical address.
    pub addr: u64,
    /// Length in bytes.
    pub len: u32,
    pub flags: u16,
    /// The descriptor that follows, if the flags say so.
    pub next: u16,
}

/// A queue whose requests are being served.
#[derive(Debug, Clone, Copy, PartialEq, Eq, Structural)]
pub struct QueueRun {
    /// Guest-physical address of the queue.
    pub addr: u64,
    /// How many entries it has.
    pub num: u32,
    /// Where the used ring stands in it.
    pub used_offset: u64,
    /// The flags of the available ring.
    pub flags: u16,
    /// The used index: the next request to serve.
    pub used_idx: u16,
    /// How many requests are left.
    pub left: u16,
}

/// Where the guest-physical address `addr` stands in a memory that starts at
/// `base`, modulo 2^64: an address below `base` stands past the end.
pub open spec fn guest_offset(addr: u64, base: u64) -> u64 {
    addr.wrapping_sub(base)
}

/// The descriptor at the guest-physical address `addr`.
pub open spec fn descriptor_at(d: Seq<u8>, addr: u64, base: u64) -> Result<VirtqDesc, Seq<char>> {
    match dram_read64(d, guest_offset(addr, base)) {
        Err(e) => Err(e),
        Ok(a) => match dram_read32(d, guest_offset(addr.wrapping_add(8), base)) {
            Err(e) => Err(e),
            Ok(len) => match dram_read16(d, guest_offset(addr.wrapping_add(12), base)) {
                Err(e) => Err(e),
                Ok(flags) => match dram_read16(d, guest_offset(addr.wrapping_add(14), base)) {
                    Err(e) => Err(e),
                    Ok(next) => Ok(VirtqDesc { addr: a, len, flags, next }),
                },
            },
        },
    }
}

/// Writing `data` from index `i` on, byte by byte, to the guest-physical address
/// `addr`: the memory after it and the result. The first byte that does not fit
/// ends it; the bytes before that one stay written.
pub open spec fn guest_write(
    d: Seq<u8>,
    addr: u64,
    base: u64,
    data: Seq<u8>,
    i: nat,
) -> (Seq<u8>, Result<(), Seq<char>>)
    decreases data.len() - i,
{
    if i >= data.len() {
        (d, Ok(()))
    } else {
        match dram_write8(d, guest_offset(addr.wrapping_add(i as u64), base), data[i as int]) {
            (d2, Err(e)) => (d2, Err(e)),
            (d2, Ok(())) => guest_write(d2, addr, base, data, i + 1),
        }
    }
}

/// Where the used ring of a queue of `num` entries stands: behind the available
/// ring, at the next multiple of `align`.
pub open spec fn used_ring_offset(num: u32, align: u32) -> int {
    (18 * num + 6 + align - 1) / (align as int) * align
}

/// The queue at page `pfn`, ready to be served.
pub open spec fn queue_at(d: Seq<u8>, base: u64, pfn: u32, num: u32, align: u32) -> Result<
    QueueRun,
    Seq<char>,
> {
    let addr = (pfn * 4096) as u64;
    let avail = (addr + 16 * num) as u64;
    let used_offset = used_ring_offset(num, align) as u64;
    match dram_read16(d, guest_offset(avail, base)) {
        Err(e) => Err(e),
        Ok(flags) => match dram_read16(d, guest_offset((avail + 2) as u64, base)) {
            Err(e) => Err(e),
            Ok(avail_idx) => match dram_read16(
                d,
                guest_offset((addr + used_offset + 2) as u64, base),
            ) {
                Err(e) => Err(e),
                Ok(used_idx) => Ok(
                    QueueRun {
                        addr,
                        num,
                        used_offset,
                        flags,
                        used_idx,
                        left: avail_idx.wrapping_sub(used_idx),
                    },
                ),
            },
        },
    }
}

impl QueueRun {
    /// The address of the available-ring entry of the next request.
    pub open spec fn avail_entry(self) -> u64 {
        self.addr.wrapping_add(
            (16 * self.num + 4 + self.used_idx as int % self.num as int * 2) as u64,
        )
    }

    /// The address of the used-ring entry of the next request.
    pub open spec fn used_entry(self) -> u64 {
        self.addr.wrapping_add(self.used_offset).wrapping_add(
            (4 + self.used_idx as int % self.num as int * 8) as u64,
        )
    }

    /// The address of the used index.
    pub open spec fn used_idx_addr(self) -> u64 {
        self.addr.wrapping_add(self.used_offset).wrapping_add(2)
    }

    /// The address of descriptor `idx`.
    pub open spec fn desc_addr(self, idx: u16) -> u64 {
        self.addr.wrapping_add((idx * 16) as u64)
    }

    /// The head descriptor of the next request.
    pub open spec fn head(self, d: Seq<u8>, base: u64) -> Result<u16, Seq<char>> {
        dram_read16(d, guest_offset(self.avail_entry(), base))
    }

    /// The next request is done: its used-ring entry names its head descriptor
    /// and how many bytes the device wrote.
    pub open spec fn complete(self, d: Seq<u8>, base: u64, head: u16, len: u32) -> (
        Seq<u8>,
        Result<QueueRun, Seq<char>>,
    ) {
        match dram_write32(d, guest_offset(self.used_entry(), base), head as u32) {
            (d2, Err(e)) => (d2, Err(e)),
            (d2, Ok(())) => match dram_write32(
                d2,
                guest_offset(self.used_entry().wrapping_add(4), base),
                len,
            ) {
                (d3, Err(e)) => (d3, Err(e)),
                (d3, Ok(())) => (
                    d3,
                    Ok(
                        QueueRun {
                            used_idx: self.used_idx.wrapping_add(1),
                            left: (self.left - 1) as u16,
                            ..self
                        },
                    ),
                ),
            },
        }
    }

    /// All requests are done: the used index says so.
    pub open spec fn finish(self, d: Seq<u8>, base: u64) -> (Seq<u8>, Result<(), Seq<char>>) {
        dram_write16(d, guest_offset(self.used_idx_addr(), base), self.used_idx)
    }

    /// The driver wants an interrupt.
    pub open spec fn wants_interrupt(self) -> bool {
        self.flags & VRING_AVAIL_F_NO_INTERRUPT == 0
    }
}

/// Reads a byte of guest memory.
pub fn read_u8(dram: &Dram, addr: u64, base: u64) -> (r: Result<u8, &'static str>)
    ensures
        same_result(r, dram_read8(dram@, guest_offset(addr, base))),
{
    dram.read8(addr.wrapping_sub(base))
}

/// Writes a byte of guest memory.
pub fn write_u8(dram: &mut Dram, addr: u64, value: u8, base: u64) -> (r: Result<(), &'static str>)
    ensures
        final(dram)@ == dram_write8(old(dram)@, guest_offset(addr, base), value).0,
        same_result(r, dram_write8(old(dram)@, guest_offset(addr, base), value).1),
{
    dram.write8(addr.wrapping_sub(base), value)
}

/// Reads two bytes of guest memory.
pub fn read_u16(dram: &Dram, addr: u64, base: u64) -> (r: Result<u16, &'static str>)
    ensures
        same_result(r, dram_read16(dram@, guest_offset(addr, base))),
{
    dram.read16(addr.wrapping_sub(base))
}

/// Writes two bytes of guest memory.
pub fn write_u16(dram: &mut Dram, addr: u64, value: u16, base: u64) -> (r: Result<
    (),
    &'static str,
>)
    ensures
        final(dram)@ == dram_write16(old(dram)@, guest_offset(addr, base), value).0,
        same_result(r, dram_write16(old(dram)@, guest_offset(addr, base), value).1),
{
    dram.write16(addr.wrapping_sub(base), value)
}

/// Reads four bytes of guest memory.
pub fn read_u32(dram: &Dram, addr: u64, base: u64) -> (r: Result<u32, &'static str>)
    ensures
        same_result(r, dram_read32(dram@, guest_offset(addr, base))),
{
    dram.read32(addr.wrapping_sub(base))
}

/// Writes four bytes of guest memory.
pub fn write_u32(dram: &mut Dram, addr: u64, value: u32, base: u64) -> (r: Result<
    (),
    &'static str,
>)
    ensures
        final(dram)@ == dram_write32(old(dram)@, guest_offset(addr, base), value).0,
        same_result(r, dram_write32(old(dram)@, guest_offset(addr, base), value).1),
{
    dram.write32(addr.wrapping_sub(base), value)
}

/// Reads eight bytes of guest memory.
pub fn read_u64(dram: &Dram, addr: u64, base: u64) -> (r: Result<u64, &'static str>)
    ensures
        same_result(r, dram_read64(dram@, guest_offset(addr, base))),
{
    dram.read64(addr.wrapping_sub(base))
}

/// Reads a descriptor.
pub fn read_descriptor(dram: &Dram, addr: u64, base: u64) -> (r: Result<VirtqDesc, &'static str>)
    ensures
        same_result(r, descriptor_at(dram@, addr, base)),
{
    let a: u64 = match read_u64(dram, addr, base) {
        Ok(v) => v,
        Err(e) => return Err(e),
    };
    let len: u32 = match read_u32(dram, addr.wrapping_add(8), base) {
        Ok(v) => v,
        Err(e) => return Err(e),
    };
    let flags: u16 = match read_u16(dram, addr.wrapping_add(12), base) {
        Ok(v) => v,
        Err(e) => return Err(e),
    };
    let next: u16 = match read_u16(dram, addr.wrapping_add(14), base) {
        Ok(v) => v,
        Err(e) => return Err(e),
    };
    Ok(VirtqDesc { addr: a, len, flags, next })
}

/// Writes `data` to guest memory, byte by byte.
pub fn write_bytes(dram: &mut Dram, addr: u64, data: &[u8], base: u64) -> (r: Result<
    (),
    &'static str,
>)
    ensures
        final(dram)@ == guest_write(old(dram)@, addr, base, data@, 0).0,
        same_result(r, guest_write(old(dram)@, addr, base, data@, 0).1),
{
    let n: usize = data.len();
    let mut i: usize = 0;
    while i < n
        invariant
            i <= n,
            n == data@.len(),
            guest_write(old(dram)@, addr, base, data@, 0) == guest_write(
                dram@,
                addr,
                base,
                data@,
                i as nat,
            ),
        decreases n - i,
    {
        match write_u8(dram, addr.wrapping_add(i as u64), data[i], base) {
            Ok(()) => {},
            Err(e) => return Err(e),
        }
        i = i + 1;
    }
    Ok(())
}

/// A rounded-up multiple is less than one step above.
proof fn lemma_round_up(x: int, a: int)
    requires
        a > 0,
        x >= 0,
    ensures
        0 <= (x + a - 1) / a * a <= x + a - 1,
{
    assert(0 <= (x + a - 1) / a * a <= x + a - 1) by (nonlinear_arith)
        requires
            a > 0,
            x >= 0,
    ;
}

/// Opens the queue at page `pfn`.
pub fn open_queue(dram: &Dram, base: u64, pfn: u32, num: u32, align: u32) -> (r: Result<
    QueueRun,
    &'static str,
>)
    requires
        align != 0,
    ensures
        same_result(r, queue_at(dram@, base, pfn, num, align)),
{
    let addr: u64 = pfn as u64 * 4096;
    let avail: u64 = addr + 16 * num as u64;
    let a: u64 = align as u64;
    proof {
        lemma_round_up(18 * num + 6, align as int);
    }
    let used_offset: u64 = (18 * num as u64 + 6 + a - 1) / a * a;
    let flags: u16 = match read_u16(dram, avail, base) {
        Ok(v) => v,
        Err(e) => return Err(e),
    };
    let avail_idx: u16 = match read_u16(dram, avail + 2, base) {
        Ok(v) => v,
        Err(e) => return Err(e),
    };
    let used_idx: u16 = match read_u16(dram, addr + used_offset + 2, base) {
        Ok(v) => v,
        Err(e) => return Err(e),
    };
    Ok(
        QueueRun {
            addr,
            num,
            used_offset,
            flags,
            used_idx,
            left: avail_idx.wrapping_sub(used_idx),
        },
    )
}

impl QueueRun {
    /// Reads which descriptor heads the next request.
    pub fn read_head(&self, dram: &Dram, base: u64) -> (r: Result<u16, &'static str>)
        requires
            self.num != 0,
        ensures
            same_result(r, self.head(dram@, base)),
    {
        let entry: u64 = self.addr.wrapping_add(
            16 * self.num as u64 + 4 + self.used_idx as u64 % self.num as u64 * 2,
        );
        read_u16(dram, entry, base)
    }

    /// The address of descriptor `idx`.
    pub fn desc_address(&self, idx: u16) -> (a: u64)
        ensures
            a == self.desc_addr(idx),
    {
        self.addr.wrapping_add(idx as u64 * 16)
    }

    /// Puts the next request into the used ring and moves on to the one after.
    pub fn push_used(&self, dram: &mut Dram, base: u64, head: u16, len: u32) -> (r: Result<
        QueueRun,
        &'static str,
    >)
        requires
            self.num != 0,
            self.left > 0,
        ensures
            final(dram)@ == self.complete(old(dram)@, base, head, len).0,
            same_result(r, self.complete(old(dram)@, base, head, len).1),
    {
        let entry: u64 = self.addr.wrapping_add(self.used_offset).wrapping_add(
            4 + self.used_idx as u64 % self.num as u64 * 8,
        );
        match write_u32(dram, entry, head as u32, base) {
            Ok(()) => {},
            Err(e) => return Err(e),
        }
        match write_u32(dram, entry.wrapping_add(4), len, base) {
            Ok(()) => {},
            Err(e) => return Err(e),
        }
        Ok(
            QueueRun {
                addr: self.addr,
                num: self.num,
                used_offset: self.used_offset,
                flags: self.flags,
                used_idx: self.used_idx.wrapping_add(1),
                left: self.left - 1,
            },
        )
    }

    /// Publishes the used index.
    pub fn publish(&self, dram: &mut Dram, base: u64) -> (r: Result<(), &'static str>)
        ensures
            final(dram)@ == self.finish(old(dram)@, base).0,
            same_result(r, self.finish(old(dram)@, base).1),
    {
        write_u16(
            dram,
            self.addr.wrapping_add(self.used_offset).wrapping_add(2),
            self.used_idx,
            base,
        )
    }

    /// Whether the driver wants an interrupt.
    pub fn interrupt_wanted(&self) -> (b: bool)
        ensures
            b == self.wants_interrupt(),
    {
        self.flags & VRING_AVAIL_F_NO_INTERRUPT == 0
    }
}

/// What writing a block to guest memory does to byte `j` of the memory.
proof fn lemma_guest_write(d: Seq<u8>, addr: u64, base: u64, data: Seq<u8>, i: nat, j: int)
    requires
        data.len() <= 0x1_0000_0000,
        d.len() <= 0x1_0000_0000_0000_0000,
        0 <= j < d.len(),
    ensures
        guest_write(d, addr, base, data, i).0.len() == d.len(),
        guest_write(d, addr, base, data, i).1 is Ok ==> guest_write(d, addr, base, data, i).0[j]
            == ({
            let k = (j + base - addr) % 0x1_0000_0000_0000_0000;
            if i <= k < data.len() {
                data[k]
            } else {
                d[j]
            }
        }),
    decreases data.len() - i,
{
    if i < data.len() {
        let off = guest_offset(addr.wrapping_add(i as u64), base);
        let d2 = dram_write8(d, off, data[i as int]).0;
        lemma_guest_write(d2, addr, base, data, i + 1, j);
        let k = (j + base - addr) % 0x1_0000_0000_0000_0000;
        assert(off == (addr + i - base) % 0x1_0000_0000_0000_0000);
        assert(off == j <==> k == i);
    }
}

/// A block written to guest memory without an error is there afterwards, and no
/// other byte has changed: byte `k` of it stands at address `addr + k`.
pub proof fn law_guest_write(d: Seq<u8>, addr: u64, base: u64, data: Seq<u8>)
    requires
        data.len() <= 0x1_0000_0000,
        d.len() <= 0x1_0000_0000_0000_0000,
        guest_write(d, addr, base, data, 0).1 is Ok,
    ensures
        guest_write(d, addr, base, data, 0).0.len() == d.len(),
        forall|j: int|
            0 <= j < d.len() ==> #[trigger] guest_write(d, addr, base, data, 0).0[j] == ({
                let k = (j + base - addr) % 0x1_0000_0000_0000_0000;
                if k < data.len() {
                    data[k]
                } else {
                    d[j]
                }
            }),
{
    if d.len() > 0 {
        lemma_guest_write(d, addr, base, data, 0, 0);
    } else {
        lemma_guest_write_empty(d, addr, base, data);
    }
    assert forall|j: int| 0 <= j < d.len() implies #[trigger] guest_write(
        d,
        addr,
        base,
        data,
        0,
    ).0[j] == ({
        let k = (j + base - addr) % 0x1_0000_0000_0000_0000;
        if k < data.len() {
            data[k]
        } else {
            d[j]
        }
    }) by {
        lemma_guest_write(d, addr, base, data, 0, j);
    }
}

/// Nothing can be written to an empty memory.
proof fn lemma_guest_write_empty(d: Seq<u8>, addr: u64, base: u64, data: Seq<u8>)
    requires
        d.len() == 0,
    ensures
        guest_write(d, addr, base, data, 0).0.len() == 0,
{
}

/// Every byte of a block that was written without an error stands in the memory.
pub proof fn lemma_guest_write_in_range(
    d: Seq<u8>,
    addr: u64,
    base: u64,
    data: Seq<u8>,
    i: nat,
    j: nat,
)
    requires
        guest_write(d, addr, base, data, i).1 is Ok,
        i <= j < data.len(),
    ensures
        guest_offset(addr.wrapping_add(j as u64), base) < d.len(),
    decreases data.len() - i,
{
    if i < j {
        let d2 = dram_write8(
            d,
            guest_offset(addr.wrapping_add(i as u64), base),
            data[i as int],
        ).0;
        lemma_guest_write_in_range(d2, addr, base, data, i + 1, j);
    }
}

/// The block `data` stands in the memory at the guest-physical address `addr`.
pub open spec fn holds(d: Seq<u8>, addr: u64, base: u64, data: Seq<u8>) -> bool {
    forall|i: int|
        0 <= i < data.len() ==> #[trigger] dram_read8(
            d,
            guest_offset(addr.wrapping_add(i as u64), base),
        ) == Ok::<u8, Seq<char>>(data[i])
}

/// The buffers `a` and `b` have no address in common.
pub open spec fn apart(a: VirtqDesc, b: VirtqDesc) -> bool {
    forall|i: int, j: int|
        0 <= i < a.len && 0 <= j < b.len ==> #[trigger] a.addr.wrapping_add(i as u64)
            != #[trigger] b.addr.wrapping_add(j as u64)
}

/// A block written without an error stands in the memory.
pub proof fn lemma_written_holds(d: Seq<u8>, addr: u64, base: u64, data: Seq<u8>)
    requires
        data.len() <= 0x1_0000_0000,
        d.len() <= 0x1_0000_0000_0000_0000,
        guest_write(d, addr, base, data, 0).1 is Ok,
    ensures
        holds(guest_write(d, addr, base, data, 0).0, addr, base, data),
{
    law_guest_write(d, addr, base, data);
    let d2 = guest_write(d, addr, base, data, 0).0;
    assert forall|i: int| 0 <= i < data.len() implies #[trigger] dram_read8(
        d2,
        guest_offset(addr.wrapping_add(i as u64), base),
    ) == Ok::<u8, Seq<char>>(data[i]) by {
        lemma_guest_write_in_range(d, addr, base, data, 0, i as nat);
        let off = guest_offset(addr.wrapping_add(i as u64), base) as int;
        let k = (off + base - addr) % 0x1_0000_0000_0000_0000;
        assert(k == i);
        assert(d2[off] == data[k]);
    }
}

/// Writing a buffer leaves a block in another buffer alone.
pub proof fn lemma_apart_holds(
    d: Seq<u8>,
    base: u64,
    a: VirtqDesc,
    b: VirtqDesc,
    kept: Seq<u8>,
    data: Seq<u8>,
)
    requires
        kept.len() == a.len,
        data.len() == b.len,
        d.len() <= 0x1_0000_0000_0000_0000,
        apart(a, b),
        holds(d, a.addr, base, kept),
        guest_write(d, b.addr, base, data, 0).1 is Ok,
    ensures
        holds(guest_write(d, b.addr, base, data, 0).0, a.addr, base, kept),
{
    law_guest_write(d, b.addr, base, data);
    let d2 = guest_write(d, b.addr, base, data, 0).0;
    assert forall|i: int| 0 <= i < kept.len() implies #[trigger] dram_read8(
        d2,
        guest_offset(a.addr.wrapping_add(i as u64), base),
    ) == Ok::<u8, Seq<char>>(kept[i]) by {
        let x = a.addr.wrapping_add(i as u64);
        let off = guest_offset(x, base) as int;
        assert(dram_read8(d, guest_offset(x, base)) == Ok::<u8, Seq<char>>(kept[i]));
        assert(off < d.len());
        let k = (off + base - b.addr) % 0x1_0000_0000_0000_0000;
        if k < data.len() {
            assert(b.addr.wrapping_add(k as u64) == x);
        }
        assert(d2[off] == d[off]);
    }
}

} // verus!
