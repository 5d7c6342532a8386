//! What answers at which physical address, and what the devices' registers do, as a driver
//! sees it over the bus.

#[allow(unused_imports)]
use crate::bus::{Bell, BusView};
#[allow(unused_imports)]
use crate::bytes::read_at;
#[allow(unused_imports)]
use crate::flash::FlashState;
#[allow(unused_imports)]
use crate::plic::{law_claim_is_best, law_pending_of_one, PlicView};
#[allow(unused_imports)]
use crate::queue_laws::{eight, four, law_little_endian, two};
#[allow(unused_imports)]
use crate::uart::UartView;
use vstd::prelude::*;

verus! {

/// Main memory starts at 2 GiB, the boot ROM at 4 KiB and the flash at 512 MiB. Bytes are
/// read there in little-endian order; main memory is 2 GiB at most.
#[verifier::rlimit(60)]
pub proof fn law_memories(b: BusView, o: int)
    requires
        0 <= o,
    ensures
        o + 8 <= b.dram.len() && o < 0x8000_0000 ==> b.read64((0x8000_0000 + o) as u64) == (
            b,
            Ok::<u64, Seq<char>>(eight(b.dram, o) as u64),
        ),
        o + 4 <= b.dram.len() && o < 0x8000_0000 ==> b.read32((0x8000_0000 + o) as u64) == (
            b,
            Ok::<u32, Seq<char>>(four(b.dram, o) as u32),
        ),
        o + 2 <= b.dram.len() && o < 0x8000_0000 ==> b.read16((0x8000_0000 + o) as u64) == (
            b,
            Ok::<u16, Seq<char>>(two(b.dram, o) as u16),
        ),
        o + 1 <= b.dram.len() && o < 0x8000_0000 ==> b.read8((0x8000_0000 + o) as u64) == (
            b,
            Ok::<u8, Seq<char>>(b.dram[o]),
        ),
        o + 8 <= b.mrom.len() && o < 0xF000 ==> b.read64((0x1000 + o) as u64) == (
            b,
            Ok::<u64, Seq<char>>(eight(b.mrom, o) as u64),
        ),
        o + 4 <= b.mrom.len() && o < 0xF000 ==> b.read32((0x1000 + o) as u64) == (
            b,
            Ok::<u32, Seq<char>>(four(b.mrom, o) as u32),
        ),
        o + 2 <= b.mrom.len() && o < 0xF000 ==> b.read16((0x1000 + o) as u64) == (
            b,
            Ok::<u16, Seq<char>>(two(b.mrom, o) as u16),
        ),
        o + 1 <= b.mrom.len() && o < 0xF000 ==> b.read8((0x1000 + o) as u64) == (
            b,
            Ok::<u8, Seq<char>>(b.mrom[o]),
        ),
        b.flash.state == FlashState::ReadArray && o < 0x200_0000 ==> {
            &&& o + 8 <= b.flash.data.len() ==> b.read64((0x2000_0000 + o) as u64) == (
                b,
                Ok::<u64, Seq<char>>(eight(b.flash.data, o) as u64),
            )
            &&& o + 4 <= b.flash.data.len() ==> b.read32((0x2000_0000 + o) as u64) == (
                b,
                Ok::<u32, Seq<char>>(four(b.flash.data, o) as u32),
            )
            &&& o + 2 <= b.flash.data.len() ==> b.read16((0x2000_0000 + o) as u64) == (
                b,
                Ok::<u16, Seq<char>>(two(b.flash.data, o) as u16),
            )
            &&& o + 1 <= b.flash.data.len() ==> b.read8((0x2000_0000 + o) as u64) == (
                b,
                Ok::<u8, Seq<char>>(b.flash.data[o]),
            )
        },
{
    reveal(BusView::read64);
    reveal(BusView::read32);
    reveal(BusView::read16);
    reveal(BusView::read8);
    law_little_endian(b.dram, o);
    law_little_endian(b.mrom, o);
    law_little_endian(b.flash.data, o);
}

/// A write to main memory puts the bytes of the value there, the low byte first.
#[verifier::rlimit(60)]
pub proof fn law_memory_bytes(b: BusView, o: int, v: u64)
    requires
        0 <= o < 0x7FFF_FFF9,
        o + 8 <= b.dram.len(),
    ensures
        ({
            let a = (0x8000_0000 + o) as u64;
            &&& b.write64(a, v).0.dram[o] == v % 256
            &&& b.write64(a, v).0.dram[o + 7] == v / 0x100_0000_0000_0000
            &&& eight(b.write64(a, v).0.dram, o) == v
            &&& four(b.write32(a, (v % 0x1_0000_0000) as u32).0.dram, o) == v % 0x1_0000_0000
            &&& two(b.write16(a, (v % 0x1_0000) as u16).0.dram, o) == v % 0x1_0000
            &&& b.write8(a, (v % 256) as u8).0.dram[o] == v % 256
            &&& b.write8(a, (v % 256) as u8).0.dram[o + 1] == b.dram[o + 1]
        }),
{
    reveal(BusView::write64);
    reveal(BusView::write32);
    reveal(BusView::write16);
    reveal(BusView::write8);
    crate::bytes::lemma_byte_ranges();
    crate::bytes::law_read_after_write(b.dram, o, 8, v as nat);
    crate::bytes::law_read_after_write(b.dram, o, 4, (v % 0x1_0000_0000) as nat);
    crate::bytes::law_read_after_write(b.dram, o, 2, (v % 0x1_0000) as nat);
    let a = (0x8000_0000 + o) as u64;
    law_little_endian(b.write64(a, v).0.dram, o);
    law_little_endian(b.write32(a, (v % 0x1_0000_0000) as u32).0.dram, o);
    law_little_endian(b.write16(a, (v % 0x1_0000) as u16).0.dram, o);
}

/// The low 32 bits.
pub open spec fn lower(v: u64) -> u32 {
    (v % 0x1_0000_0000) as u32
}

/// The high 32 bits.
pub open spec fn upper(v: u64) -> u32 {
    (v / 0x1_0000_0000) as u32
}

/// The timer: its deadline is at 0x200_4000 and its time at 0x200_BFF8, as doublewords or
/// as words with the low half first; the time cannot be written. The software interrupt is
/// at 0x200_0000.
#[verifier::rlimit(60)]
pub proof fn law_interruptor(b: BusView, v: u64)
    ensures
        ({
            let lo = lower(v);
            let hi = upper(v);
            let d = b.write64(0x200_4000, v).0;
            let e = b.write32(0x200_4000, lo).0.write32(0x200_4004, hi).0;
            &&& d == (BusView { mtimecmp: v, ..b })
            &&& e == d
            &&& d.read64(0x200_4000) == (d, Ok::<u64, Seq<char>>(v))
            &&& d.read32(0x200_4000) == (d, Ok::<u32, Seq<char>>(lo))
            &&& d.read32(0x200_4004) == (d, Ok::<u32, Seq<char>>(hi))
            &&& d.timer_due() == (b.mtime >= v)
            &&& b.read64(0x200_BFF8) == (b, Ok::<u64, Seq<char>>(b.mtime))
            &&& b.read32(0x200_BFF8) == (
                b,
                Ok::<u32, Seq<char>>(lower(b.mtime)),
            )
            &&& b.read32(0x200_BFFC) == (
                b,
                Ok::<u32, Seq<char>>(upper(b.mtime)),
            )
            &&& b.write64(0x200_BFF8, v).0 == b
            &&& b.write32(0x200_BFF8, lo).0 == b
            &&& b.write32(0x200_0000, lo).0 == (BusView { msip: v % 2, ..b })
            &&& b.write64(0x200_0000, v).0 == (BusView { msip: v % 2, ..b })
            &&& b.read32(0x200_0000).1 == Ok::<u32, Seq<char>>(lower(b.msip))
        }),
{
    reveal(BusView::read64);
    reveal(BusView::read32);
    reveal(BusView::write64);
    reveal(BusView::write32);
}

/// Bit `n` of `w`.
pub open spec fn word_bit(w: u32, n: int) -> bool {
    (w >> (n as u32)) & 1 == 1
}

/// Source `n` is to be delivered to context `k`: its bit is set in the pending words and in
/// the enable words of the context, and its priority is above the context's threshold.
pub open spec fn delivers(p: PlicView, k: int, n: int) -> bool {
    &&& 1 <= n < 1024
    &&& word_bit(p.pending[n / 32], n % 32)
    &&& word_bit(p.enable[32 * k + n / 32], n % 32)
    &&& p.priority[n] > p.threshold[k]
}

/// Bits of words.
#[verifier::rlimit(60)]
pub(crate) proof fn lemma_word_bits(w: u32, n: int)
    requires
        0 <= n < 32,
    ensures
        crate::plic::has_bit(w, n as u32) == word_bit(w, n),
        w & !w == 0,
{
    let i = n as u32;
    assert((w & (1u32 << i) != 0) == ((w >> i) & 1 == 1) && w & !w == 0) by (bit_vector)
        requires
            i < 32,
    ;
}

/// What the controller takes for active is what delivers.
#[verifier::rlimit(60)]
proof fn lemma_delivers(p: PlicView, k: int, n: int)
    requires
        p.wf(),
        0 <= k < 2,
    ensures
        p.is_active(k, n) == delivers(p, k, n),
{
    if 1 <= n < 1024 {
        lemma_word_bits(p.pending[n / 32], n % 32);
        lemma_word_bits(p.enable[32 * k + n / 32], n % 32);
    }
}

/// The line of context `k` is high exactly when some source delivers to it. The claim
/// register, at 0xC20_0004 for machine and at 0xC20_1004 for supervisor mode, then reads as
/// the one with the highest priority, the lowest number among equals, and else as zero;
/// reading it takes that source's pending bit, and nothing else changes.
#[verifier::rlimit(60)]
pub proof fn law_claims(b: BusView, k: int)
    requires
        b.plic.wf(),
        0 <= k < 2,
    ensures
        ({
            let (s, r) = b.read32((0xC20_0004 + 0x1000 * k) as u64);
            let p = b.plic;
            &&& r matches Ok(n) && {
                &&& n < 1024
                &&& n != 0 <==> exists|m: int| delivers(p, k, m)
                &&& p.has_pending(k) <==> exists|m: int| delivers(p, k, m)
                &&& n != 0 ==> delivers(p, k, n as int)
                &&& forall|m: int| #[trigger]
                    delivers(p, k, m) ==> p.priority[m] < p.priority[n as int] || (p.priority[m]
                        == p.priority[n as int] && n <= m)
                &&& s == BusView { plic: PlicView { pending: s.plic.pending, ..p }, ..b }
                &&& s.plic.pending.len() == 32
                &&& forall|m: int|
                    #![trigger s.plic.pending[m / 32]]
                    0 <= m < 1024 ==> word_bit(s.plic.pending[m / 32], m % 32) == (word_bit(
                        p.pending[m / 32],
                        m % 32,
                    ) && (n == 0 || m != n))
            }
        }),
{
    reveal(BusView::read32);
    let p = b.plic;
    law_claim_is_best(p, k);
    let n = p.best(k);
    assert forall|m: int| #[trigger] delivers(p, k, m) == p.is_active(k, m) by {
        lemma_delivers(p, k, m);
    }
    assert(p.has_pending(k) <==> exists|m: int| delivers(p, k, m)) by {
        if p.has_pending(k) {
            let m = choose|m: int| p.is_active(k, m);
            assert(delivers(p, k, m));
        }
    }
    let q = p.claim(k);
    assert forall|m: int| #![trigger q.pending[m / 32]] 0 <= m < 1024 implies word_bit(
        q.pending[m / 32],
        m % 32,
    ) == (word_bit(p.pending[m / 32], m % 32) && (n == 0 || m != n)) by {
        lemma_word_bits(q.pending[m / 32], m % 32);
        lemma_word_bits(p.pending[m / 32], m % 32);
        if n != 0 {
            law_pending_of_one(p, n, m);
        }
    }
}

/// The controller's registers: the priority of source `n` at 0xC00_0000 + 4 * n, of three
/// bits, as the thresholds at 0xC20_0000 and 0xC20_1000; 32 enable bits of context `k` in
/// word `w` at 0xC00_2000 + 0x80 * k + 4 * w. A write changes the register that it names.
#[verifier::rlimit(60)]
pub proof fn law_controller_registers(b: BusView, n: int, k: int, w: int, v: u32)
    requires
        b.plic.wf(),
        0 <= n < 1024,
        0 <= k < 2,
        0 <= w < 32,
    ensures
        ({
            let p = b.plic;
            let a = b.write32((0xC00_0000 + 4 * n) as u64, v).0;
            let t = b.write32((0xC20_0000 + 0x1000 * k) as u64, v).0;
            let e = b.write32((0xC00_2000 + 0x80 * k + 4 * w) as u64, v).0;
            &&& a.plic.priority == p.priority.update(n, v % 8)
            &&& a.plic.threshold == p.threshold && a.plic.enable == p.enable
            &&& a.read32((0xC00_0000 + 4 * n) as u64).1 == Ok::<u32, Seq<char>>(v % 8)
            &&& t.plic.threshold == p.threshold.update(k, v % 8)
            &&& t.plic.priority == p.priority && t.plic.enable == p.enable
            &&& t.read32((0xC20_0000 + 0x1000 * k) as u64).1 == Ok::<u32, Seq<char>>(v % 8)
            &&& e.plic.enable == p.enable.update(32 * k + w, v)
            &&& e.plic.priority == p.priority && e.plic.threshold == p.threshold
            &&& e.read32((0xC00_2000 + 0x80 * k + 4 * w) as u64).1 == Ok::<u32, Seq<char>>(v)
            &&& b.read32((0xC00_1000 + 4 * w) as u64).1 == Ok::<u32, Seq<char>>(p.pending[w])
        }),
{
    reveal(BusView::read32);
    reveal(BusView::write32);
}

/// The serial port: a byte written to 0x1000_0000 is sent, and reading there takes the
/// first byte received. The line status at 0x1000_0005 says whether one is there and that
/// the transmitter is free. The interrupt-enable register is at 0x1000_0001. Each access
/// lets source 10 of the interrupt controller follow the line.
#[verifier::rlimit(60)]
pub proof fn law_serial_port(b: BusView, v: u8)
    requires
        b.plic.wf(),
    ensures
        ({
            let s = b.write8(0x1000_0000, v).0;
            let (t, r) = b.read8(0x1000_0000);
            let e = b.write8(0x1000_0001, v).0;
            &&& s.uart.sent == b.uart.sent.push(v)
            &&& s.uart.input == b.uart.input
            &&& s.dram == b.dram
            &&& t.uart.sent == b.uart.sent
            &&& b.uart.input.len() > 0 ==> r == Ok::<u8, Seq<char>>(b.uart.input[0])
                && t.uart.input == b.uart.input.drop_first()
            &&& b.uart.input.len() == 0 ==> r == Ok::<u8, Seq<char>>(0) && t.uart.input
                == b.uart.input
            &&& b.read8(0x1000_0005).1 == Ok::<u8, Seq<char>>(
                if b.uart.input.len() > 0 {
                    0x61
                } else {
                    0x60
                },
            )
            &&& e.uart.ier == v
            &&& e.read8(0x1000_0001).1 == Ok::<u8, Seq<char>>(v)
            &&& v & 1 != 0 && b.uart.input.len() > 0 ==> word_bit(e.plic.pending[0], 10)
            &&& v & 1 == 0 && v & 2 == 0 ==> !word_bit(e.plic.pending[0], 10)
            &&& b.uart.ier & 2 != 0 ==> word_bit(s.plic.pending[0], 10)
        }),
{
    reveal(BusView::read8);
    reveal(BusView::write8);
    let e = b.write8(0x1000_0001, v).0;
    let s = b.write8(0x1000_0000, v).0;
    law_pending_of_one(b.plic, 10, 10);
    lemma_word_bits(e.plic.pending[0], 10);
    lemma_word_bits(s.plic.pending[0], 10);
    assert(10int / 32 == 0 && 10int % 32 == 10);
    assert(e.plic.is_pending(10) == e.uart.has_interrupt());
    assert(s.plic.is_pending(10) == s.uart.has_interrupt());
}

/// The clock shows the host's seconds at 0x10_1000, low half first. The block device is at
/// 0x1000_2000 and the entropy device at 0x1000_7000: they say "virt", version 1, block
/// device (2) and entropy source (4). Writing zero to the notify register, 0x50, rings
/// the bell of each, and nothing else does.
#[verifier::rlimit(60)]
pub proof fn law_device_identities(b: BusView, v: u32, o: u64)
    requires
        b.blk is Some,
        o < 0x1000,
    ensures
        b.read32(0x10_1000).1 == Ok::<u32, Seq<char>>((b.rtc % 0x1_0000_0000) as u32),
        b.read32(0x10_1004).1 == Ok::<u32, Seq<char>>((b.rtc / 0x1_0000_0000) as u32),
        b.read32(0x1000_2000).1 == Ok::<u32, Seq<char>>(0x7472_6976),
        b.read32(0x1000_2004).1 == Ok::<u32, Seq<char>>(1),
        b.read32(0x1000_2008).1 == Ok::<u32, Seq<char>>(2),
        b.read32(0x1000_2100).1 == Ok::<u32, Seq<char>>(
            (b.blk->0.capacity % 0x1_0000_0000) as u32,
        ),
        b.read32(0x1000_2104).1 == Ok::<u32, Seq<char>>(
            (b.blk->0.capacity / 0x1_0000_0000) as u32,
        ),
        b.read32(0x1000_7000).1 == Ok::<u32, Seq<char>>(0x7472_6976),
        b.read32(0x1000_7004).1 == Ok::<u32, Seq<char>>(1),
        b.read32(0x1000_7008).1 == Ok::<u32, Seq<char>>(4),
        b.write32((0x1000_2000 + o) as u64, v).0.bell == (if o == 0x50 && v == 0 {
            Some(Bell::Block)
        } else {
            b.bell
        }),
        b.write32((0x1000_7000 + o) as u64, v).0.bell == (if o == 0x50 && v == 0 {
            Some(Bell::Rng)
        } else {
            b.bell
        }),
{
    reveal(BusView::read32);
    reveal(BusView::write32);
}

/// The block device's queue registers read back what the driver wrote for queue 0, and
/// clearing all of the interrupt status takes the line down.
#[verifier::rlimit(60)]
pub proof fn law_block_queue_registers(b: BusView, v: u32)
    requires
        b.plic.wf(),
        b.blk matches Some(k) && k.queue_sel == 0,
    ensures
        ({
            let k = b.blk->0;
            let n = b.write32(0x1000_2038, v).0.blk->0;
            let a = b.write32(0x1000_203C, v).0;
            let p = b.write32(0x1000_2040, v).0;
            let s = b.write32(0x1000_2070, v).0;
            let z = b.write32(0x1000_2064, k.interrupt_status).0;
            &&& n == (crate::virtio::BlkView { queue_num: v, ..k })
            &&& a.read32(0x1000_203C).1 == Ok::<u32, Seq<char>>(v)
            &&& a.blk->0.queue_align == v
            &&& p.read32(0x1000_2040).1 == Ok::<u32, Seq<char>>(v)
            &&& p.blk->0.queue_pfn == v
            &&& s.read32(0x1000_2070).1 == Ok::<u32, Seq<char>>(v)
            &&& b.read32(0x1000_2060).1 == Ok::<u32, Seq<char>>(k.interrupt_status)
            &&& z.blk->0.interrupt_status == 0
            &&& !word_bit(z.plic.pending[0], 2)
        }),
{
    reveal(BusView::read32);
    reveal(BusView::write32);
    let k = b.blk->0;
    let i = k.interrupt_status;
    lemma_word_bits(i, 0);
    let z = b.write32(0x1000_2064, i).0;
    law_pending_of_one(b.plic, 2, 2);
    lemma_word_bits(z.plic.pending[0], 2);
    assert(2int / 32 == 0 && 2int % 32 == 2);
}

} // verus!
