//! The registers of the VirtIO devices and of the serial port by number, and the lines from
//! the devices to the interrupt controller.

#[allow(unused_imports)]
use crate::bus::{BusView, DRAM_BASE};
#[allow(unused_imports)]
use crate::csr::{csr_read, csr_reset, csr_write, stored};
#[allow(unused_imports)]
use crate::device_laws::{lemma_word_bits, word_bit};
#[allow(unused_imports)]
use crate::plic::{law_pending_of_one, plic_reset, PlicView};
#[allow(unused_imports)]
use crate::uart::uart_reset;
#[allow(unused_imports)]
use crate::virtio::{blk_reset, BlkStepView, BlkView, DiskReplyView};
#[allow(unused_imports)]
use crate::virtio_rng::{RngStepView, RngView};
use vstd::prelude::*;

verus! {

/// The registers of the block device that only read: vendor, features (of the first 32
/// only), the largest queue, the segment limits and the block size.
#[verifier::rlimit(60)]
pub proof fn law_block_constants(b: BlkView)
    ensures
        b.read32(0x00C) == 0x554D_4551,
        b.read32(0x010) == (if b.device_features_sel == 0 {
            0x246u32
        } else {
            0
        }),
        b.read32(0x034) == 256,
        b.read32(0x108) == 0x2_0000,
        b.read32(0x10C) == 128,
        b.read32(0x114) == 512,
{
}

/// The queue registers of both devices name queue 0 only: for another queue the size and
/// the page are not taken, and the page reads as zero.
#[verifier::rlimit(60)]
pub proof fn law_other_queues(b: BlkView, r: RngView, v: u32)
    ensures
        b.queue_sel != 0 ==> b.write32(0x038, v) == b && b.write32(0x040, v) == b && b.read32(0x040)
            == 0,
        b.queue_sel == 0 ==> b.write32(0x040, v) == (BlkView {
            queue_pfn: v,
            queue_ready: v != 0,
            ..b
        }),
        b.write32(0x030, v) == (BlkView { queue_sel: v, ..b }),
        b.write32(0x014, v) == (BlkView { device_features_sel: v, ..b }),
        r.queue_sel != 0 ==> r.write32(0x038, v) == r && r.write32(0x040, v) == r && r.read32(0x040)
            == 0,
        r.queue_sel == 0 ==> r.write32(0x038, v) == (RngView { queue_num: v, ..r }) && r.write32(
            0x040,
            v,
        ) == (RngView { queue_pfn: v, queue_ready: v != 0, ..r }),
        r.queue_sel == 0 ==> r.write32(0x040, v).read32(0x040) == v,
        r.write32(0x030, v) == (RngView { queue_sel: v, ..r }),
        r.read32(0x060) == r.interrupt_status,
        r.read32(0x034) == 64,
        r.read32(0x010) == 0,
        v != 0 ==> r.write32(0x070, v).read32(0x070) == v,
{
}

/// When serving a queue raised a device's interrupt, its source is pending at the interrupt
/// controller: 2 of the block device, 7 of the entropy device.
#[verifier::rlimit(60)]
pub proof fn law_device_lines(b: BusView, reply: DiskReplyView, bytes: Seq<u8>)
    requires
        b.plic.wf(),
        b.blk is Some,
    ensures
        b.process_blk().1 == BlkStepView::Done(true) ==> word_bit(
            b.process_blk().0.plic.pending[0],
            2,
        ),
        b.resume_blk(reply).1 == BlkStepView::Done(true) ==> word_bit(
            b.resume_blk(reply).0.plic.pending[0],
            2,
        ),
        b.process_rng().1 == RngStepView::Done(true) ==> word_bit(
            b.process_rng().0.plic.pending[0],
            7,
        ),
        b.resume_rng(bytes).1 == RngStepView::Done(true) ==> word_bit(
            b.resume_rng(bytes).0.plic.pending[0],
            7,
        ),
        b.process_blk().0.dram == b.blk->0.process(b.dram, 0x8000_0000).1,
        b.process_rng().0.dram == b.rng.process(b.dram, 0x8000_0000).1,
{
    law_pending_of_one(b.plic, 2, 2);
    law_pending_of_one(b.plic, 7, 7);
    assert(2int / 32 == 0 && 2int % 32 == 2 && 7int / 32 == 0 && 7int % 32 == 7);
    lemma_word_bits(b.process_blk().0.plic.pending[0], 2);
    lemma_word_bits(b.resume_blk(reply).0.plic.pending[0], 2);
    lemma_word_bits(b.process_rng().0.plic.pending[0], 7);
    lemma_word_bits(b.resume_rng(bytes).0.plic.pending[0], 7);
}

/// The interrupt-status register of the serial port, at 0x1000_0002: 4 while a byte waits
/// and its interrupt is enabled, else 2 while the transmitter's is raised and enabled, else
/// 1. The line, modem and scratch registers keep what is written.
#[verifier::rlimit(60)]
pub proof fn law_serial_status(b: BusView, v: u8)
    ensures
        b.read8(0x1000_0002).1 == Ok::<u8, Seq<char>>(
            if b.uart.ier & 1 != 0 && b.uart.input.len() > 0 {
                4
            } else if b.uart.ier & 2 != 0 && b.uart.thr_ipending {
                2
            } else {
                1
            },
        ),
        b.write8(0x1000_0003, v).0.read8(0x1000_0003).1 == Ok::<u8, Seq<char>>(v),
        b.write8(0x1000_0004, v).0.read8(0x1000_0004).1 == Ok::<u8, Seq<char>>(v),
        b.write8(0x1000_0007, v).0.read8(0x1000_0007).1 == Ok::<u8, Seq<char>>(v),
        b.write8(0x1000_0003, v).0.uart.ier == b.uart.ier,
        b.write8(0x1000_0000, v).0.uart.ier == b.uart.ier,
        b.write8(0x1000_0000, v).0.uart.thr_ipending,
{
    reveal(BusView::read8);
    reveal(BusView::write8);
}

/// Ones written to a word of pending bits of the interrupt controller, at 0xC00_1000 + 4 *
/// `w`, clear those bits; the other words and registers stay. Completing a source, at
/// 0xC20_0004 and 0xC20_1004, changes nothing. Source 10 follows the serial port all along.
#[verifier::rlimit(60)]
pub proof fn law_pending_writes(b: BusView, w: int, v: u32, m: int)
    requires
        b.plic.wf(),
        0 <= w < 32,
        0 <= m < 1024,
        m != 10,
    ensures
        ({
            let s = b.write32((0xC00_1000 + 4 * w) as u64, v).0;
            let p = b.plic;
            let word = if m / 32 == w {
                p.pending[w] & !v
            } else {
                p.pending[m / 32]
            };
            &&& word_bit(s.plic.pending[m / 32], m % 32) == word_bit(word, m % 32)
            &&& s.plic == PlicView { pending: s.plic.pending, ..p }
            &&& word_bit(s.plic.pending[0], 10) == b.uart.has_interrupt()
            &&& s.dram == b.dram && s.uart == b.uart
            &&& b.write32(0xC20_0004, v).0 == b.sync_uart()
            &&& b.write32(0xC20_1004, v).0 == b.sync_uart()
        }),
{
    reveal(BusView::write32);
    let s = b.write32((0xC00_1000 + 4 * w) as u64, v).0;
    let q = b.plic.write32((0x1000 + 4 * w) as u64, v);
    assert(q.wf());
    law_pending_of_one(q, 10, m);
    law_pending_of_one(q, 10, 10);
    lemma_word_bits(s.plic.pending[m / 32], m % 32);
    lemma_word_bits(q.pending[m / 32], m % 32);
    lemma_word_bits(s.plic.pending[0], 10);
    assert(10int / 32 == 0 && 10int % 32 == 10);
}

/// The rest of the control registers by number: the trigger information (0x7A4) reads as
/// 0x44, there are two triggers to select (0x7A0), one of the protection registers (0x3C0)
/// is always zero, the supervisor's environment (0x10A) reads as the machine's (0x30A), and
/// the hypervisor's status registers (0x600 and 0x200) say 64 bits.
pub proof fn law_other_registers(m: Map<u16, u64>, v: u64)
    ensures
        csr_read(m, 0x7A4) == 0x44 && csr_write(m, 0x7A4, v) == m,
        csr_read(m, 0x3C0) == 0 && csr_write(m, 0x3C0, v) == m,
        v < 2 ==> csr_read(csr_write(m, 0x7A0, v), 0x7A0) == v,
        v >= 2 ==> csr_write(m, 0x7A0, v) == m,
        csr_read(m, 0x10A) == csr_read(m, 0x30A),
        csr_read(csr_write(m, 0x30A, v), 0x10A) == v,
        csr_read(csr_write(m, 0x600, v), 0x600) == (v & 0xFFFF_FFFC_FFFF_FFFF) | 0x2_0000_0000,
        csr_read(csr_write(m, 0x200, v), 0x200) == (v & 0xFFFF_FFFC_FFFF_FFFF) | 0x2_0000_0000,
        csr_read(csr_write(m, 0x301, v), 0x301) == (v & 0x3FFF_FFFF_FFFF_FFFF)
            | 0x8000_0000_0000_0000,
{
}

/// After reset the machine says that it is one of 64 bits with the extensions A, C, D, F,
/// H, I, M, S and U; the supervisor's deadline is never; and the registers that are not
/// named here are zero.
pub proof fn law_reset_registers(k: u16)
    ensures
        stored(csr_reset(), 0x301) == 0x8000_0000_0000_0000 + 1 + 4 + 8 + 32 + 128 + 256 + 4096
            + 0x4_0000 + 0x10_0000,
        stored(csr_reset(), 0x300) == 0xA_0000_0000,
        stored(csr_reset(), 0x200) == 0xA_0000_0000,
        stored(csr_reset(), 0x600) == 0x2_0000_0000,
        stored(csr_reset(), 0x302) == 0xF4_B509,
        stored(csr_reset(), 0x303) == 0x1666,
        stored(csr_reset(), 0x30A) == 0xA000_0000_0000_0000,
        stored(csr_reset(), 0x14D) == 0xFFFF_FFFF_FFFF_FFFF,
        k != 0x301 && k != 0x300 && k != 0x200 && k != 0x600 && k != 0x302 && k != 0x303 && k
            != 0x30A && k != 0x14D ==> stored(csr_reset(), k) == 0,
{
}

/// After reset no source of the interrupt controller has a priority, is pending or enabled,
/// and the serial port has neither sent nor received anything and raises no interrupt.
pub proof fn law_reset_devices(n: int, w: int, e: int, k: int)
    requires
        0 <= n < 1024,
        0 <= w < 32,
        0 <= e < 64,
        0 <= k < 2,
    ensures
        plic_reset().wf(),
        plic_reset().priority[n] == 0 && plic_reset().pending[w] == 0,
        plic_reset().enable[e] == 0 && plic_reset().threshold[k] == 0,
        uart_reset().sent.len() == 0 && uart_reset().input.len() == 0,
        uart_reset().recent.len() == 0 && !uart_reset().panic_detected,
        uart_reset().ier == 0 && uart_reset().lcr == 0,
        uart_reset().mcr == 0 && uart_reset().scr == 0,
{
}

} // verus!
