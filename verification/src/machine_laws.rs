//! What holds of the machine as a whole: how it starts, how its time passes, what nothing
//! answers to, and what its control registers show.

#[allow(unused_imports)]
use crate::bus::BusView;
#[allow(unused_imports)]
use crate::cpu::memory_laws::untranslated;
#[allow(unused_imports)]
use crate::cpu::{cpu_reset, CpuView, Mode};
#[allow(unused_imports)]
use crate::csr::{csr_read, csr_write, MSTATUS, SATP};
#[allow(unused_imports)]
use crate::machine::{booted, timed};
#[allow(unused_imports)]
use crate::mmu::{law_identity, law_translation_outcome, AccessType};
#[allow(unused_imports)]
use crate::trap::{Exception, Trap};
use vstd::prelude::*;

verus! {

/// The hart starts in machine mode in the boot ROM, with its number, zero, in x10 and the
/// address of the device tree in x11; the other registers are zero.
pub proof fn law_start(bus: BusView, i: int)
    requires
        0 <= i < 32,
    ensures
        ({
            let c = booted(cpu_reset(bus));
            &&& c.pc == 0x1000
            &&& c.mode == Mode::Machine
            &&& c.regs.len() == 32 && c.f_regs.len() == 32
            &&& c.regs[i] == (if i == 11 {
                0x8700_0000u64
            } else {
                0
            })
            &&& c.bus == bus
            &&& c.request is None && c.reservation is None
        }),
{
}

/// Every 10000 steps the time advances by 1000 ticks, and otherwise it stands; nothing else
/// changes.
pub proof fn law_time_passes(c: CpuView, count: u64)
    ensures
        timed(c, count) == (CpuView {
            bus: BusView {
                mtime: if count as int % 10000 == 0 {
                    ((c.bus.mtime + 1000) % 0x1_0000_0000_0000_0000) as u64
                } else {
                    c.bus.mtime
                },
                ..c.bus
            },
            ..c
        }),
{
}

/// Where nothing answers a load fails, and a store of a doubleword too, with the access
/// fault and the address; nothing changes but the address of the last store.
pub proof fn law_nothing_there(c: CpuView, va: u64, v: u64)
    requires
        untranslated(c),
        0x4000_0000 <= va < 0x8000_0000,
        va % 4096 <= 4088,
    ensures
        c.load(va, 8) == (
            c,
            Err::<u64, (Trap, u64)>((Trap::Exception(Exception::LoadAccessFault), va)),
        ),
        c.load(va, 4) == (
            c,
            Err::<u64, (Trap, u64)>((Trap::Exception(Exception::LoadAccessFault), va)),
        ),
        c.load(va, 1) == (
            c,
            Err::<u64, (Trap, u64)>((Trap::Exception(Exception::LoadAccessFault), va)),
        ),
        c.store(va, v, 8) == (
            CpuView { store_addr: va, ..c },
            Err::<(), (Trap, u64)>((Trap::Exception(Exception::StoreAMOAccessFault), va)),
        ),
{
    reveal(CpuView::load);
    reveal(CpuView::store);
    reveal(BusView::read64);
    reveal(BusView::read32);
    reveal(BusView::read8);
    reveal(BusView::write64);
    let satp = csr_read(c.csr, SATP);
    let mstatus = csr_read(c.csr, MSTATUS);
    law_identity(c.bus, va, AccessType::Load, c.mode, satp, mstatus);
    law_identity(c.bus, va, AccessType::Store, c.mode, satp, mstatus);
    assert(c == CpuView { bus: c.bus, ..c });
}

/// Beyond its last byte main memory does not answer.
pub proof fn law_memory_ends(b: BusView, o: int, v: u64)
    requires
        0 <= o < 0x8000_0000,
    ensures
        o + 8 > b.dram.len() ==> b.read64((0x8000_0000 + o) as u64).1 is Err && b.write64(
            (0x8000_0000 + o) as u64,
            v,
        ).1 is Err && b.write64((0x8000_0000 + o) as u64, v).0.dram == b.dram,
        o + 4 > b.dram.len() ==> b.read32((0x8000_0000 + o) as u64).1 is Err,
        o + 2 > b.dram.len() ==> b.read16((0x8000_0000 + o) as u64).1 is Err,
        o + 1 > b.dram.len() ==> b.read8((0x8000_0000 + o) as u64).1 is Err,
{
    reveal(BusView::read64);
    reveal(BusView::read32);
    reveal(BusView::read16);
    reveal(BusView::read8);
    reveal(BusView::write64);
}

/// A load that fails within a page does so with the address as the trap value, and with the
/// page fault or the access fault of loads; so do stores and fetches with theirs.
pub proof fn law_failed_accesses(c: CpuView, va: u64, v: u64, size: u64)
    requires
        va % 4096 + size <= 4096,
        c.pc % 4096 < 0xFFE,
    ensures
        c.load(va, size).1 matches Err(e) ==> e.1 == va && (e.0 == Trap::Exception(
            Exception::LoadPageFault,
        ) || e.0 == Trap::Exception(Exception::LoadAccessFault)),
        c.store(va, v, size).1 matches Err(e) ==> e.1 == va && (e.0 == Trap::Exception(
            Exception::StoreAMOPageFault,
        ) || e.0 == Trap::Exception(Exception::StoreAMOAccessFault)),
        c.fetch().1 matches Err(e) ==> e.1 == c.pc && (e.0 == Trap::Exception(
            Exception::InstructionPageFault,
        ) || e.0 == Trap::Exception(Exception::InstructionAccessFault) || (c.pc % 2 == 1 && e.0
            == Trap::Exception(Exception::InstructionAddressMisaligned))),
{
    reveal(CpuView::load);
    reveal(CpuView::store);
    reveal(CpuView::fetch);
    let satp = csr_read(c.csr, SATP);
    let mstatus = csr_read(c.csr, MSTATUS);
    law_translation_outcome(c.bus, va, AccessType::Load, c.mode, satp, mstatus);
    law_translation_outcome(c.bus, va, AccessType::Store, c.mode, satp, mstatus);
    law_translation_outcome(c.bus, c.pc, AccessType::Instruction, c.mode, satp, mstatus);
}

/// What the control registers show, by number: the supervisor's status, enable and pending
/// bits are parts of the machine's (0x100 of 0x300, 0x104 of 0x304, 0x144 of 0x344); the
/// delegation of interrupts (0x303) has sixteen bits of which four are fixed; the page-table
/// register (0x180) takes schemes 0, 8, 9 and 10; the rest of the machine's handler registers
/// keep what is written.
pub proof fn law_register_masks(m: Map<u16, u64>, v: u64)
    ensures
        csr_read(m, 0x100) == csr_read(m, 0x300) & 0x8000_0003_000D_E762,
        csr_read(m, 0x104) == csr_read(m, 0x304) & 0x222,
        csr_read(m, 0x144) == csr_read(m, 0x344) & 0x222,
        csr_read(csr_write(m, 0x303, v), 0x303) == (v & 0xFFFF) | 0x1444,
        (v >> 60) & 0xF == 8 || (v >> 60) & 0xF == 9 || (v >> 60) & 0xF == 10 || (v >> 60) & 0xF == 0
            ==> csr_read(csr_write(m, 0x180, v), 0x180) == v,
        !((v >> 60) & 0xF == 8 || (v >> 60) & 0xF == 9 || (v >> 60) & 0xF == 10 || (v >> 60) & 0xF
            == 0) ==> csr_write(m, 0x180, v) == m,
        csr_read(csr_write(m, 0x305, v), 0x305) == v,
        csr_read(csr_write(m, 0x341, v), 0x341) == v,
        csr_read(csr_write(m, 0x342, v), 0x342) == v,
        csr_read(csr_write(m, 0x343, v), 0x343) == v,
        csr_read(csr_write(m, 0x105, v), 0x105) == v,
        csr_read(csr_write(m, 0x141, v), 0x141) == v,
        csr_read(csr_write(m, 0x142, v), 0x142) == v,
        csr_read(csr_write(m, 0x302, v), 0x302) == v,
        csr_read(csr_write(m, 0x304, v), 0x304) == v,
{
}

} // verus!
