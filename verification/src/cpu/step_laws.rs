//! What one step does with memory: where instructions and data come from, and what is not
//! an instruction.

#[allow(unused_imports)]
use crate::bus::{in_dram, BusView, DRAM_BASE};
#[allow(unused_imports)]
use crate::cpu::dispatch::{lemma_dispatch_misc_mem, same};
#[allow(unused_imports)]
use crate::cpu::formats::{gives, i_word, lemma_words, named, reg, with_reg, wrap};
#[allow(unused_imports)]
use crate::cpu::integer_laws::goes_to;
#[allow(unused_imports)]
use crate::cpu::interrupt_laws::{machine_goes, supervisor_goes};
#[allow(unused_imports)]
use crate::cpu::memory::bus_read;
#[allow(unused_imports)]
use crate::cpu::memory_laws::untranslated;
#[allow(unused_imports)]
use crate::cpu::system_laws::illegal_here;
#[allow(unused_imports)]
use crate::cpu::{CpuView, Mode, Outcome};
#[allow(unused_imports)]
use crate::csr::{csr_read, csr_write, MSTATUS, SATP, STIMECMP, TIME};
#[allow(unused_imports)]
use crate::device_laws::law_memories;
#[allow(unused_imports)]
use crate::mmu::{effective_mode, law_identity, AccessType};
#[allow(unused_imports)]
use crate::queue_laws::{eight, four, law_little_endian, two};
#[allow(unused_imports)]
use crate::trap::{Exception, Trap};
use vstd::prelude::*;

verus! {

/// Untranslated, a load within a page of main memory gives the bytes at its address, the
/// low byte first, and changes nothing.
#[verifier::rlimit(60)]
pub proof fn law_load_value(c: CpuView, o: int)
    requires
        untranslated(c),
        0 <= o < 0x8000_0000,
        o % 4096 <= 4088,
        o + 8 <= c.bus.dram.len(),
    ensures
        ({
            let va = (0x8000_0000 + o) as u64;
            let d = c.bus.dram;
            &&& c.load(va, 8) == (c, Ok::<u64, (Trap, u64)>(eight(d, o) as u64))
            &&& c.load(va, 4) == (c, Ok::<u64, (Trap, u64)>(four(d, o) as u64))
            &&& c.load(va, 2) == (c, Ok::<u64, (Trap, u64)>(two(d, o) as u64))
            &&& c.load(va, 1) == (c, Ok::<u64, (Trap, u64)>(d[o] as u64))
        }),
{
    let va = (0x8000_0000 + o) as u64;
    reveal(CpuView::load);
    law_identity(
        c.bus,
        va,
        AccessType::Load,
        c.mode,
        csr_read(c.csr, SATP),
        csr_read(c.csr, MSTATUS),
    );
    law_memories(c.bus, o);
    assert(c == CpuView { bus: c.bus, ..c });
}

/// Untranslated, a store within a page of main memory puts the low bytes of the value at
/// its address, the low byte first, and changes no other byte.
#[verifier::rlimit(60)]
pub proof fn law_store_value(c: CpuView, o: int, v: u64, i: int)
    requires
        untranslated(c),
        0 <= o < 0x7FFF_FFF9,
        o % 4096 <= 4088,
        o + 8 <= c.bus.dram.len(),
        0 <= i < c.bus.dram.len(),
    ensures
        ({
            let va = (0x8000_0000 + o) as u64;
            let d = c.bus.dram;
            let s8 = c.store(va, v, 8).0.bus.dram;
            let s4 = c.store(va, v, 4).0.bus.dram;
            let s2 = c.store(va, v, 2).0.bus.dram;
            let s1 = c.store(va, v, 1).0.bus.dram;
            &&& c.store(va, v, 8).1 is Ok && eight(s8, o) == v
            &&& c.store(va, v, 4).1 is Ok && four(s4, o) == v % 0x1_0000_0000
            &&& c.store(va, v, 2).1 is Ok && two(s2, o) == v % 0x1_0000
            &&& c.store(va, v, 1).1 is Ok && s1[o] == v % 0x100
            &&& !(o <= i < o + 8) ==> s8[i] == d[i]
            &&& !(o <= i < o + 4) ==> s4[i] == d[i]
            &&& !(o <= i < o + 2) ==> s2[i] == d[i]
            &&& i != o ==> s1[i] == d[i]
        }),
{
    let va = (0x8000_0000 + o) as u64;
    let b = c.bus;
    reveal(CpuView::store);
    reveal(BusView::write64);
    reveal(BusView::write32);
    reveal(BusView::write16);
    reveal(BusView::write8);
    let c0 = CpuView { store_addr: va, ..c };
    law_identity(
        b,
        va,
        AccessType::Store,
        c.mode,
        csr_read(c.csr, SATP),
        csr_read(c.csr, MSTATUS),
    );
    crate::bytes::lemma_byte_ranges();
    crate::bytes::law_read_after_write(b.dram, o, 8, v as nat);
    crate::bytes::law_read_after_write(b.dram, o, 4, (v % 0x1_0000_0000) as nat);
    crate::bytes::law_read_after_write(b.dram, o, 2, (v % 0x1_0000) as nat);
    law_little_endian(c.store(va, v, 8).0.bus.dram, o);
    law_little_endian(c.store(va, v, 4).0.bus.dram, o);
    law_little_endian(c.store(va, v, 2).0.bus.dram, o);
}

/// In machine mode the instruction is what stands at the program counter: two bytes, or
/// four if the lowest two bits of them are ones. An odd program counter is misaligned.
#[verifier::rlimit(60)]
pub proof fn law_fetch(c: CpuView, o: int)
    requires
        c.mode == Mode::Machine,
        c.pc == 0x8000_0000 + o,
        0 <= o < 0x7FFF_FFF0,
        o + 4 <= c.bus.dram.len(),
    ensures
        ({
            let d = c.bus.dram;
            &&& o % 2 == 0 && d[o] % 4 != 3 ==> c.fetch() == (
                c,
                Ok::<u32, (Trap, u64)>(two(d, o) as u32),
            )
            &&& o % 2 == 0 && d[o] % 4 == 3 ==> c.fetch() == (
                c,
                Ok::<u32, (Trap, u64)>(four(d, o) as u32),
            )
            &&& o % 2 == 1 ==> c.fetch() == (
                c,
                Err::<u32, (Trap, u64)>(
                    (Trap::Exception(Exception::InstructionAddressMisaligned), c.pc),
                ),
            )
        }),
{
    reveal(CpuView::fetch);
    let satp = csr_read(c.csr, SATP);
    let mstatus = csr_read(c.csr, MSTATUS);
    law_identity(c.bus, c.pc, AccessType::Instruction, c.mode, satp, mstatus);
    law_identity(
        c.bus,
        c.pc.wrapping_add(2),
        AccessType::Instruction,
        c.mode,
        satp,
        mstatus,
    );
    law_memories(c.bus, o);
    law_memories(c.bus, o + 2);
    assert(c == CpuView { bus: c.bus, ..c });
}

/// A step without an interrupt fetches and executes; a trap of either is taken with its
/// value.
#[verifier::rlimit(60)]
pub proof fn law_step_order(c: CpuView)
    requires
        c.poll().1 is None,
    ensures
        ({
            let c0 = CpuView { inst_count: c.inst_count.wrapping_add(1), ..c };
            let (s2, f) = c0.poll().0.fetch();
            &&& c0.poll().1 is None
            &&& f matches Err(e) ==> c.step() == s2.trap(e.0, e.1)
            &&& f matches Ok(i) ==> (s2.exec(i).1 matches Err(e) ==> c.step() == s2.exec(i).0.trap(
                e.0,
                e.1,
            ))
            &&& f matches Ok(i) ==> (s2.exec(i).1 is Ok && s2.exec(i).0.bus.bell is None ==> c.step()
                == s2.exec(i).0)
        }),
{
    reveal(CpuView::poll);
}

/// The opcodes of the instructions; with any other a 32-bit instruction is illegal, and
/// changes nothing.
#[verifier::spinoff_prover]
#[verifier::rlimit(100)]
pub proof fn law_unknown_opcodes(c: CpuView, inst: u32)
    requires
        inst % 4 == 3,
        ({
            let k = inst % 128;
            !(k == 0x03 || k == 0x07 || k == 0x0F || k == 0x13 || k == 0x17 || k == 0x1B || k == 0x23
                || k == 0x27 || k == 0x2F || k == 0x33 || k == 0x37 || k == 0x3B || k == 0x43 || k
                == 0x47 || k == 0x4B || k == 0x4F || k == 0x53 || k == 0x63 || k == 0x67 || k
                == 0x6F || k == 0x73)
        }),
    ensures
        same(c.exec(inst), illegal_here(c, inst)),
{
    reveal(CpuView::exec);
}

} // verus!
