//! What holds of the status bits across traps and returns, and which control registers
//! there are.

#[allow(unused_imports)]
use crate::bus::BusView;
#[allow(unused_imports)]
use crate::cpu::formats::{gives, i_word, lemma_words, named, reg, with_reg, wrap};
#[allow(unused_imports)]
use crate::cpu::system_laws::{lemma_csr_number, level_of};
#[allow(unused_imports)]
use crate::cpu::dispatch::{lemma_dispatch_system, same};
#[allow(unused_imports)]
use crate::cpu::traps::{m_entry_status, m_return_status, s_entry_status, s_return_status};
#[allow(unused_imports)]
use crate::cpu::{mode_number, CpuView, Mode};
#[allow(unused_imports)]
use crate::csr::{
    csr_read, csr_write, law_csr_writes_are_local, law_mstatus, law_sstatus_is_a_view, valid_csr,
    MCAUSE, MEPC, MIDELEG, MSTATUS, MTVAL, SCAUSE, SEPC, SSTATUS, STIMECMP, STVAL, TIME,
};
#[allow(unused_imports)]
use crate::trap::{cause, Trap};
use vstd::prelude::*;

verus! {

/// A trap to machine mode keeps in bit 7 of `MSTATUS` whether interrupts were on (bit 3),
/// switches them off, and keeps the number of the mode in bits 11 and 12. Of the other bits
/// those that can be written stay.
#[verifier::rlimit(60)]
pub proof fn law_machine_trap_status(c: CpuView, trap: Trap, tval: u64)
    ensures
        ({
            let m = csr_read(c.csr, MSTATUS);
            let n = csr_read(c.m_trap(trap, tval).csr, MSTATUS);
            &&& (n >> 7) & 1 == (m >> 3) & 1
            &&& (n >> 3) & 1 == 0
            &&& (n >> 11) & 3 == level_of(c.mode)
            &&& n & 0x7FFF_FFF0_FFFF_E777 == m & 0x7FFF_FFF0_FFFF_E777
        }),
{
    let c1 = csr_write(c.csr, MEPC, c.pc);
    let c2 = csr_write(c1, MCAUSE, cause(trap));
    let c3 = csr_write(c2, MTVAL, tval);
    law_csr_writes_are_local(c.csr, MEPC, c.pc, MSTATUS);
    law_csr_writes_are_local(c1, MCAUSE, cause(trap), MSTATUS);
    law_csr_writes_are_local(c2, MTVAL, tval, MSTATUS);
    let m = csr_read(c.csr, MSTATUS);
    let v = m_entry_status(m, c.mode);
    law_mstatus(c3, v);
    let n = csr_read(csr_write(c3, MSTATUS, v), MSTATUS);
    let k = mode_number(c.mode);
    let p: u64 = if m & 0x8 != 0 {
        0x80
    } else {
        0
    };
    let w = (k * 0x800) as u64;
    assert((n >> 7) & 1 == (m >> 3) & 1 && (n >> 3) & 1 == 0 && (n >> 11) & 3 == k && n
        & 0x7FFF_FFF0_FFFF_E777 == m & 0x7FFF_FFF0_FFFF_E777) by (bit_vector)
        requires
            n & 0x7FFF_FFF0_FFFF_FFFF == v & 0x7FFF_FFF0_FFFF_FFFF,
            v == (m & !0x1888) | p | w,
            p == if m & 0x8 != 0 {
                0x80u64
            } else {
                0u64
            },
            k < 4,
            w == k * 0x800,
    ;
}

/// A trap to supervisor mode keeps in bit 5 of `SSTATUS` whether interrupts were on (bit 1),
/// switches them off, and keeps in bit 8 whether the hart was in supervisor mode. A return
/// from machine mode switches interrupts (bit 3) to what bit 7 says, sets that bit and
/// clears bits 11 and 12, whose mode the hart goes to; one from supervisor mode does so with
/// bits 1, 5 and 8. Both go to the address in the exception counter.
#[verifier::rlimit(60)]
pub proof fn law_status_moves(c: CpuView, trap: Trap, tval: u64)
    ensures
        ({
            let s = csr_read(c.csr, SSTATUS);
            let t = csr_read(c.s_trap(trap, tval).csr, SSTATUS);
            let m = csr_read(c.csr, MSTATUS);
            let r = c.mret();
            let q = csr_read(r.csr, MSTATUS);
            let u = c.sret();
            let w = csr_read(u.csr, SSTATUS);
            &&& (t >> 5) & 1 == (s >> 1) & 1
            &&& (t >> 1) & 1 == 0
            &&& (t >> 8) & 1 == level_of(c.mode) % 2
            &&& (q >> 3) & 1 == (m >> 7) & 1
            &&& (q >> 7) & 1 == 1
            &&& (q >> 11) & 3 == 0
            &&& level_of(r.mode) == (m >> 11) & 3
            &&& r.pc == csr_read(c.csr, MEPC)
            &&& (w >> 1) & 1 == (s >> 5) & 1
            &&& (w >> 5) & 1 == 1
            &&& (w >> 8) & 1 == 0
            &&& u.mode == (if (s >> 8) & 1 == 1 {
                Mode::Supervisor
            } else {
                Mode::User
            })
            &&& u.pc == csr_read(c.csr, SEPC)
        }),
{
    let c1 = csr_write(c.csr, SEPC, c.pc);
    let c2 = csr_write(c1, SCAUSE, cause(trap));
    let c3 = csr_write(c2, STVAL, tval);
    law_csr_writes_are_local(c.csr, SEPC, c.pc, SSTATUS);
    law_csr_writes_are_local(c1, SCAUSE, cause(trap), SSTATUS);
    law_csr_writes_are_local(c2, STVAL, tval, SSTATUS);
    let s = csr_read(c.csr, SSTATUS);
    let m = csr_read(c.csr, MSTATUS);
    let v = s_entry_status(s, c.mode);
    let x = m_return_status(m);
    let y = s_return_status(s);
    law_sstatus_is_a_view(c3, v);
    law_mstatus(c.csr, x);
    law_sstatus_is_a_view(c.csr, y);
    law_csr_writes_are_local(c.csr, MSTATUS, x, MEPC);
    law_csr_writes_are_local(c.csr, SSTATUS, y, SEPC);
    let t = csr_read(csr_write(c3, SSTATUS, v), SSTATUS);
    let q = csr_read(csr_write(c.csr, MSTATUS, x), MSTATUS);
    let w = csr_read(csr_write(c.csr, SSTATUS, y), SSTATUS);
    let k = mode_number(c.mode) % 2;
    let p: u64 = if s & 0x2 != 0 {
        0x20
    } else {
        0
    };
    let n = (k * 0x100) as u64;
    let g: u64 = if m & 0x80 != 0 {
        0x8
    } else {
        0
    };
    let h: u64 = if s & 0x20 != 0 {
        0x2
    } else {
        0
    };
    assert({
        &&& (t >> 5) & 1 == (s >> 1) & 1 && (t >> 1) & 1 == 0 && (t >> 8) & 1 == k
        &&& (q >> 3) & 1 == (m >> 7) & 1 && (q >> 7) & 1 == 1 && (q >> 11) & 3 == 0
        &&& (w >> 1) & 1 == (s >> 5) & 1 && (w >> 5) & 1 == 1 && (w >> 8) & 1 == 0
        &&& (m >> 11) & 3 == m / 0x800 % 4
        &&& ((s >> 8) & 1 == 1) == (s / 0x100 % 2 != 0)
    }) by (bit_vector)
        requires
            t & 0xD_E762 == v & 0xD_E762,
            v == (s & !0x122) | p | n,
            p == if s & 0x2 != 0 {
                0x20u64
            } else {
                0u64
            },
            k < 2,
            n == k * 0x100,
            q & 0x7FFF_FFF0_FFFF_FFFF == x & 0x7FFF_FFF0_FFFF_FFFF,
            x == (m & !0x1808) | 0x80 | g,
            g == if m & 0x80 != 0 {
                0x8u64
            } else {
                0u64
            },
            w & 0xD_E762 == y & 0xD_E762,
            y == (s & !0x102) | 0x20 | h,
            h == if s & 0x20 != 0 {
                0x2u64
            } else {
                0u64
            },
    ;
}

/// The registers that there are, by number.
#[verifier::rlimit(60)]
pub proof fn law_existing_registers(k: u16)
    ensures
        valid_csr(k) <==> {
            ||| 0x001 <= k <= 0x003
            ||| k == 0x100
            ||| 0x102 <= k <= 0x106
            ||| k == 0x10A
            ||| 0x140 <= k <= 0x144
            ||| k == 0x14D
            ||| k == 0x180
            ||| k == 0x200
            ||| k == 0x204
            ||| k == 0x205
            ||| 0x240 <= k <= 0x244
            ||| k == 0x280
            ||| 0x300 <= k <= 0x306
            ||| k == 0x30A
            ||| k == 0x320
            ||| 0x323 <= k <= 0x332
            ||| 0x340 <= k <= 0x344
            ||| k == 0x34A
            ||| k == 0x34B
            ||| 0x3A0 <= k <= 0x3A3
            ||| 0x3B0 <= k <= 0x3EF
            ||| k == 0x600
            ||| k == 0x602
            ||| k == 0x603
            ||| k == 0x606
            ||| k == 0x643
            ||| k == 0x64A
            ||| 0x7A0 <= k <= 0x7A4
            ||| 0xB03 <= k <= 0xB12
            ||| 0xC00 <= k <= 0xC02
            ||| 0xF11 <= k <= 0xF14
        },
{
}

/// The time is read from the bus, and the supervisor's deadline is written there too; both
/// as by every register instruction, the deadline's old value going to the destination.
#[verifier::rlimit(60)]
pub proof fn law_time_registers(c: CpuView, d: u32, a: u32)
    requires
        named(c, d, a, 0),
        d != 0,
        c.mode != Mode::User,
    ensures
        same(c.exec(i_word(0x73, 2, d, 0, 0xC01)), gives(c, d, c.bus.mtime)),
        ({
            let s = c.exec(i_word(0x73, 1, d, a, 0x14D));
            &&& s.1 is Ok
            &&& s.0.bus.stimecmp == reg(c, a)
            &&& csr_read(s.0.csr, 0x14D) == reg(c, a)
            &&& reg(s.0, d) == c.bus.stimecmp
            &&& s.0.pc == wrap(c.pc + 4)
            &&& s.0.bus.dram == c.bus.dram
        }),
{
    lemma_words(0x73, 2, d, 0, 0, 0xC01);
    lemma_words(0x73, 1, d, a, 0, 0x14D);
    lemma_dispatch_system(c, i_word(0x73, 2, d, 0, 0xC01));
    lemma_dispatch_system(c, i_word(0x73, 1, d, a, 0x14D));
    lemma_csr_number(0xC01);
    lemma_csr_number(0x14D);
}

} // verus!
