//! What holds of traps, interrupts and privileges.

#[allow(unused_imports)]
use crate::bus::BusView;
#[allow(unused_imports)]
use crate::cpu::decode::{csr_address, funct3, rs1};
#[allow(unused_imports)]
use crate::cpu::traps::{
    handler_pc, if_set, m_entry_status, m_return_status, machine_interrupt, s_entry_status,
    s_return_status, taken_interrupt, wired_mip,
};
#[allow(unused_imports)]
use crate::cpu::{mode_number, CpuView, Mode};
#[allow(unused_imports)]
use crate::csr::{
    csr_privilege, csr_read, csr_readonly, csr_write, law_csr_writes_are_local,
    law_lines_reach_mip, law_mstatus, law_plain_csr_reads_back, law_sstatus_is_a_view, MCAUSE, MEPC,
    MIP, MSTATUS, MTVAL, MTVEC, SCAUSE, SEPC, SIP, SSTATUS, STVAL, STVEC,
};
#[allow(unused_imports)]
use crate::trap::{cause, interrupt_code, Interrupt, Trap};
use vstd::prelude::*;

verus! {

/// A trap ends in machine or in supervisor mode, in the latter only if it was
/// delegated, and from machine mode never. It drops the reservation, and the
/// handler starts at a multiple of four.
pub proof fn law_trap_entry(c: CpuView, trap: Trap, tval: u64)
    ensures
        c.trap(trap, tval).mode == Mode::Supervisor <==> c.delegated(trap),
        c.trap(trap, tval).mode == Mode::Machine <==> !c.delegated(trap),
        c.mode == Mode::Machine ==> !c.delegated(trap),
        c.trap(trap, tval).reservation is None,
        c.trap(trap, tval).pc % 4 == 0,
{
    reveal(CpuView::trap);
    let m = csr_read(c.csr, MTVEC);
    let s = csr_read(c.csr, STVEC);
    assert(handler_pc(m, trap) % 4 == 0);
    assert(handler_pc(s, trap) % 4 == 0);
}

/// In the machine-mode handler the registers say what happened: where, why, and
/// with which value; interrupts are off there.
pub proof fn law_m_trap_registers(c: CpuView, trap: Trap, tval: u64)
    ensures
        ({
            let t = c.m_trap(trap, tval);
            &&& csr_read(t.csr, MEPC) == c.pc
            &&& csr_read(t.csr, MCAUSE) == cause(trap)
            &&& csr_read(t.csr, MTVAL) == tval
            &&& csr_read(t.csr, MSTATUS) & 0x8 == 0
        }),
{
    let c1 = csr_write(c.csr, MEPC, c.pc);
    let c2 = csr_write(c1, MCAUSE, cause(trap));
    let c3 = csr_write(c2, MTVAL, tval);
    let m = csr_read(c3, MSTATUS);
    let v = m_entry_status(m, c.mode);
    law_plain_csr_reads_back(c.csr, MEPC, c.pc);
    law_plain_csr_reads_back(c1, MCAUSE, cause(trap));
    law_plain_csr_reads_back(c2, MTVAL, tval);
    law_csr_writes_are_local(c1, MCAUSE, cause(trap), MEPC);
    law_csr_writes_are_local(c2, MTVAL, tval, MEPC);
    law_csr_writes_are_local(c2, MTVAL, tval, MCAUSE);
    law_csr_writes_are_local(c3, MSTATUS, v, MEPC);
    law_csr_writes_are_local(c3, MSTATUS, v, MCAUSE);
    law_csr_writes_are_local(c3, MSTATUS, v, MTVAL);
    law_mstatus(c3, v);
    let r = csr_read(csr_write(c3, MSTATUS, v), MSTATUS);
    let p = if_set(m & 0x8 != 0, 0x80);
    let n = (mode_number(c.mode) * 0x800) as u64;
    assert(r & 0x8 == 0) by (bit_vector)
        requires
            r & 0x7FFF_FFF0_FFFF_FFFF == v & 0x7FFF_FFF0_FFFF_FFFF,
            v == (m & !0x1888) | p | n,
            p == 0 || p == 0x80,
            n == 0 || n == 0x800 || n == 0x1000 || n == 0x1800,
    ;
}

/// Returning from a machine-mode handler undoes entering it: the program counter,
/// the mode and the interrupt enable are as before the trap.
pub proof fn law_mret_undoes_trap(c: CpuView, trap: Trap, tval: u64)
    ensures
        ({
            let r = c.m_trap(trap, tval).mret();
            &&& r.pc == c.pc
            &&& r.mode == c.mode
            &&& csr_read(r.csr, MSTATUS) & 0x8 == csr_read(c.csr, MSTATUS) & 0x8
            &&& r.regs == c.regs && r.f_regs == c.f_regs && r.bus == c.bus
        }),
{
    let t = c.m_trap(trap, tval);
    law_m_trap_registers(c, trap, tval);
    let c1 = csr_write(c.csr, MEPC, c.pc);
    let c2 = csr_write(c1, MCAUSE, cause(trap));
    let c3 = csr_write(c2, MTVAL, tval);
    law_csr_writes_are_local(c.csr, MEPC, c.pc, MSTATUS);
    law_csr_writes_are_local(c1, MCAUSE, cause(trap), MSTATUS);
    law_csr_writes_are_local(c2, MTVAL, tval, MSTATUS);
    let m = csr_read(c.csr, MSTATUS);
    let v = m_entry_status(m, c.mode);
    law_mstatus(c3, v);
    let r1 = csr_read(t.csr, MSTATUS);
    let w = m_return_status(r1);
    law_mstatus(t.csr, w);
    law_csr_writes_are_local(t.csr, MSTATUS, w, MEPC);
    let r2 = csr_read(csr_write(t.csr, MSTATUS, w), MSTATUS);
    let p = if_set(m & 0x8 != 0, 0x80);
    let k = mode_number(c.mode);
    let n = (k * 0x800) as u64;
    let q = if_set(r1 & 0x80 != 0, 0x8);
    assert(r1 / 0x800 % 4 == k && r2 & 0x8 == m & 0x8) by (bit_vector)
        requires
            r1 & 0x7FFF_FFF0_FFFF_FFFF == v & 0x7FFF_FFF0_FFFF_FFFF,
            v == (m & !0x1888) | p | n,
            p == if m & 0x8 != 0 {
                0x80u64
            } else {
                0u64
            },
            k < 4,
            n == k * 0x800,
            r2 & 0x7FFF_FFF0_FFFF_FFFF == w & 0x7FFF_FFF0_FFFF_FFFF,
            w == (r1 & !0x1808) | 0x80 | q,
            q == if r1 & 0x80 != 0 {
                0x8u64
            } else {
                0u64
            },
    ;
}

/// In the supervisor-mode handler the registers say what happened, and interrupts
/// are off there.
pub proof fn law_s_trap_registers(c: CpuView, trap: Trap, tval: u64)
    ensures
        ({
            let t = c.s_trap(trap, tval);
            &&& csr_read(t.csr, SEPC) == c.pc
            &&& csr_read(t.csr, SCAUSE) == cause(trap)
            &&& csr_read(t.csr, STVAL) == tval
            &&& csr_read(t.csr, SSTATUS) & 0x2 == 0
        }),
{
    let c1 = csr_write(c.csr, SEPC, c.pc);
    let c2 = csr_write(c1, SCAUSE, cause(trap));
    let c3 = csr_write(c2, STVAL, tval);
    let m = csr_read(c3, SSTATUS);
    let v = s_entry_status(m, c.mode);
    law_plain_csr_reads_back(c.csr, SEPC, c.pc);
    law_plain_csr_reads_back(c1, SCAUSE, cause(trap));
    law_plain_csr_reads_back(c2, STVAL, tval);
    law_csr_writes_are_local(c1, SCAUSE, cause(trap), SEPC);
    law_csr_writes_are_local(c2, STVAL, tval, SEPC);
    law_csr_writes_are_local(c2, STVAL, tval, SCAUSE);
    law_csr_writes_are_local(c3, SSTATUS, v, SEPC);
    law_csr_writes_are_local(c3, SSTATUS, v, SCAUSE);
    law_csr_writes_are_local(c3, SSTATUS, v, STVAL);
    law_sstatus_is_a_view(c3, v);
    let r = csr_read(csr_write(c3, SSTATUS, v), SSTATUS);
    let p = if_set(m & 0x2 != 0, 0x20);
    let n = (mode_number(c.mode) % 2 * 0x100) as u64;
    assert(r & 0x2 == 0) by (bit_vector)
        requires
            r & 0xD_E762 == v & 0xD_E762,
            v == (m & !0x122) | p | n,
            p == 0 || p == 0x20,
            n == 0 || n == 0x100,
    ;
}

/// Returning from a supervisor-mode handler undoes entering it, for the modes that
/// it is entered from.
pub proof fn law_sret_undoes_trap(c: CpuView, trap: Trap, tval: u64)
    requires
        c.mode == Mode::User || c.mode == Mode::Supervisor,
    ensures
        ({
            let r = c.s_trap(trap, tval).sret();
            &&& r.pc == c.pc
            &&& r.mode == c.mode
            &&& csr_read(r.csr, SSTATUS) & 0x2 == csr_read(c.csr, SSTATUS) & 0x2
            &&& r.regs == c.regs && r.f_regs == c.f_regs && r.bus == c.bus
        }),
{
    let t = c.s_trap(trap, tval);
    law_s_trap_registers(c, trap, tval);
    let c1 = csr_write(c.csr, SEPC, c.pc);
    let c2 = csr_write(c1, SCAUSE, cause(trap));
    let c3 = csr_write(c2, STVAL, tval);
    law_csr_writes_are_local(c.csr, SEPC, c.pc, SSTATUS);
    law_csr_writes_are_local(c1, SCAUSE, cause(trap), SSTATUS);
    law_csr_writes_are_local(c2, STVAL, tval, SSTATUS);
    let m = csr_read(c.csr, SSTATUS);
    let v = s_entry_status(m, c.mode);
    law_sstatus_is_a_view(c3, v);
    let r1 = csr_read(t.csr, SSTATUS);
    let w = s_return_status(r1);
    law_sstatus_is_a_view(t.csr, w);
    law_csr_writes_are_local(t.csr, SSTATUS, w, SEPC);
    let r2 = csr_read(csr_write(t.csr, SSTATUS, w), SSTATUS);
    let p = if_set(m & 0x2 != 0, 0x20);
    let k = mode_number(c.mode);
    let n = (k % 2 * 0x100) as u64;
    let q = if_set(r1 & 0x20 != 0, 0x2);
    assert(r1 / 0x100 % 2 == k && r2 & 0x2 == m & 0x2) by (bit_vector)
        requires
            r1 & 0xD_E762 == v & 0xD_E762,
            v == (m & !0x122) | p | n,
            p == if m & 0x2 != 0 {
                0x20u64
            } else {
                0u64
            },
            k < 2,
            n == k * 0x100,
            r2 & 0xD_E762 == w & 0xD_E762,
            w == (r1 & !0x102) | 0x20 | q,
            q == if r1 & 0x20 != 0 {
                0x2u64
            } else {
                0u64
            },
    ;
}

/// The wired bits of a value are those of the lines, and the others stay.
proof fn lemma_wired_lines(mip: u64, bus: BusView)
    ensures
        ({
            let w = wired_mip(mip, bus);
            &&& (w & 0x800 != 0) == bus.plic.has_pending(0)
            &&& (w & 0x200 != 0) == bus.plic.has_pending(1)
            &&& (w & 0x80 != 0) == bus.timer_due()
            &&& (w & 0x20 != 0) == bus.s_timer_due()
            &&& (w & 0x8 != 0) == bus.software_due(0)
            &&& w & !0xAA8u64 == mip & !0xAA8u64
        }),
{
    let a = if_set(bus.plic.has_pending(0), 0x800);
    let b = if_set(bus.timer_due(), 0x80);
    let c = if_set(bus.software_due(0), 0x8);
    let d = if_set(bus.plic.has_pending(1), 0x200);
    let e = if_set(bus.s_timer_due(), 0x20);
    let w = wired_mip(mip, bus);
    assert({
        &&& (w & 0x800 != 0) == (a == 0x800)
        &&& (w & 0x200 != 0) == (d == 0x200)
        &&& (w & 0x80 != 0) == (b == 0x80)
        &&& (w & 0x20 != 0) == (e == 0x20)
        &&& (w & 0x8 != 0) == (c == 0x8)
        &&& w & !0xAA8u64 == mip & !0xAA8u64
    }) by (bit_vector)
        requires
            w == (mip & !0xAA8) | a | b | c | d | e,
            a == 0 || a == 0x800,
            b == 0 || b == 0x80,
            c == 0 || c == 0x8,
            d == 0 || d == 0x200,
            e == 0 || e == 0x20,
    ;
}

/// After the lines were sampled each wired bit of `MIP` follows its device, and the
/// other bits are as they were: machine and supervisor external interrupt (11 and
/// 9), machine and supervisor timer (7 and 5), software interrupt (3). No register
/// but `MIP`, and `SIP` that shows it, changes.
pub proof fn law_wired_lines(c: CpuView, other: u16)
    ensures
        ({
            let s = c.poll().0;
            let m = csr_read(s.csr, MIP);
            &&& (m & 0x800 != 0) == s.bus.plic.has_pending(0)
            &&& (m & 0x200 != 0) == s.bus.plic.has_pending(1)
            &&& (m & 0x80 != 0) == s.bus.timer_due()
            &&& (m & 0x20 != 0) == s.bus.s_timer_due()
            &&& (m & 0x8 != 0) == s.bus.software_due(0)
            &&& m & !0xAA8u64 == csr_read(c.csr, MIP) & !0xAA8u64
            &&& other != MIP && other != SIP ==> csr_read(s.csr, other) == csr_read(c.csr, other)
            &&& s.bus == c.bus.sync_uart()
        }),
{
    reveal(CpuView::poll);
    let bus = c.bus.sync_uart();
    let mip = csr_read(c.csr, MIP);
    lemma_wired_lines(mip, bus);
    law_lines_reach_mip(c.csr, wired_mip(mip, bus), other);
}

/// A supervisor interrupt.
pub open spec fn is_supervisor(i: Interrupt) -> bool {
    i == Interrupt::SupervisorExternalInterrupt || i == Interrupt::SupervisorSoftwareInterrupt || i
        == Interrupt::SupervisorTimerInterrupt
}

/// Only an interrupt that is pending and enabled is taken: in machine mode none
/// while interrupts are off there; a supervisor interrupt only if it is delegated,
/// in machine mode never, and in supervisor mode only while interrupts are on
/// there. A machine interrupt that is pending and enabled is never passed over in
/// user mode.
pub proof fn law_interrupt_taken(mode: Mode, mstatus: u64, pending: u64, mideleg: u64)
    ensures
        taken_interrupt(mode, mstatus, pending, mideleg) matches Some(i) ==> pending & (1u64
            << interrupt_code(i)) != 0,
        mode == Mode::Machine && mstatus & 0x8 == 0 ==> taken_interrupt(
            mode,
            mstatus,
            pending,
            mideleg,
        ) is None,
        taken_interrupt(mode, mstatus, pending, mideleg) matches Some(i) ==> is_supervisor(i)
            ==> mideleg & (1u64 << interrupt_code(i)) != 0 && mode != Mode::Machine && (mode
            == Mode::Supervisor ==> mstatus & 0x2 != 0),
        mode == Mode::User && pending != 0 && machine_interrupt(pending) is Some
            ==> taken_interrupt(mode, mstatus, pending, mideleg) == machine_interrupt(pending),
{
    assert(1u64 << 11u64 == 0x800 && 1u64 << 9u64 == 0x200 && 1u64 << 7u64 == 0x80 && 1u64 << 5u64
        == 0x20 && 1u64 << 3u64 == 0x8 && 1u64 << 1u64 == 0x2) by (bit_vector);
}

/// A register instruction from a mode below the register's, or that would write
/// a read-only register, is refused and changes nothing.
pub proof fn law_csr_access_refused(c: CpuView, inst: u32)
    requires
        mode_number(c.mode) < csr_privilege(csr_address(inst)) || (csr_readonly(csr_address(inst))
            && (funct3(inst) % 4 == 1 || rs1(inst) != 0)),
    ensures
        c.exec_csr(inst) == c.refuse(inst),
{
}

} // verus!
