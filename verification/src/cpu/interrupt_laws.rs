//! What holds of the delivery of interrupts: which of those that are pending and enabled
//! is taken, and where it leads.

#[allow(unused_imports)]
use crate::bus::BusView;
#[allow(unused_imports)]
use crate::cpu::trap_laws::{law_m_trap_registers, law_s_trap_registers, law_wired_lines};
#[allow(unused_imports)]
use crate::cpu::{CpuView, Mode};
#[allow(unused_imports)]
use crate::csr::{
    csr_read, law_lines_reach_mip, MCAUSE, MEPC, MIDELEG, MIE, MIP, MSTATUS, MTVAL, MTVEC, SCAUSE,
    SEPC, STVAL, STVEC,
};
#[allow(unused_imports)]
use crate::trap::{Interrupt, Trap};
use vstd::prelude::*;

verus! {

/// Bit `n` of `v`.
pub open spec fn bit(v: u64, n: u64) -> bool {
    (v >> n) & 1 == 1
}

/// Interrupt number `n` is pending once the lines were sampled, and enabled.
pub open spec fn waits(c: CpuView, n: u64) -> bool {
    let s = c.poll().0;
    bit(csr_read(s.csr, MIP), n) && bit(csr_read(s.csr, MIE), n)
}

/// Interrupt number `n` waits, and is delegated to supervisor mode.
pub open spec fn waits_delegated(c: CpuView, n: u64) -> bool {
    waits(c, n) && bit(csr_read(c.poll().0.csr, MIDELEG), n)
}

/// A machine interrupt waits.
pub open spec fn machine_waits(c: CpuView) -> bool {
    waits(c, 11) || waits(c, 7) || waits(c, 3)
}

/// A delegated supervisor interrupt waits.
pub open spec fn supervisor_waits(c: CpuView) -> bool {
    waits_delegated(c, 9) || waits_delegated(c, 5) || waits_delegated(c, 1)
}

/// Machine interrupts are taken: always below machine mode, and in it while they are
/// on. In supervisor mode a delegated supervisor interrupt goes first, if those are on.
pub open spec fn machine_goes(c: CpuView) -> bool {
    let mstatus = csr_read(c.csr, MSTATUS);
    &&& machine_waits(c)
    &&& c.mode == Mode::Machine ==> bit(mstatus, 3)
    &&& c.mode == Mode::Supervisor ==> !(bit(mstatus, 1) && supervisor_waits(c))
}

/// Supervisor interrupts are taken: in user mode unless a machine interrupt waits, in
/// supervisor mode while they are on, elsewhere never.
pub open spec fn supervisor_goes(c: CpuView) -> bool {
    let mstatus = csr_read(c.csr, MSTATUS);
    &&& supervisor_waits(c)
    &&& c.mode == Mode::User && !machine_waits(c) || (c.mode == Mode::Supervisor && bit(mstatus, 1))
}

/// The bits of `a & b`, and of the masks for them.
#[verifier::rlimit(60)]
proof fn lemma_bits(a: u64, b: u64, m: u64)
    ensures
        (a & b) & 0x800 != 0 <==> bit(a, 11) && bit(b, 11),
        (a & b) & 0x200 != 0 <==> bit(a, 9) && bit(b, 9),
        (a & b) & 0x80 != 0 <==> bit(a, 7) && bit(b, 7),
        (a & b) & 0x20 != 0 <==> bit(a, 5) && bit(b, 5),
        (a & b) & 0x8 != 0 <==> bit(a, 3) && bit(b, 3),
        (a & b) & 0x2 != 0 <==> bit(a, 1) && bit(b, 1),
        m & 0x200 != 0 <==> bit(m, 9),
        m & 0x20 != 0 <==> bit(m, 5),
        m & 0x2 != 0 <==> bit(m, 1),
        m & 0x8 != 0 <==> bit(m, 3),
        a & b == 0 ==> (a & b) & 0x800 == 0 && (a & b) & 0x200 == 0 && (a & b) & 0x80 == 0 && (a
            & b) & 0x20 == 0 && (a & b) & 0x8 == 0 && (a & b) & 0x2 == 0,
        (m >> 11) & 1 != 0 <==> bit(m, 11),
        (m >> 7) & 1 != 0 <==> bit(m, 7),
        (m >> 3) & 1 != 0 <==> bit(m, 3),
        (m >> 9) & 1 != 0 <==> bit(m, 9),
        (m >> 5) & 1 != 0 <==> bit(m, 5),
        (m >> 1) & 1 != 0 <==> bit(m, 1),
{
    assert({
        &&& (a & b) & 0x800 != 0 <==> (a >> 11) & 1 == 1 && (b >> 11) & 1 == 1
        &&& (a & b) & 0x200 != 0 <==> (a >> 9) & 1 == 1 && (b >> 9) & 1 == 1
        &&& (a & b) & 0x80 != 0 <==> (a >> 7) & 1 == 1 && (b >> 7) & 1 == 1
        &&& (a & b) & 0x20 != 0 <==> (a >> 5) & 1 == 1 && (b >> 5) & 1 == 1
        &&& (a & b) & 0x8 != 0 <==> (a >> 3) & 1 == 1 && (b >> 3) & 1 == 1
        &&& (a & b) & 0x2 != 0 <==> (a >> 1) & 1 == 1 && (b >> 1) & 1 == 1
        &&& m & 0x200 != 0 <==> (m >> 9) & 1 == 1
        &&& m & 0x20 != 0 <==> (m >> 5) & 1 == 1
        &&& m & 0x2 != 0 <==> (m >> 1) & 1 == 1
        &&& m & 0x8 != 0 <==> (m >> 3) & 1 == 1
        &&& a & b == 0 ==> (a & b) & 0x800 == 0 && (a & b) & 0x200 == 0 && (a & b) & 0x80 == 0 && (
        a & b) & 0x20 == 0 && (a & b) & 0x8 == 0 && (a & b) & 0x2 == 0
        &&& (m >> 11) & 1 != 0 <==> (m >> 11) & 1 == 1
        &&& (m >> 7) & 1 != 0 <==> (m >> 7) & 1 == 1
        &&& (m >> 3) & 1 != 0 <==> (m >> 3) & 1 == 1
        &&& (m >> 9) & 1 != 0 <==> (m >> 9) & 1 == 1
        &&& (m >> 5) & 1 != 0 <==> (m >> 5) & 1 == 1
        &&& (m >> 1) & 1 != 0 <==> (m >> 1) & 1 == 1
    }) by (bit_vector);
}

/// An interrupt is taken exactly when one waits that can go. Of the machine interrupts
/// the external one goes first, then the software interrupt, then the timer; so it is
/// with the supervisor interrupts.
#[verifier::rlimit(60)]
pub proof fn law_interrupt_choice(c: CpuView)
    ensures
        c.poll().1 is Some <==> machine_goes(c) || supervisor_goes(c),
        machine_goes(c) ==> {
            &&& waits(c, 11) ==> c.poll().1 == Some(Interrupt::MachineExternalInterrupt)
            &&& !waits(c, 11) && waits(c, 3) ==> c.poll().1 == Some(
                Interrupt::MachineSoftwareInterrupt,
            )
            &&& !waits(c, 11) && !waits(c, 3) ==> c.poll().1 == Some(
                Interrupt::MachineTimerInterrupt,
            )
        },
        supervisor_goes(c) ==> {
            &&& waits_delegated(c, 9) ==> c.poll().1 == Some(Interrupt::SupervisorExternalInterrupt)
            &&& !waits_delegated(c, 9) && waits_delegated(c, 1) ==> c.poll().1 == Some(
                Interrupt::SupervisorSoftwareInterrupt,
            )
            &&& !waits_delegated(c, 9) && !waits_delegated(c, 1) ==> c.poll().1 == Some(
                Interrupt::SupervisorTimerInterrupt,
            )
        },
{
    law_wired_lines(c, MIE);
    law_wired_lines(c, MIDELEG);
    let s = c.poll().0;
    let mip = csr_read(s.csr, MIP);
    lemma_bits(mip, csr_read(s.csr, MIE), csr_read(s.csr, MIDELEG));
    lemma_bits(mip, csr_read(s.csr, MIE), csr_read(c.csr, MSTATUS));
    reveal(CpuView::poll);
}

/// A supervisor interrupt that goes leads to the supervisor's handler within the step:
/// the cause says which, the exception counter where the hart was, and with a direct
/// vector the handler is at its base.
#[verifier::rlimit(60)]
pub proof fn law_supervisor_interrupt_step(c: CpuView)
    requires
        supervisor_goes(c),
    ensures
        ({
            let s = c.step();
            let n: u64 = if waits_delegated(c, 9) {
                9
            } else if waits_delegated(c, 1) {
                1
            } else {
                5
            };
            let tvec = csr_read(c.csr, STVEC);
            &&& s.mode == Mode::Supervisor
            &&& csr_read(s.csr, SCAUSE) == 0x8000_0000_0000_0000 + n
            &&& csr_read(s.csr, SEPC) == c.pc
            &&& csr_read(s.csr, STVAL) == 0
            &&& tvec % 4 == 0 ==> s.pc == tvec
            &&& tvec % 4 == 1 ==> s.pc == (tvec - 1 + 4 * n) % 0x1_0000_0000_0000_0000
            &&& s.regs == c.regs && s.f_regs == c.f_regs
        }),
{
    let c0 = CpuView { inst_count: c.inst_count.wrapping_add(1), ..c };
    assert(c0.poll().1 == c.poll().1 && c0.poll().0 == (CpuView {
        inst_count: c0.inst_count,
        ..c.poll().0
    })) by {
        reveal(CpuView::poll);
    }
    law_interrupt_choice(c);
    law_wired_lines(c, STVEC);
    let s1 = c0.poll().0;
    let t = Trap::Interrupt(c0.poll().1->0);
    lemma_bits(0, 0, csr_read(s1.csr, MIDELEG));
    assert(s1.pc == c.pc && s1.mode == c.mode && s1.regs == c.regs && s1.f_regs == c.f_regs) by {
        reveal(CpuView::poll);
    }
    let s2 = CpuView { reservation: None, report: s1.report_of(t, 0), ..s1 };
    law_s_trap_registers(s2, t, 0);
    reveal(CpuView::trap);
}

/// A machine interrupt that goes, and is not delegated, leads to the machine's handler
/// within the step.
#[verifier::rlimit(60)]
pub proof fn law_machine_interrupt_step(c: CpuView)
    requires
        machine_goes(c),
        c.mode == Mode::Machine || !(bit(csr_read(c.csr, MIDELEG), 11) || bit(
            csr_read(c.csr, MIDELEG),
            7,
        ) || bit(csr_read(c.csr, MIDELEG), 3)),
    ensures
        ({
            let s = c.step();
            let n: u64 = if waits(c, 11) {
                11
            } else if waits(c, 3) {
                3
            } else {
                7
            };
            let tvec = csr_read(c.csr, MTVEC);
            &&& s.mode == Mode::Machine
            &&& csr_read(s.csr, MCAUSE) == 0x8000_0000_0000_0000 + n
            &&& csr_read(s.csr, MEPC) == c.pc
            &&& csr_read(s.csr, MTVAL) == 0
            &&& tvec % 4 == 0 ==> s.pc == tvec
            &&& tvec % 4 == 1 ==> s.pc == (tvec - 1 + 4 * n) % 0x1_0000_0000_0000_0000
            &&& s.regs == c.regs && s.f_regs == c.f_regs
        }),
{
    let c0 = CpuView { inst_count: c.inst_count.wrapping_add(1), ..c };
    assert(c0.poll().1 == c.poll().1 && c0.poll().0 == (CpuView {
        inst_count: c0.inst_count,
        ..c.poll().0
    })) by {
        reveal(CpuView::poll);
    }
    law_interrupt_choice(c);
    law_wired_lines(c, MTVEC);
    law_wired_lines(c, MIDELEG);
    let s1 = c0.poll().0;
    let t = Trap::Interrupt(c0.poll().1->0);
    lemma_bits(0, 0, csr_read(s1.csr, MIDELEG));
    assert(s1.pc == c.pc && s1.mode == c.mode && s1.regs == c.regs && s1.f_regs == c.f_regs) by {
        reveal(CpuView::poll);
    }
    let s2 = CpuView { reservation: None, report: s1.report_of(t, 0), ..s1 };
    law_m_trap_registers(s2, t, 0);
    reveal(CpuView::trap);
}

} // verus!
