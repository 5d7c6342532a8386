//! Traps: entering a handler, returning from it, and which interrupt is taken.

#[allow(unused_imports)]
use crate::bus::BusView;
use crate::cpu::{Cpu, Mode, Report};
#[allow(unused_imports)]
use crate::cpu::{mode_number, mode_of, CpuView};
#[allow(unused_imports)]
use crate::csr::{csr_read, csr_wire, csr_write};
use crate::csr::{
    MCAUSE, MEDELEG, MEPC, MIDELEG, MIE, MIP, MSTATUS, MTVAL, MTVEC, SCAUSE, SEPC, SSTATUS, STVAL,
    STVEC,
};
#[allow(unused_imports)]
use crate::trap::{cause, plain_code};
use crate::trap::{Exception, Interrupt, Trap};
use vstd::prelude::*;

verus! {

/// `MSTATUS` on entry to a machine-mode handler: MPIE takes MIE, MIE is cleared,
/// MPP takes the mode.
pub open spec fn m_entry_status(mstatus: u64, mode: Mode) -> u64 {
    (mstatus & !0x1888) | (if mstatus & 0x8 != 0 {
        0x80u64
    } else {
        0
    }) | (mode_number(mode) * 0x800) as u64
}

/// `SSTATUS` on entry to a supervisor-mode handler: SPIE takes SIE, SIE is
/// cleared, SPP says whether the mode was supervisor.
pub open spec fn s_entry_status(sstatus: u64, mode: Mode) -> u64 {
    (sstatus & !0x122) | (if sstatus & 0x2 != 0 {
        0x20u64
    } else {
        0
    }) | (mode_number(mode) % 2 * 0x100) as u64
}

/// `MSTATUS` on return from a machine-mode handler: MIE takes MPIE, MPIE is set,
/// MPP is cleared.
pub open spec fn m_return_status(mstatus: u64) -> u64 {
    (mstatus & !0x1808) | 0x80 | (if mstatus & 0x80 != 0 {
        0x8u64
    } else {
        0
    })
}

/// `SSTATUS` on return from a supervisor-mode handler: SIE takes SPIE, SPIE is
/// set, SPP is cleared.
pub open spec fn s_return_status(sstatus: u64) -> u64 {
    (sstatus & !0x102) | 0x20 | (if sstatus & 0x20 != 0 {
        0x2u64
    } else {
        0
    })
}

/// Where the handler of a trap starts: at the base, or in vectored mode, for an
/// interrupt, four bytes per cause behind it.
pub open spec fn handler_pc(tvec: u64, trap: Trap) -> u64 {
    let base = (tvec - tvec % 4) as u64;
    if trap is Interrupt && tvec % 2 == 1 {
        base.wrapping_add((4 * plain_code(trap)) as u64)
    } else {
        base
    }
}

/// A trap is worth telling the user of. Interrupts, calls from supervisor and user
/// mode, breakpoints and page faults are everyday events, and so is an illegal
/// instruction that probes for a register: one whose address field is in a range of
/// machine, supervisor, counter, debug or vendor registers.
pub open spec fn worth_telling(trap: Trap, tval: u64) -> bool {
    let range = tval / 0x1000_0000 % 0x10;
    match trap {
        Trap::Interrupt(_) => false,
        Trap::Exception(e) => match e {
            Exception::EnvironmentCallFromSMode => false,
            Exception::EnvironmentCallFromUMode => false,
            Exception::Breakpoint => false,
            Exception::InstructionPageFault => false,
            Exception::LoadPageFault => false,
            Exception::StoreAMOPageFault => false,
            Exception::IllegalInstruction => !(range == 0xB || range == 0x3 || range == 0x1 || range
                == 0xD || range == 0xF),
            _ => true,
        },
    }
}

/// The highest machine interrupt in `pending`: external, then software, then
/// timer.
pub open spec fn machine_interrupt(pending: u64) -> Option<Interrupt> {
    if pending & 0x800 != 0 {
        Some(Interrupt::MachineExternalInterrupt)
    } else if pending & 0x8 != 0 {
        Some(Interrupt::MachineSoftwareInterrupt)
    } else if pending & 0x80 != 0 {
        Some(Interrupt::MachineTimerInterrupt)
    } else {
        None
    }
}

/// The highest supervisor interrupt that is in `pending` and delegated:
/// external, then software, then timer.
pub open spec fn supervisor_interrupt(pending: u64, mideleg: u64) -> Option<Interrupt> {
    if pending & 0x200 != 0 && mideleg & 0x200 != 0 {
        Some(Interrupt::SupervisorExternalInterrupt)
    } else if pending & 0x2 != 0 && mideleg & 0x2 != 0 {
        Some(Interrupt::SupervisorSoftwareInterrupt)
    } else if pending & 0x20 != 0 && mideleg & 0x20 != 0 {
        Some(Interrupt::SupervisorTimerInterrupt)
    } else {
        None
    }
}

/// The interrupt taken in `mode` for the enabled and pending interrupts
/// `pending`.
pub open spec fn taken_interrupt(mode: Mode, mstatus: u64, pending: u64, mideleg: u64) -> Option<
    Interrupt,
> {
    let m = machine_interrupt(pending);
    let s = supervisor_interrupt(pending, mideleg);
    if pending == 0 {
        None
    } else {
        match mode {
            Mode::Machine => if mstatus & 0x8 != 0 {
                m
            } else {
                None
            },
            Mode::Supervisor => if mstatus & 0x2 != 0 && s is Some {
                s
            } else {
                m
            },
            Mode::Hypervisor => m,
            Mode::User => if m is Some {
                m
            } else {
                s
            },
        }
    }
}

/// `bits` if `b`, else nothing.
pub open spec fn if_set(b: bool, bits: u64) -> u64 {
    if b {
        bits
    } else {
        0
    }
}

/// `MIP` with the lines of the devices: external (11, 9), timer (7, 5) and
/// software (3).
pub open spec fn wired_mip(mip: u64, bus: BusView) -> u64 {
    (mip & !0xAA8) | if_set(bus.plic.has_pending(0), 0x800) | if_set(bus.timer_due(), 0x80)
        | if_set(bus.software_due(0), 0x8) | if_set(bus.plic.has_pending(1), 0x200) | if_set(
        bus.s_timer_due(),
        0x20,
    )
}

impl CpuView {
    /// A trap is delegated to supervisor mode: its bit of the delegation register
    /// is set, and the hart is not in machine mode.
    pub open spec fn delegated(self, trap: Trap) -> bool {
        let deleg = csr_read(
            self.csr,
            if trap is Interrupt {
                MIDELEG
            } else {
                MEDELEG
            },
        );
        (deleg >> plain_code(trap)) & 1 != 0 && self.mode != Mode::Machine
    }

    /// Entry to the machine-mode handler.
    pub open spec fn m_trap(self, trap: Trap, tval: u64) -> CpuView {
        let c1 = csr_write(self.csr, MEPC, self.pc);
        let c2 = csr_write(c1, MCAUSE, cause(trap));
        let c3 = csr_write(c2, MTVAL, tval);
        CpuView {
            csr: csr_write(c3, MSTATUS, m_entry_status(csr_read(c3, MSTATUS), self.mode)),
            mode: Mode::Machine,
            pc: handler_pc(csr_read(self.csr, MTVEC), trap),
            ..self
        }
    }

    /// Entry to the supervisor-mode handler.
    pub open spec fn s_trap(self, trap: Trap, tval: u64) -> CpuView {
        let c1 = csr_write(self.csr, SEPC, self.pc);
        let c2 = csr_write(c1, SCAUSE, cause(trap));
        let c3 = csr_write(c2, STVAL, tval);
        CpuView {
            csr: csr_write(c3, SSTATUS, s_entry_status(csr_read(c3, SSTATUS), self.mode)),
            mode: Mode::Supervisor,
            pc: handler_pc(csr_read(self.csr, STVEC), trap),
            ..self
        }
    }

    /// What there is to report once a trap was taken.
    pub open spec fn report_of(self, trap: Trap, tval: u64) -> Option<Report> {
        if worth_telling(trap, tval) {
            Some(
                Report {
                    trap,
                    tval,
                    pc: self.pc,
                    mode: self.mode,
                    inst_count: self.inst_count,
                },
            )
        } else {
            self.report
        }
    }

    /// A trap: it is noted if it is to be reported, the reservation is dropped and the
    /// handler entered.
    #[verifier::opaque]
    pub open spec fn trap(self, trap: Trap, tval: u64) -> CpuView {
        let s = CpuView { reservation: None, report: self.report_of(trap, tval), ..self };
        if s.delegated(trap) {
            s.s_trap(trap, tval)
        } else {
            s.m_trap(trap, tval)
        }
    }

    /// Return from a machine-mode handler.
    pub open spec fn mret(self) -> CpuView {
        let mstatus = csr_read(self.csr, MSTATUS);
        let csr = csr_write(self.csr, MSTATUS, m_return_status(mstatus));
        CpuView {
            csr,
            mode: mode_of(mstatus / 0x800 % 4),
            pc: csr_read(csr, MEPC),
            reservation: None,
            ..self
        }
    }

    /// Return from a supervisor-mode handler.
    pub open spec fn sret(self) -> CpuView {
        let sstatus = csr_read(self.csr, SSTATUS);
        let csr = csr_write(self.csr, SSTATUS, s_return_status(sstatus));
        CpuView {
            csr,
            mode: if sstatus / 0x100 % 2 == 0 {
                Mode::User
            } else {
                Mode::Supervisor
            },
            pc: csr_read(csr, SEPC),
            reservation: None,
            ..self
        }
    }

    /// The interrupt lines are sampled into `MIP`: the state after that, and the
    /// interrupt to be taken.
    #[verifier::opaque]
    pub open spec fn poll(self) -> (CpuView, Option<Interrupt>) {
        let bus = self.bus.sync_uart();
        let mip = wired_mip(csr_read(self.csr, MIP), bus);
        let csr = csr_wire(self.csr, mip);
        let s = CpuView { bus, csr, ..self };
        (
            s,
            taken_interrupt(
                self.mode,
                csr_read(self.csr, MSTATUS),
                mip & csr_read(csr, MIE),
                csr_read(csr, MIDELEG),
            ),
        )
    }
}

/// The highest machine interrupt in `pending`.
fn pick_machine(pending: u64) -> (r: Option<Interrupt>)
    ensures
        r == machine_interrupt(pending),
{
    if pending & 0x800 != 0 {
        return Some(Interrupt::MachineExternalInterrupt);
    }
    if pending & 0x8 != 0 {
        return Some(Interrupt::MachineSoftwareInterrupt);
    }
    if pending & 0x80 != 0 {
        return Some(Interrupt::MachineTimerInterrupt);
    }
    None
}

/// The highest supervisor interrupt that is in `pending` and delegated.
fn pick_supervisor(pending: u64, mideleg: u64) -> (r: Option<Interrupt>)
    ensures
        r == supervisor_interrupt(pending, mideleg),
{
    if pending & 0x200 != 0 && mideleg & 0x200 != 0 {
        return Some(Interrupt::SupervisorExternalInterrupt);
    }
    if pending & 0x2 != 0 && mideleg & 0x2 != 0 {
        return Some(Interrupt::SupervisorSoftwareInterrupt);
    }
    if pending & 0x20 != 0 && mideleg & 0x20 != 0 {
        return Some(Interrupt::SupervisorTimerInterrupt);
    }
    None
}

/// Whether a trap is worth telling the user of.
pub fn reported(trap: Trap, tval: u64) -> (b: bool)
    ensures
        b == worth_telling(trap, tval),
{
    match trap {
        Trap::Interrupt(_) => false,
        Trap::Exception(e) => match e {
            Exception::EnvironmentCallFromSMode
            | Exception::EnvironmentCallFromUMode
            | Exception::Breakpoint
            | Exception::InstructionPageFault
            | Exception::LoadPageFault
            | Exception::StoreAMOPageFault => false,
            Exception::IllegalInstruction => {
                let addr: u64 = tval / 0x10_0000 % 0x1000;
                !(addr >= 0xB00 && addr <= 0xBFF) && !(addr >= 0x300 && addr <= 0x3FF) && !(addr
                    >= 0x100 && addr <= 0x1FF) && !(addr >= 0xD00 && addr <= 0xDFF) && !(addr
                    >= 0xF00 && addr <= 0xFFF)
            },
            _ => true,
        },
    }
}

/// `bits` if `b`, else nothing.
fn bits_if(b: bool, bits: u64) -> (v: u64)
    ensures
        v == if_set(b, bits),
{
    if b {
        bits
    } else {
        0
    }
}

/// Where the handler of a trap starts.
fn handler_address(tvec: u64, trap: &Trap) -> (pc: u64)
    ensures
        pc == handler_pc(tvec, *trap),
{
    let base: u64 = tvec - tvec % 4;
    if trap.is_interrupt() && tvec % 2 == 1 {
        base.wrapping_add(4 * trap.number())
    } else {
        base
    }
}

impl Cpu {
    /// Takes a trap with the given trap value: in supervisor mode if the trap is
    /// delegated and did not come from machine mode, else in machine mode.
    pub fn handle_trap(&mut self, trap: Trap, tval: u64) -> (taken: bool)
        ensures
            taken,
            final(self)@ == old(self)@.trap(trap, tval),
    {
        proof {
            reveal(CpuView::trap);
        }
        if reported(trap, tval) {
            self.report = Some(
                Report {
                    trap,
                    tval,
                    pc: self.pc,
                    mode: self.mode,
                    inst_count: self.inst_count,
                },
            );
        }
        self.clear_reservation();
        let mideleg: u64 = self.csr.read(MIDELEG);
        let medeleg: u64 = self.csr.read(MEDELEG);
        let code: u64 = trap.number();
        let deleg: u64 = if trap.is_interrupt() {
            mideleg
        } else {
            medeleg
        };
        if (deleg >> code) & 1 != 0 && self.mode != Mode::Machine {
            self.take_s_trap(trap, tval);
        } else {
            self.take_trap(trap, tval);
        }
        true
    }

    /// Enters the supervisor-mode handler.
    fn take_s_trap(&mut self, trap: Trap, tval: u64)
        ensures
            final(self)@ == old(self)@.s_trap(trap, tval),
    {
        let stvec: u64 = self.csr.read(STVEC);
        self.csr.write(SEPC, self.pc);
        self.csr.write(SCAUSE, trap.code());
        self.csr.write(STVAL, tval);
        let sstatus: u64 = self.csr.read(SSTATUS);
        let spie: u64 = bits_if(sstatus & 0x2 != 0, 0x20);
        let spp: u64 = self.mode.number() % 2 * 0x100;
        self.csr.write(SSTATUS, (sstatus & !0x122) | spie | spp);
        self.mode = Mode::Supervisor;
        self.pc = handler_address(stvec, &trap);
    }

    /// Enters the machine-mode handler.
    fn take_trap(&mut self, trap: Trap, tval: u64)
        ensures
            final(self)@ == old(self)@.m_trap(trap, tval),
    {
        let mtvec: u64 = self.csr.read(MTVEC);
        self.csr.write(MEPC, self.pc);
        self.csr.write(MCAUSE, trap.code());
        self.csr.write(MTVAL, tval);
        let mstatus: u64 = self.csr.read(MSTATUS);
        let mpie: u64 = bits_if(mstatus & 0x8 != 0, 0x80);
        let mpp: u64 = self.mode.number() * 0x800;
        self.csr.write(MSTATUS, (mstatus & !0x1888) | mpie | mpp);
        self.mode = Mode::Machine;
        self.pc = handler_address(mtvec, &trap);
    }

    /// Returns from the machine-mode handler.
    pub(crate) fn do_mret(&mut self)
        ensures
            final(self)@ == old(self)@.mret(),
    {
        let mstatus: u64 = self.csr.read(MSTATUS);
        let mie: u64 = bits_if(mstatus & 0x80 != 0, 0x8);
        self.csr.write(MSTATUS, (mstatus & !0x1808) | 0x80 | mie);
        self.mode = Mode::from_number(mstatus / 0x800 % 4);
        self.pc = self.csr.read(MEPC);
        self.clear_reservation();
    }

    /// Returns from the supervisor-mode handler.
    pub(crate) fn do_sret(&mut self)
        ensures
            final(self)@ == old(self)@.sret(),
    {
        let sstatus: u64 = self.csr.read(SSTATUS);
        let sie: u64 = bits_if(sstatus & 0x20 != 0, 0x2);
        self.csr.write(SSTATUS, (sstatus & !0x102) | 0x20 | sie);
        self.mode = if sstatus / 0x100 % 2 == 0 {
            Mode::User
        } else {
            Mode::Supervisor
        };
        self.pc = self.csr.read(SEPC);
        self.clear_reservation();
    }

    /// Samples the interrupt lines into `MIP` and finds the interrupt to be taken.
    pub fn check_interrupt(&mut self) -> (r: Result<(), Trap>)
        ensures
            final(self)@ == old(self)@.poll().0,
            r == match old(self)@.poll().1 {
                Some(i) => Err(Trap::Interrupt(i)),
                None => Ok(()),
            },
    {
        proof {
            reveal(CpuView::poll);
        }
        self.bus.update_uart_irq_public();
        let mstatus: u64 = self.csr.read(MSTATUS);
        let raw: u64 = self.csr.read(MIP);
        let mip: u64 = (raw & !0xAA8) | bits_if(self.bus.has_external_interrupt(0), 0x800)
            | bits_if(self.bus.has_timer_interrupt(), 0x80) | bits_if(
            self.bus.has_software_interrupt(0),
            0x8,
        ) | bits_if(self.bus.has_external_interrupt(1), 0x200) | bits_if(
            self.bus.has_s_timer_interrupt(),
            0x20,
        );
        self.csr.wire_mip(mip);
        let pending: u64 = mip & self.csr.read(MIE);
        if pending == 0 {
            return Ok(());
        }
        let mideleg: u64 = self.csr.read(MIDELEG);
        let m = pick_machine(pending);
        let s = pick_supervisor(pending, mideleg);
        let chosen = match self.mode {
            Mode::Machine => {
                if mstatus & 0x8 != 0 {
                    m
                } else {
                    None
                }
            },
            Mode::Supervisor => {
                if mstatus & 0x2 != 0 && s.is_some() {
                    s
                } else {
                    m
                }
            },
            Mode::Hypervisor => m,
            Mode::User => {
                if m.is_some() {
                    m
                } else {
                    s
                }
            },
        };
        match chosen {
            Some(i) => Err(Trap::Interrupt(i)),
            None => Ok(()),
        }
    }
}

} // verus!
