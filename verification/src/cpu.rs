//! The hart: its state, its registers and what it asks of the host.
//!
//! Two things the hart does not do itself: floating-point arithmetic, and the
//! host I/O of a device whose driver rang its bell. An instruction that needs one
//! of them leaves a request, and the hart goes on once it is answered.

pub mod access_laws;
pub mod atomic;
pub mod base;
pub mod bits_laws;
pub mod compressed;
pub mod compressed_laws;
pub mod count_laws;
pub mod crossing_laws;
pub mod decode;
pub mod dispatch;
pub mod division_laws;
pub mod execute;
pub mod float;
pub mod float_laws;
pub mod formats;
pub mod frames;
pub mod integer_laws;
pub mod interrupt_laws;
pub mod laws;
pub mod memory;
pub mod memory_laws;
pub mod report_laws;
pub mod status_laws;
pub mod step_laws;
pub mod system;
pub mod system_laws;
pub mod trap_laws;
pub mod traps;
pub mod zero_laws;

use crate::bus::Bus;
#[allow(unused_imports)]
use crate::bus::{law_every_bus_is_well_formed, BusView};
use crate::csr::Csr;
#[allow(unused_imports)]
use crate::csr::{csr_read, csr_reset, csr_write};
use crate::csr::MSTATUS;
use crate::trap::{Exception, Trap};
use vstd::prelude::*;

verus! {

/// A privilege mode.
#[derive(Debug, Clone, Copy, PartialEq, Eq, Structural)]
pub enum Mode {
    User,
    Supervisor,
    Hypervisor,
    Machine,
}

/// The number of a privilege mode.
pub open spec fn mode_number(m: Mode) -> u64 {
    match m {
        Mode::User => 0,
        Mode::Supervisor => 1,
        Mode::Hypervisor => 2,
        Mode::Machine => 3,
    }
}

/// The privilege mode with the number `n` (0 to 3).
pub open spec fn mode_of(n: u64) -> Mode {
    if n == 0 {
        Mode::User
    } else if n == 1 {
        Mode::Supervisor
    } else if n == 2 {
        Mode::Hypervisor
    } else {
        Mode::Machine
    }
}

impl Mode {
    /// The number of the mode.
    pub fn number(self) -> (n: u64)
        ensures
            n == mode_number(self),
            n <= 3,
    {
        match self {
            Mode::User => 0,
            Mode::Supervisor => 1,
            Mode::Hypervisor => 2,
            Mode::Machine => 3,
        }
    }

    /// The mode with the number `n`.
    pub fn from_number(n: u64) -> (m: Mode)
        ensures
            m == mode_of(n),
    {
        match n {
            0 => Mode::User,
            1 => Mode::Supervisor,
            2 => Mode::Hypervisor,
            _ => Mode::Machine,
        }
    }
}

/// The width of a floating-point number.
#[derive(Debug, Clone, Copy, PartialEq, Eq, Structural)]
pub enum FloatWidth {
    Single,
    Double,
}

/// An integer type that a floating-point number is converted from or to.
#[derive(Debug, Clone, Copy, PartialEq, Eq, Structural)]
pub enum IntKind {
    I32,
    U32,
    I64,
    U64,
}

/// A floating-point calculation. The operands are bit patterns; a single-precision
/// one, and a 32-bit result, is the low half of its value.
#[derive(Debug, Clone, Copy, PartialEq, Eq, Structural)]
pub enum FloatCalc {
    /// `a + b`
    Add(FloatWidth),
    /// `a - b`
    Sub(FloatWidth),
    /// `a * b`
    Mul(FloatWidth),
    /// `a / b`
    Div(FloatWidth),
    /// The square root of `a`.
    Sqrt(FloatWidth),
    /// `a * b + c`, rounded once.
    MulAdd(FloatWidth),
    /// `a` rounded towards zero to an integer, saturating, with NaN going to zero.
    ToInt(FloatWidth, IntKind),
    /// The integer in the register value `a` as a floating-point number.
    FromInt(IntKind, FloatWidth),
    /// The double `a` as a single.
    Narrow,
    /// The single `a` as a double.
    Widen,
}

/// What a calculation's result is written to.
#[derive(Debug, Clone, Copy, PartialEq, Eq, Structural)]
pub enum FloatDest {
    /// A floating-point register, as a double.
    Double,
    /// A floating-point register, as a boxed single.
    Single,
    /// An integer register.
    Int,
    /// An integer register, as a sign-extended 32-bit value.
    Int32,
}

/// A calculation with its operands and its destination.
#[derive(Debug, Clone, Copy, PartialEq, Eq, Structural)]
pub struct FloatOp {
    pub calc: FloatCalc,
    pub a: u64,
    pub b: u64,
    pub c: u64,
    pub dest: FloatDest,
    /// The register.
    pub rd: usize,
}

/// What it takes to go back to before a store that turned out to fail.
#[derive(Debug, Clone, Copy, PartialEq, Eq, Structural)]
pub struct Undo {
    /// Where the instruction stands.
    pub pc: u64,
    /// The register that it may have written.
    pub rd: usize,
    /// What that register held.
    pub value: u64,
    /// The virtual address of the store.
    pub tval: u64,
}

/// What the hart waits for.
#[derive(Debug, Clone, Copy, PartialEq, Eq, Structural)]
pub enum Request {
    /// The result of a floating-point calculation.
    Float(FloatOp),
    /// The queue of the block device to be served.
    Block(Undo),
    /// The queue of the entropy device to be served.
    Rng(Undo),
}

/// A trap that is worth telling the user of, and where the hart was.
#[derive(Debug, Clone, Copy, PartialEq, Eq, Structural)]
pub struct Report {
    pub trap: Trap,
    /// The trap value.
    pub tval: u64,
    /// The program counter.
    pub pc: u64,
    pub mode: Mode,
    /// How many instructions were begun.
    pub inst_count: u64,
}

/// A hart.
pub struct Cpu {
    /// Program counter.
    pub pc: u64,
    /// Integer registers.
    pub regs: [u64; 32],
    /// Floating-point registers.
    pub f_regs: [u64; 32],
    /// Control and status registers.
    pub csr: Csr,
    /// Privilege mode.
    pub mode: Mode,
    pub bus: Bus,
    /// The reservation of a load-reserved: a doubleword address.
    pub reservation: Option<u64>,
    /// How many instructions were begun.
    pub inst_count: u64,
    /// What the hart waits for.
    pub request: Option<Request>,
    /// The virtual address of the last store.
    pub store_addr: u64,
    /// The last trap to be reported that the host has not taken yet.
    pub report: Option<Report>,
}

/// The state of a hart.
#[verifier::ext_equal]
pub struct CpuView {
    pub pc: u64,
    pub regs: Seq<u64>,
    pub f_regs: Seq<u64>,
    pub csr: Map<u16, u64>,
    pub mode: Mode,
    pub bus: BusView,
    pub reservation: Option<u64>,
    pub inst_count: u64,
    pub request: Option<Request>,
    pub store_addr: u64,
    pub report: Option<Report>,
}

impl View for Cpu {
    type V = CpuView;

    open spec fn view(&self) -> CpuView {
        CpuView {
            pc: self.pc,
            regs: self.regs@,
            f_regs: self.f_regs@,
            csr: self.csr@,
            mode: self.mode,
            bus: self.bus@,
            reservation: self.reservation,
            inst_count: self.inst_count,
            request: self.request,
            store_addr: self.store_addr,
            report: self.report,
        }
    }
}

/// What executing an instruction comes to: the state after it, and the trap with
/// its trap value if it did not complete.
pub type Outcome = (CpuView, Result<(), (Trap, u64)>);

/// A hart on the given bus after reset.
pub open spec fn cpu_reset(bus: BusView) -> CpuView {
    CpuView {
        pc: 0,
        regs: Seq::new(32, |i: int| 0u64),
        f_regs: Seq::new(32, |i: int| 0u64),
        csr: csr_reset(),
        mode: Mode::Machine,
        bus,
        reservation: None,
        inst_count: 0,
        request: None,
        store_addr: 0,
        report: None,
    }
}

/// An illegal-instruction exception; its trap value is the instruction.
pub open spec fn illegal(inst: u32) -> (Trap, u64) {
    (Trap::Exception(Exception::IllegalInstruction), inst as u64)
}

/// `MSTATUS` with the floating-point state marked as dirty.
pub open spec fn dirty(mstatus: u64) -> u64 {
    mstatus | 0x6000
}

impl CpuView {
    /// The register files have their fixed size.
    pub open spec fn wf(self) -> bool {
        self.regs.len() == 32 && self.f_regs.len() == 32
    }

    /// Integer register `i`; x0 is zero.
    pub open spec fn x(self, i: int) -> u64 {
        if i == 0 {
            0
        } else {
            self.regs[i]
        }
    }

    /// Integer register `i` set to `v`; x0 stays as it is.
    pub open spec fn set_x(self, i: int, v: u64) -> CpuView {
        if i == 0 {
            self
        } else {
            CpuView { regs: self.regs.update(i, v), ..self }
        }
    }

    /// Floating-point register `i` set to `v`, and the floating-point state
    /// marked as dirty.
    pub open spec fn set_f(self, i: int, v: u64) -> CpuView {
        CpuView {
            f_regs: self.f_regs.update(i, v),
            csr: csr_write(self.csr, MSTATUS, dirty(csr_read(self.csr, MSTATUS))),
            ..self
        }
    }

    /// The next instruction is at `pc`.
    pub open spec fn at(self, pc: u64) -> CpuView {
        CpuView { pc, ..self }
    }

    /// An instruction that goes on at `pc` and does nothing else.
    pub open spec fn go(self, pc: u64) -> Outcome {
        (self.at(pc), Ok(()))
    }

    /// An instruction that writes an integer register and goes on at `pc`.
    pub open spec fn write_x(self, i: int, v: u64, pc: u64) -> Outcome {
        (self.set_x(i, v).at(pc), Ok(()))
    }

    /// An instruction that writes a floating-point register and goes on at `pc`.
    pub open spec fn write_f(self, i: int, v: u64, pc: u64) -> Outcome {
        (self.set_f(i, v).at(pc), Ok(()))
    }

    /// An illegal instruction.
    pub open spec fn refuse(self, inst: u32) -> Outcome {
        (self, Err(illegal(inst)))
    }

    /// The reservation covers the doubleword of the physical address `addr`.
    pub open spec fn reserved(self, addr: u64) -> bool {
        self.reservation == Some((addr - addr % 8) as u64)
    }
}

impl Cpu {
    /// A hart on `bus` after reset.
    pub fn new(bus: Bus) -> (c: Self)
        ensures
            c@ == cpu_reset(bus@),
    {
        let c = Self {
            pc: 0,
            regs: [0u64; 32],
            f_regs: [0u64; 32],
            csr: Csr::new(),
            mode: Mode::Machine,
            bus,
            reservation: None,
            inst_count: 0,
            request: None,
            store_addr: 0,
            report: None,
        };
        assert(c@ =~= cpu_reset(bus@));
        c
    }

    /// Hands out the last trap to be reported.
    pub fn take_report(&mut self) -> (r: Option<Report>)
        ensures
            r == old(self)@.report,
            final(self)@ == (CpuView { report: None, ..old(self)@ }),
    {
        let r = self.report;
        self.report = None;
        r
    }

    /// Drops the reservation. That happens on every store, store-conditional and
    /// atomic operation, on a return from a trap, and on a trap.
    #[inline]
    pub fn clear_reservation(&mut self)
        ensures
            final(self)@ == (CpuView { reservation: None, ..old(self)@ }),
    {
        self.reservation = None;
    }

    /// Reserves the doubleword of the physical address `addr`.
    #[inline]
    pub fn set_reservation(&mut self, addr: u64)
        ensures
            final(self)@ == (CpuView {
                reservation: Some((addr - addr % 8) as u64),
                ..old(self)@
            }),
    {
        self.reservation = Some(addr - addr % 8);
    }

    /// Whether the doubleword of the physical address `addr` is reserved.
    #[inline]
    pub fn check_reservation(&self, addr: u64) -> (b: bool)
        ensures
            b == self@.reserved(addr),
    {
        match self.reservation {
            Some(reserved) => addr - addr % 8 == reserved,
            None => false,
        }
    }

    /// Reads an integer register; x0 is zero.
    pub fn read_reg(&self, index: usize) -> (v: u64)
        requires
            index < 32,
        ensures
            v == self@.x(index as int),
    {
        if index == 0 {
            0
        } else {
            self.regs[index]
        }
    }

    /// Writes an integer register; a write to x0 is lost.
    pub fn write_reg(&mut self, index: usize, value: u64)
        requires
            index < 32,
        ensures
            final(self)@ == old(self)@.set_x(index as int, value),
    {
        if index != 0 {
            self.regs[index] = value;
        }
    }

    /// Writes a floating-point register and marks the floating-point state as
    /// dirty.
    pub(crate) fn write_freg(&mut self, index: usize, value: u64)
        requires
            index < 32,
        ensures
            final(self)@ == old(self)@.set_f(index as int, value),
    {
        self.f_regs[index] = value;
        let mstatus: u64 = self.csr.read(MSTATUS);
        self.csr.write(MSTATUS, mstatus | 0x6000);
    }

    /// Ends an instruction that writes an integer register.
    pub(crate) fn end_x(&mut self, index: usize, value: u64, pc: u64) -> (r: Result<
        (),
        (Trap, u64),
    >)
        requires
            index < 32,
        ensures
            (final(self)@, r) == old(self)@.write_x(index as int, value, pc),
    {
        self.write_reg(index, value);
        self.pc = pc;
        Ok(())
    }

    /// Ends an instruction that writes a floating-point register.
    pub(crate) fn end_f(&mut self, index: usize, value: u64, pc: u64) -> (r: Result<
        (),
        (Trap, u64),
    >)
        requires
            index < 32,
        ensures
            (final(self)@, r) == old(self)@.write_f(index as int, value, pc),
    {
        self.write_freg(index, value);
        self.pc = pc;
        Ok(())
    }

    /// Ends an instruction that only goes on at `pc`.
    pub(crate) fn end(&mut self, pc: u64) -> (r: Result<(), (Trap, u64)>)
        ensures
            (final(self)@, r) == old(self)@.go(pc),
    {
        self.pc = pc;
        Ok(())
    }

    /// Refuses an illegal instruction.
    pub(crate) fn refuse_inst(&self, inst: u32) -> (r: Result<(), (Trap, u64)>)
        ensures
            (self@, r) == self@.refuse(inst),
    {
        Err((Trap::Exception(Exception::IllegalInstruction), inst as u64))
    }

    /// Advances the time by one tick.
    pub fn update_timer(&mut self)
        ensures
            final(self)@ == (CpuView {
                bus: BusView { mtime: old(self)@.bus.mtime.wrapping_add(1), ..old(self)@.bus },
                ..old(self)@
            }),
    {
        self.update_timer_by(1);
    }

    /// Advances the time by `delta` ticks.
    pub fn update_timer_by(&mut self, delta: u64)
        ensures
            final(self)@ == (CpuView {
                bus: BusView { mtime: old(self)@.bus.mtime.wrapping_add(delta), ..old(self)@.bus },
                ..old(self)@
            }),
    {
        self.bus.tick_timer_by(delta);
    }
}

/// The ABI name of an integer register.
pub open spec fn abi_name(index: int) -> Seq<char> {
    if index == 0 {
        "zero"@
    } else if index == 1 {
        "ra"@
    } else if index == 2 {
        "sp"@
    } else if index == 3 {
        "gp"@
    } else if index == 4 {
        "tp"@
    } else if index == 5 {
        "t0"@
    } else if index == 6 {
        "t1"@
    } else if index == 7 {
        "t2"@
    } else if index == 8 {
        "s0"@
    } else if index == 9 {
        "s1"@
    } else if index == 10 {
        "a0"@
    } else if index == 11 {
        "a1"@
    } else if index == 12 {
        "a2"@
    } else if index == 13 {
        "a3"@
    } else if index == 14 {
        "a4"@
    } else if index == 15 {
        "a5"@
    } else if index == 16 {
        "a6"@
    } else if index == 17 {
        "a7"@
    } else if index == 18 {
        "s2"@
    } else if index == 19 {
        "s3"@
    } else if index == 20 {
        "s4"@
    } else if index == 21 {
        "s5"@
    } else if index == 22 {
        "s6"@
    } else if index == 23 {
        "s7"@
    } else if index == 24 {
        "s8"@
    } else if index == 25 {
        "s9"@
    } else if index == 26 {
        "s10"@
    } else if index == 27 {
        "s11"@
    } else if index == 28 {
        "t3"@
    } else if index == 29 {
        "t4"@
    } else if index == 30 {
        "t5"@
    } else if index == 31 {
        "t6"@
    } else {
        "??"@
    }
}

/// The ABI name of an integer register.
pub fn reg_name(index: usize) -> (s: &'static str)
    ensures
        s@ == abi_name(index as int),
{
    match index {
        0 => "zero",
        1 => "ra",
        2 => "sp",
        3 => "gp",
        4 => "tp",
        5 => "t0",
        6 => "t1",
        7 => "t2",
        8 => "s0",
        9 => "s1",
        10 => "a0",
        11 => "a1",
        12 => "a2",
        13 => "a3",
        14 => "a4",
        15 => "a5",
        16 => "a6",
        17 => "a7",
        18 => "s2",
        19 => "s3",
        20 => "s4",
        21 => "s5",
        22 => "s6",
        23 => "s7",
        24 => "s8",
        25 => "s9",
        26 => "s10",
        27 => "s11",
        28 => "t3",
        29 => "t4",
        30 => "t5",
        31 => "t6",
        _ => "??",
    }
}

/// The register files of every hart have their fixed size, and its interrupt
/// controller is well-formed.
pub proof fn law_every_cpu_is_well_formed(c: &Cpu)
    ensures
        c@.wf(),
        c@.bus.plic.wf(),
{
    law_every_bus_is_well_formed(&c.bus);
}

} // verus!
