//! Exceptions and interrupts.

use vstd::prelude::*;

verus! {

/// Synchronous exceptions.
#[derive(Debug, Clone, Copy, PartialEq, Eq, Structural)]
pub enum Exception {
    InstructionAddressMisaligned,
    InstructionAccessFault,
    IllegalInstruction,
    Breakpoint,
    LoadAddressMisaligned,
    LoadAccessFault,
    StoreAMOAddressMisaligned,
    StoreAMOAccessFault,
    EnvironmentCallFromUMode,
    EnvironmentCallFromSMode,
    EnvironmentCallFromMMode,
    InstructionPageFault,
    LoadPageFault,
    StoreAMOPageFault,
}

/// Interrupts.
#[derive(Debug, Clone, Copy, PartialEq, Eq, Structural)]
pub enum Interrupt {
    UserSoftwareInterrupt,
    SupervisorSoftwareInterrupt,
    MachineSoftwareInterrupt,
    UserTimerInterrupt,
    SupervisorTimerInterrupt,
    MachineTimerInterrupt,
    UserExternalInterrupt,
    SupervisorExternalInterrupt,
    MachineExternalInterrupt,
}

/// What makes a hart leave the normal flow of instructions.
#[derive(Debug, Clone, Copy, PartialEq, Eq, Structural)]
pub enum Trap {
    Exception(Exception),
    Interrupt(Interrupt),
}

/// The exception code of the privileged architecture.
pub open spec fn exception_code(e: Exception) -> u64 {
    match e {
        Exception::InstructionAddressMisaligned => 0,
        Exception::InstructionAccessFault => 1,
        Exception::IllegalInstruction => 2,
        Exception::Breakpoint => 3,
        Exception::LoadAddressMisaligned => 4,
        Exception::LoadAccessFault => 5,
        Exception::StoreAMOAddressMisaligned => 6,
        Exception::StoreAMOAccessFault => 7,
        Exception::EnvironmentCallFromUMode => 8,
        Exception::EnvironmentCallFromSMode => 9,
        Exception::EnvironmentCallFromMMode => 11,
        Exception::InstructionPageFault => 12,
        Exception::LoadPageFault => 13,
        Exception::StoreAMOPageFault => 15,
    }
}

/// The interrupt code of the privileged architecture.
pub open spec fn interrupt_code(i: Interrupt) -> u64 {
    match i {
        Interrupt::UserSoftwareInterrupt => 0,
        Interrupt::SupervisorSoftwareInterrupt => 1,
        Interrupt::MachineSoftwareInterrupt => 3,
        Interrupt::UserTimerInterrupt => 4,
        Interrupt::SupervisorTimerInterrupt => 5,
        Interrupt::MachineTimerInterrupt => 7,
        Interrupt::UserExternalInterrupt => 8,
        Interrupt::SupervisorExternalInterrupt => 9,
        Interrupt::MachineExternalInterrupt => 11,
    }
}

/// The interrupt flag of the cause registers: their most significant bit.
pub const INTERRUPT_FLAG: u64 = 0x8000_0000_0000_0000;

/// What the cause registers hold for a trap: its code, plus the interrupt flag
/// for an interrupt.
pub open spec fn cause(t: Trap) -> u64 {
    match t {
        Trap::Exception(e) => exception_code(e),
        Trap::Interrupt(i) => (INTERRUPT_FLAG + interrupt_code(i)) as u64,
    }
}

/// The trap's code without the interrupt flag.
pub open spec fn plain_code(t: Trap) -> u64 {
    match t {
        Trap::Exception(e) => exception_code(e),
        Trap::Interrupt(i) => interrupt_code(i),
    }
}

impl Exception {
    /// The exception code.
    pub fn number(&self) -> (n: u64)
        ensures
            n == exception_code(*self),
            n < 16,
    {
        match self {
            Exception::InstructionAddressMisaligned => 0,
            Exception::InstructionAccessFault => 1,
            Exception::IllegalInstruction => 2,
            Exception::Breakpoint => 3,
            Exception::LoadAddressMisaligned => 4,
            Exception::LoadAccessFault => 5,
            Exception::StoreAMOAddressMisaligned => 6,
            Exception::StoreAMOAccessFault => 7,
            Exception::EnvironmentCallFromUMode => 8,
            Exception::EnvironmentCallFromSMode => 9,
            Exception::EnvironmentCallFromMMode => 11,
            Exception::InstructionPageFault => 12,
            Exception::LoadPageFault => 13,
            Exception::StoreAMOPageFault => 15,
        }
    }
}

impl Interrupt {
    /// The interrupt code.
    pub fn number(&self) -> (n: u64)
        ensures
            n == interrupt_code(*self),
            n < 16,
    {
        match self {
            Interrupt::UserSoftwareInterrupt => 0,
            Interrupt::SupervisorSoftwareInterrupt => 1,
            Interrupt::MachineSoftwareInterrupt => 3,
            Interrupt::UserTimerInterrupt => 4,
            Interrupt::SupervisorTimerInterrupt => 5,
            Interrupt::MachineTimerInterrupt => 7,
            Interrupt::UserExternalInterrupt => 8,
            Interrupt::SupervisorExternalInterrupt => 9,
            Interrupt::MachineExternalInterrupt => 11,
        }
    }
}

impl Trap {
    /// What `mcause` or `scause` holds for this trap.
    pub fn code(&self) -> (c: u64)
        ensures
            c == cause(*self),
    {
        match self {
            Trap::Exception(e) => e.number(),
            Trap::Interrupt(i) => INTERRUPT_FLAG + i.number(),
        }
    }

    /// The code without the interrupt flag: the bit of the delegation registers
    /// that concerns this trap.
    pub fn number(&self) -> (n: u64)
        ensures
            n == plain_code(*self),
            n < 16,
    {
        match self {
            Trap::Exception(e) => e.number(),
            Trap::Interrupt(i) => i.number(),
        }
    }

    /// Whether this is an interrupt.
    pub fn is_interrupt(&self) -> (b: bool)
        ensures
            b == (*self is Interrupt),
    {
        match self {
            Trap::Interrupt(_) => true,
            Trap::Exception(_) => false,
        }
    }

    /// Whether this is an exception.
    pub fn is_exception(&self) -> (b: bool)
        ensures
            b == (*self is Exception),
    {
        match self {
            Trap::Exception(_) => true,
            Trap::Interrupt(_) => false,
        }
    }
}

/// The cause tells interrupts from exceptions: an interrupt's is at least
/// 2^63, an exception's is below.
pub proof fn law_cause_flag(t: Trap)
    ensures
        (t is Interrupt) == (cause(t) >= INTERRUPT_FLAG),
        cause(t) % INTERRUPT_FLAG == plain_code(t),
{
}

/// Different traps have different causes.
pub proof fn law_cause_injective(t: Trap, u: Trap)
    requires
        cause(t) == cause(u),
    ensures
        t == u,
{
}

} // verus!
