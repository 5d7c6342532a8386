use riscv64_emulator::trap::{Exception, Interrupt, Trap};

#[test]
fn codes_of_exceptions() {
    let all = [
        (Exception::InstructionAddressMisaligned, 0),
        (Exception::InstructionAccessFault, 1),
        (Exception::IllegalInstruction, 2),
        (Exception::Breakpoint, 3),
        (Exception::LoadAddressMisaligned, 4),
        (Exception::LoadAccessFault, 5),
        (Exception::StoreAMOAddressMisaligned, 6),
        (Exception::StoreAMOAccessFault, 7),
        (Exception::EnvironmentCallFromUMode, 8),
        (Exception::EnvironmentCallFromSMode, 9),
        (Exception::EnvironmentCallFromMMode, 11),
        (Exception::InstructionPageFault, 12),
        (Exception::LoadPageFault, 13),
        (Exception::StoreAMOPageFault, 15),
    ];
    for (e, n) in all {
        let t = Trap::Exception(e);
        assert_eq!(t.code(), n);
        assert!(t.is_exception());
        assert!(!t.is_interrupt());
    }
}

#[test]
fn codes_of_interrupts() {
    let all = [
        (Interrupt::UserSoftwareInterrupt, 0),
        (Interrupt::SupervisorSoftwareInterrupt, 1),
        (Interrupt::MachineSoftwareInterrupt, 3),
        (Interrupt::UserTimerInterrupt, 4),
        (Interrupt::SupervisorTimerInterrupt, 5),
        (Interrupt::MachineTimerInterrupt, 7),
        (Interrupt::UserExternalInterrupt, 8),
        (Interrupt::SupervisorExternalInterrupt, 9),
        (Interrupt::MachineExternalInterrupt, 11),
    ];
    for (i, n) in all {
        let t = Trap::Interrupt(i);
        assert_eq!(t.code(), 1 << 63 | n);
        assert_eq!(t.number(), n);
        assert!(t.is_interrupt());
        assert!(!t.is_exception());
    }
}
