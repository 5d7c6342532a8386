use riscv64_emulator::bus::{Bus, CLINT_BASE, DRAM_BASE, PLIC_BASE};
use riscv64_emulator::cpu::traps::reported;
use riscv64_emulator::cpu::{Cpu, Mode, Report};
use riscv64_emulator::csr::{
    MCAUSE, MEDELEG, MEPC, MHARTID, MIDELEG, MIE, MIP, MSCRATCH, MSTATUS, MTVAL, MTVEC, SCAUSE,
    SEPC, SIP, SSTATUS, STIMECMP, STVAL, STVEC, TIME,
};
use riscv64_emulator::dram::Dram;
use riscv64_emulator::flash::Flash;
use riscv64_emulator::machine;
use riscv64_emulator::mrom::Mrom;
use riscv64_emulator::trap::{Exception, Interrupt, Trap};

fn hart() -> Cpu {
    let mut c = Cpu::new(Bus::new(
        Mrom::new(0x1000).unwrap(),
        Dram::new(0x2_0000).unwrap(),
        Flash::new(64),
        None,
    ));
    c.pc = DRAM_BASE;
    c
}

fn csr_inst(f3: u32, csr: u16, rd: u32, rs1: u32) -> u32 {
    (csr as u32) << 20 | rs1 << 15 | f3 << 12 | rd << 7 | 0x73
}

fn illegal(inst: u32) -> Result<(), (Trap, u64)> {
    Err((Trap::Exception(Exception::IllegalInstruction), inst as u64))
}

#[test]
fn environment_calls() {
    for (mode, e) in [
        (Mode::User, Exception::EnvironmentCallFromUMode),
        (Mode::Supervisor, Exception::EnvironmentCallFromSMode),
        (Mode::Hypervisor, Exception::EnvironmentCallFromMMode),
        (Mode::Machine, Exception::EnvironmentCallFromMMode),
    ] {
        let mut c = hart();
        c.mode = mode;
        assert_eq!(c.execute(0x0000_0073), Err((Trap::Exception(e), 0)));
    }
    let mut c = hart();
    assert_eq!(c.execute(0x0010_0073), Err((Trap::Exception(Exception::Breakpoint), DRAM_BASE)));
}

#[test]
fn instructions_that_only_go_on() {
    let mut c = hart();
    // wfi, wrs.nto, wrs.sto, sfence.vma, hfence.gvma, hfence.vvma, fence, fence.i,
    // cbo.inval, cbo.clean, cbo.flush
    let all = [
        0x1050_0073u32, 0x00D0_0073, 0x01D0_0073, 0x1200_0073, 0x6200_0073, 0x2200_0073,
        0x0000_000F, 0x0000_100F, 0x0000_200F, 0x0010_200F, 0x0020_200F,
    ];
    for inst in all {
        assert_eq!(c.execute(inst), Ok(()), "{inst:#x}");
    }
    assert_eq!(c.pc, DRAM_BASE + 4 * all.len() as u64);
    for inst in [0x0030_200Fu32, 0x0050_200F, 0x0000_300F, 0x7FF0_0073, 0x0000_4073] {
        assert_eq!(c.execute(inst), illegal(inst));
    }
}

#[test]
fn zeroing_a_cache_block() {
    let mut c = hart();
    c.bus.dram.load(0x4000, &[0xFF; 0x100]).unwrap();
    c.write_reg(5, DRAM_BASE + 0x407F);
    c.execute(0x0042_A00F).unwrap();
    assert_eq!(c.bus.dram.read8(0x403F), Ok(0xFF));
    for i in 0..8 {
        assert_eq!(c.bus.dram.read64(0x4040 + 8 * i), Ok(0));
    }
    assert_eq!(c.bus.dram.read8(0x4080), Ok(0xFF));
}

#[test]
fn register_instructions() {
    let mut c = hart();
    c.write_reg(5, 0xF0);
    c.execute(csr_inst(1, MSCRATCH, 6, 5)).unwrap();
    assert_eq!(c.read_reg(6), 0);
    c.write_reg(5, 0x0F);
    c.execute(csr_inst(2, MSCRATCH, 6, 5)).unwrap();
    assert_eq!(c.read_reg(6), 0xF0);
    c.write_reg(5, 0xF1);
    c.execute(csr_inst(3, MSCRATCH, 6, 5)).unwrap();
    assert_eq!(c.read_reg(6), 0xFF);
    c.execute(csr_inst(5, MSCRATCH, 6, 0x1F)).unwrap();
    assert_eq!(c.read_reg(6), 0x0E);
    c.execute(csr_inst(7, MSCRATCH, 6, 0x11)).unwrap();
    assert_eq!(c.read_reg(6), 0x1F);
    c.execute(csr_inst(6, MSCRATCH, 6, 0x01)).unwrap();
    assert_eq!(c.read_reg(6), 0x0E);
    assert_eq!(c.csr.read(MSCRATCH), 0x0F);
    assert_eq!(c.pc, DRAM_BASE + 24);
}

#[test]
fn register_access_is_checked() {
    let mut c = hart();
    // No such register.
    for f3 in [1, 2, 3, 5, 6, 7] {
        let inst = csr_inst(f3, 0x7C0, 6, 0);
        assert_eq!(c.execute(inst), illegal(inst));
    }
    // Read-only registers can be read.
    c.execute(csr_inst(2, MHARTID, 6, 0)).unwrap();
    c.execute(csr_inst(6, MHARTID, 6, 0)).unwrap();
    for inst in [csr_inst(1, MHARTID, 6, 0), csr_inst(2, MHARTID, 6, 5), csr_inst(7, MHARTID, 6, 1)]
    {
        assert_eq!(c.execute(inst), illegal(inst));
    }
    // The mode has to be high enough.
    c.mode = Mode::Supervisor;
    let inst = csr_inst(2, MSTATUS, 6, 0);
    assert_eq!(c.execute(inst), illegal(inst));
    assert_eq!(c.execute(csr_inst(2, SSTATUS, 6, 0)), Ok(()));
    c.mode = Mode::User;
    let inst = csr_inst(2, SSTATUS, 6, 0);
    assert_eq!(c.execute(inst), illegal(inst));
    assert_eq!(c.execute(csr_inst(2, TIME, 6, 0)), Ok(()));
}

#[test]
fn the_time_register_shows_the_clock() {
    let mut c = hart();
    c.update_timer_by(0x1_2345);
    c.update_timer();
    c.execute(csr_inst(2, TIME, 6, 0)).unwrap();
    assert_eq!(c.read_reg(6), 0x1_2346);
    c.execute(csr_inst(3, TIME, 7, 0)).unwrap();
    assert_eq!(c.read_reg(7), 0x1_2346);
}

#[test]
fn the_supervisor_deadline_reaches_the_bus() {
    let mut c = hart();
    c.write_reg(5, 500);
    c.execute(csr_inst(1, STIMECMP, 6, 5)).unwrap();
    assert_eq!(c.read_reg(6), u64::MAX);
    assert_eq!(c.bus.stimecmp, 500);
    assert_eq!(c.csr.read(STIMECMP), 500);
    c.write_reg(5, 0xF);
    c.execute(csr_inst(2, STIMECMP, 6, 5)).unwrap();
    assert_eq!(c.bus.stimecmp, 500 | 0xF);
    assert_eq!(c.csr.read(STIMECMP), c.bus.stimecmp);
    c.execute(csr_inst(7, STIMECMP, 6, 1)).unwrap();
    assert_eq!(c.bus.stimecmp, 500 | 0xE);
    assert_eq!(c.csr.read(STIMECMP), c.bus.stimecmp);
    c.execute(csr_inst(5, STIMECMP, 6, 7)).unwrap();
    assert_eq!(c.read_reg(6), 500 | 0xE);
    assert_eq!(c.bus.stimecmp, 7);
    assert_eq!(c.csr.read(STIMECMP), c.bus.stimecmp);
    c.execute(csr_inst(1, STIMECMP, 0, 0)).unwrap();
    assert_eq!(c.bus.stimecmp, 0);
    assert_eq!(c.csr.read(STIMECMP), c.bus.stimecmp);
}

#[test]
fn machine_traps_and_returns() {
    let mut c = hart();
    c.mode = Mode::User;
    c.csr.write(MEDELEG, 0);
    c.csr.write(MTVEC, 0x8000_1001);
    c.csr.write(MSTATUS, 0x8);
    c.set_reservation(DRAM_BASE);
    assert!(c.handle_trap(Trap::Exception(Exception::IllegalInstruction), 0xBAD));
    assert_eq!(c.mode, Mode::Machine);
    // Exceptions are not vectored.
    assert_eq!(c.pc, 0x8000_1000);
    assert_eq!(c.csr.read(MEPC), DRAM_BASE);
    assert_eq!(c.csr.read(MCAUSE), 2);
    assert_eq!(c.csr.read(MTVAL), 0xBAD);
    assert_eq!(c.csr.read(MSTATUS) & 0x1888, 0x80);
    assert_eq!(c.reservation, None);
    c.set_reservation(DRAM_BASE);
    c.execute(0x3020_0073).unwrap();
    assert_eq!(c.mode, Mode::User);
    assert_eq!(c.pc, DRAM_BASE);
    assert_eq!(c.csr.read(MSTATUS) & 0x1888, 0x88);
    assert_eq!(c.reservation, None);
}

#[test]
fn supervisor_traps_and_returns() {
    let mut c = hart();
    c.mode = Mode::Supervisor;
    c.csr.write(STVEC, 0x8000_2001);
    c.csr.write(SSTATUS, 0x2);
    c.handle_trap(Trap::Interrupt(Interrupt::SupervisorTimerInterrupt), 0);
    assert_eq!(c.mode, Mode::Supervisor);
    // Interrupts are.
    assert_eq!(c.pc, 0x8000_2000 + 4 * 5);
    assert_eq!(c.csr.read(SEPC), DRAM_BASE);
    assert_eq!(c.csr.read(SCAUSE), 1 << 63 | 5);
    assert_eq!(c.csr.read(STVAL), 0);
    assert_eq!(c.csr.read(SSTATUS) & 0x122, 0x120);
    c.execute(0x1020_0073).unwrap();
    assert_eq!(c.mode, Mode::Supervisor);
    assert_eq!(c.pc, DRAM_BASE);
    assert_eq!(c.csr.read(SSTATUS) & 0x122, 0x22);
    c.mode = Mode::User;
    c.handle_trap(Trap::Exception(Exception::LoadPageFault), 77);
    assert_eq!(c.mode, Mode::Supervisor);
    assert_eq!(c.csr.read(STVAL), 77);
    c.execute(0x1020_0073).unwrap();
    assert_eq!(c.mode, Mode::User);
}

#[test]
fn traps_in_machine_mode_are_not_delegated() {
    let mut c = hart();
    c.csr.write(MEDELEG, u64::MAX);
    c.csr.write(MTVEC, 0x9000);
    c.handle_trap(Trap::Exception(Exception::LoadPageFault), 5);
    assert_eq!(c.mode, Mode::Machine);
    assert_eq!(c.pc, 0x9000);
    assert_eq!(c.csr.read(MSTATUS) & 0x1800, 0x1800);
    // The machine interrupts have no delegation by default.
    let mut c = hart();
    c.mode = Mode::User;
    c.csr.write(MTVEC, 0x9001);
    c.handle_trap(Trap::Interrupt(Interrupt::MachineTimerInterrupt), 0);
    assert_eq!(c.mode, Mode::Machine);
    assert_eq!(c.pc, 0x9000 + 4 * 7);
}

#[test]
fn the_machine_timer_interrupts() {
    let mut c = hart();
    c.bus.dram.write32(0, 0x13).unwrap();
    c.csr.write(MTVEC, DRAM_BASE + 0x100);
    c.csr.write(MIE, 0x80);
    c.bus.write64(CLINT_BASE + 0x4000, 50).unwrap();
    c.update_timer_by(49);
    c.csr.write(MSTATUS, 0x8);
    c.step().unwrap();
    assert_eq!(c.pc, DRAM_BASE + 4);
    c.update_timer();
    c.step().unwrap();
    assert_eq!(c.pc, DRAM_BASE + 0x100);
    assert_eq!(c.csr.read(MCAUSE), 1 << 63 | 7);
    assert_eq!(c.csr.read(MEPC), DRAM_BASE + 4);
    assert_eq!(c.inst_count, 2);
    // Interrupts are off in the handler.
    c.bus.dram.write32(0x100, 0x13).unwrap();
    c.step().unwrap();
    assert_eq!(c.pc, DRAM_BASE + 0x104);
}

#[test]
fn the_lines_show_in_the_pending_register() {
    let mut c = hart();
    c.bus.dram.write32(0, 0x13).unwrap();
    // Nothing is due.
    c.step().unwrap();
    assert_eq!(c.csr.read(MIP), 0);
    // Software interrupt, both timers, and a source for each context.
    c.bus.write32(CLINT_BASE, 1).unwrap();
    c.bus.write64(CLINT_BASE + 0x4000, 0).unwrap();
    c.bus.set_stimecmp(0);
    c.bus.write32(PLIC_BASE + 4 * 3, 1).unwrap();
    c.bus.write32(PLIC_BASE + 0x2000, 1 << 3).unwrap();
    c.bus.write32(PLIC_BASE + 0x2080, 1 << 3).unwrap();
    c.bus.plic.set_pending(3);
    c.pc = DRAM_BASE;
    c.step().unwrap();
    assert_eq!(c.csr.read(MIP), 0xAA8);
    assert_eq!(c.csr.read(SIP), 0x220);
    // The register follows the lines down again.
    c.bus.write32(CLINT_BASE, 0).unwrap();
    c.bus.plic.clear_pending(3);
    c.pc = DRAM_BASE;
    c.step().unwrap();
    assert_eq!(c.csr.read(MIP), 0xA0);
}

#[test]
fn machine_interrupts_reach_lower_modes_without_the_enable() {
    let mut c = hart();
    c.mode = Mode::User;
    c.csr.write(MTVEC, DRAM_BASE + 0x100);
    c.csr.write(MIE, 0x8);
    c.bus.write32(CLINT_BASE, 1).unwrap();
    c.step().unwrap();
    assert_eq!(c.mode, Mode::Machine);
    assert_eq!(c.csr.read(MCAUSE), 1 << 63 | 3);
}

#[test]
fn interrupt_priorities() {
    let mut c = hart();
    c.csr.write(MSTATUS, 0x8);
    c.csr.write(MIE, 0x888);
    c.bus.write32(CLINT_BASE, 1).unwrap();
    c.bus.write64(CLINT_BASE + 0x4000, 0).unwrap();
    c.bus.write32(PLIC_BASE + 4 * 3, 1).unwrap();
    c.bus.write32(PLIC_BASE + 0x2000, 1 << 3).unwrap();
    c.bus.plic.set_pending(3);
    c.step().unwrap();
    assert_eq!(c.csr.read(MCAUSE), 1 << 63 | 11);
    c.csr.write(MSTATUS, 0x8);
    assert_eq!(c.bus.read32(PLIC_BASE + 0x20_0004), Ok(3));
    c.step().unwrap();
    assert_eq!(c.csr.read(MCAUSE), 1 << 63 | 3);
    c.csr.write(MSTATUS, 0x8);
    c.bus.write32(CLINT_BASE, 0).unwrap();
    c.step().unwrap();
    assert_eq!(c.csr.read(MCAUSE), 1 << 63 | 7);
}

#[test]
fn supervisor_interrupts() {
    let mut c = hart();
    c.mode = Mode::Supervisor;
    c.csr.write(STVEC, DRAM_BASE + 0x200);
    c.csr.write(MIE, 0x222);
    c.csr.write(MIP, 0x2);
    c.bus.set_stimecmp(0);
    c.bus.dram.write32(0, 0x13).unwrap();
    // Off in supervisor mode.
    c.step().unwrap();
    assert_eq!(c.pc, DRAM_BASE + 4);
    assert_eq!(c.csr.read(MIP), 0x22);
    // On: software before timer.
    c.csr.write(SSTATUS, 0x2);
    c.step().unwrap();
    assert_eq!(c.pc, DRAM_BASE + 0x200);
    assert_eq!(c.csr.read(SCAUSE), 1 << 63 | 1);
    // In user mode the enable does not matter.
    c.mode = Mode::User;
    c.csr.write(MIP, 0);
    c.step().unwrap();
    assert_eq!(c.mode, Mode::Supervisor);
    assert_eq!(c.csr.read(SCAUSE), 1 << 63 | 5);
    // Without delegation they are not taken.
    c.mode = Mode::User;
    c.csr.write(MIDELEG, 0);
    c.csr.write(MEDELEG, 0);
    c.pc = DRAM_BASE;
    c.step().unwrap();
    assert_eq!(c.pc, DRAM_BASE + 4);
}

#[test]
fn fetching() {
    // Two halves, the second one on the next page.
    let mut c = hart();
    c.bus.dram.write32(0xFFE, 0x0050_0293).unwrap();
    c.pc = DRAM_BASE + 0xFFE;
    c.step().unwrap();
    assert_eq!(c.read_reg(5), 5);
    assert_eq!(c.pc, DRAM_BASE + 0x1002);
    // A short one.
    c.bus.dram.write16(0x1002, 0x557D).unwrap();
    c.step().unwrap();
    assert_eq!(c.read_reg(10), u64::MAX);
    assert_eq!(c.pc, DRAM_BASE + 0x1004);
    // An odd address.
    c.pc = DRAM_BASE + 1;
    c.step().unwrap();
    assert_eq!(c.csr.read(MCAUSE), 0);
    assert_eq!(c.csr.read(MTVAL), DRAM_BASE + 1);
    // Nowhere.
    c.pc = 0x4000_0000;
    c.step().unwrap();
    assert_eq!(c.csr.read(MCAUSE), 1);
    assert_eq!(c.csr.read(MTVAL), 0x4000_0000);
    // Nothing to execute.
    c.pc = DRAM_BASE + 0x8000;
    c.step().unwrap();
    assert_eq!(c.csr.read(MCAUSE), 2);
    assert_eq!(c.csr.read(MTVAL), 0);
}

#[test]
fn booting() {
    let mut c = hart();
    c.write_reg(10, 9);
    machine::boot(&mut c);
    assert_eq!(c.pc, 0x1000);
    assert_eq!(c.read_reg(10), 0);
    assert_eq!(c.read_reg(11), 0x8700_0000);
}

#[test]
fn keeping_time() {
    let mut c = hart();
    assert!(!machine::after_step(&mut c, 9999));
    assert_eq!(c.bus.get_mtime_public(), 0);
    assert!(!machine::after_step(&mut c, 10000));
    assert_eq!(c.bus.get_mtime_public(), 1000);
    assert!(!machine::after_step(&mut c, 100_000_000_000));
    assert!(machine::after_step(&mut c, 100_000_000_001));
    assert_eq!(c.bus.get_mtime_public(), 2000);
}

#[test]
fn which_traps_are_reported() {
    for e in [
        Exception::EnvironmentCallFromUMode,
        Exception::EnvironmentCallFromSMode,
        Exception::Breakpoint,
        Exception::InstructionPageFault,
        Exception::LoadPageFault,
        Exception::StoreAMOPageFault,
    ] {
        assert!(!reported(Trap::Exception(e), 0));
    }
    for e in [
        Exception::InstructionAddressMisaligned,
        Exception::InstructionAccessFault,
        Exception::LoadAddressMisaligned,
        Exception::LoadAccessFault,
        Exception::StoreAMOAddressMisaligned,
        Exception::StoreAMOAccessFault,
        Exception::EnvironmentCallFromMMode,
    ] {
        assert!(reported(Trap::Exception(e), 0));
    }
    assert!(!reported(Trap::Interrupt(Interrupt::MachineTimerInterrupt), 0));
    let illegal = Trap::Exception(Exception::IllegalInstruction);
    for addr in 0..0x1000u64 {
        let probe = matches!(addr >> 8, 0xB | 0x3 | 0x1 | 0xD | 0xF);
        assert_eq!(reported(illegal, addr << 20 | 0xF_FFFF), !probe);
    }
}

#[test]
fn a_trap_is_reported_once() {
    let mut c = hart();
    c.csr.write(MEDELEG, 0);
    assert_eq!(c.take_report(), None);
    // An instruction of zeros is illegal, and tells of no register.
    c.step().unwrap();
    assert_eq!(c.csr.read(MCAUSE), 2);
    let report = c.take_report();
    assert_eq!(
        report,
        Some(Report {
            trap: Trap::Exception(Exception::IllegalInstruction),
            tval: 0,
            pc: DRAM_BASE,
            mode: Mode::Machine,
            inst_count: c.inst_count,
        })
    );
    assert_eq!(c.take_report(), None);
    c.handle_trap(Trap::Exception(Exception::LoadPageFault), 5);
    assert_eq!(c.take_report(), None);
}
