use riscv64_emulator::bus::{Bus, DRAM_BASE};
use riscv64_emulator::cpu::Cpu;
use riscv64_emulator::csr::MSTATUS;
use riscv64_emulator::dram::Dram;
use riscv64_emulator::flash::Flash;
use riscv64_emulator::mrom::Mrom;
use riscv64_emulator::trap::{Exception, Trap};

const DATA: u64 = DRAM_BASE + 0x4000;

fn hart() -> Cpu {
    let mut c = Cpu::new(Bus::new(
        Mrom::new(0x1000).unwrap(),
        Dram::new(0x2_0000).unwrap(),
        Flash::new(64),
        None,
    ));
    c.pc = DRAM_BASE;
    c
}

fn illegal(inst: u32) -> Result<(), (Trap, u64)> {
    Err((Trap::Exception(Exception::IllegalInstruction), inst as u64))
}

#[test]
fn stack_pointer_arithmetic() {
    let mut c = hart();
    c.write_reg(2, 0x1000);
    // c.addi4spn x8, sp, 16
    c.execute(0x0800).unwrap();
    assert_eq!(c.read_reg(8), 0x1010);
    assert_eq!(c.pc, DRAM_BASE + 2);
    // c.addi16sp sp, -64
    c.execute(0x7139).unwrap();
    assert_eq!(c.read_reg(2), 0x1000 - 64);
    // The all-zero halfword is no instruction.
    assert_eq!(c.execute(0x0000), illegal(0));
}

#[test]
fn immediates() {
    let mut c = hart();
    // c.li x10, -1
    c.execute(0x557D).unwrap();
    assert_eq!(c.read_reg(10), u64::MAX);
    // c.addi x10, 5
    c.execute(0x0515).unwrap();
    assert_eq!(c.read_reg(10), 4);
    // c.lui x10, 0xfffe0
    c.execute(0x7501).unwrap();
    assert_eq!(c.read_reg(10), 0xFFFF_FFFF_FFFE_0000);
    // c.addiw x10, -1
    c.write_reg(10, 0x1_8000_0000);
    c.execute(0x357D).unwrap();
    assert_eq!(c.read_reg(10), 0x7FFF_FFFF);
    // c.nop
    c.execute(0x0001).unwrap();
    assert_eq!(c.read_reg(0), 0);
    assert_eq!(c.pc, DRAM_BASE + 10);
}

#[test]
fn arithmetic_on_the_short_registers() {
    let cases: [(u32, u64, u64, u64); 9] = [
        // c.srli x8, 4
        (0x8011, 0xF0, 0, 0x0F),
        // c.srai x8, 4
        (0x8411, 0x8000_0000_0000_0000, 0, 0xF800_0000_0000_0000),
        // c.andi x8, 4
        (0x8811, 0xFF, 0, 4),
        // c.sub x8, x9
        (0x8C05, 5, 7, u64::MAX - 1),
        // c.xor x8, x9
        (0x8C25, 0xF0, 0xFF, 0x0F),
        // c.or x8, x9
        (0x8C45, 0xF0, 0x0F, 0xFF),
        // c.and x8, x9
        (0x8C65, 0xF0, 0x3F, 0x30),
        // c.subw x8, x9
        (0x9C05, 0, 1, u64::MAX),
        // c.addw x8, x9
        (0x9C25, 0x7FFF_FFFF, 1, 0xFFFF_FFFF_8000_0000),
    ];
    for (inst, a, b, want) in cases {
        let mut c = hart();
        c.write_reg(8, a);
        c.write_reg(9, b);
        c.execute(inst).unwrap();
        assert_eq!(c.read_reg(8), want, "{inst:#x}");
    }
    let mut c = hart();
    assert_eq!(c.execute(0x9C45), illegal(0x9C45));
    assert_eq!(c.execute(0x9C65), illegal(0x9C65));
}

#[test]
fn short_jumps_and_branches() {
    let mut c = hart();
    // c.j -2
    c.execute(0xBFFD).unwrap();
    assert_eq!(c.pc, DRAM_BASE - 2);
    // c.beqz x8, +8
    c.execute(0xC401).unwrap();
    assert_eq!(c.pc, DRAM_BASE + 6);
    // c.bnez x8, +8: not taken.
    c.execute(0xE401).unwrap();
    assert_eq!(c.pc, DRAM_BASE + 8);
    c.write_reg(8, 1);
    c.execute(0xE401).unwrap();
    assert_eq!(c.pc, DRAM_BASE + 16);
    c.execute(0xC401).unwrap();
    assert_eq!(c.pc, DRAM_BASE + 18);
}

#[test]
fn register_jumps_and_moves() {
    let mut c = hart();
    c.write_reg(10, 0x1235);
    c.write_reg(11, 7);
    // c.mv x12, x11
    c.execute(0x862E).unwrap();
    assert_eq!(c.read_reg(12), 7);
    // c.add x12, x11
    c.execute(0x962E).unwrap();
    assert_eq!(c.read_reg(12), 14);
    // c.jalr x10
    c.execute(0x9502).unwrap();
    assert_eq!(c.pc, 0x1234);
    assert_eq!(c.read_reg(1), DRAM_BASE + 6);
    // c.jr x11
    c.execute(0x8582).unwrap();
    assert_eq!(c.pc, 6);
    // c.ebreak
    c.pc = DRAM_BASE;
    assert_eq!(c.execute(0x9002), Err((Trap::Exception(Exception::Breakpoint), DRAM_BASE)));
    // c.jalr x1 goes where x1 pointed before.
    c.write_reg(1, DRAM_BASE + 0x100);
    c.execute(0x9082).unwrap();
    assert_eq!(c.pc, DRAM_BASE + 0x100);
    assert_eq!(c.read_reg(1), DRAM_BASE + 2);
}

#[test]
fn shift_left() {
    let mut c = hart();
    c.write_reg(10, 3);
    // c.slli x10, 33
    c.execute(0x1506).unwrap();
    assert_eq!(c.read_reg(10), 3 << 33);
}

#[test]
fn loads_and_stores_by_register() {
    let mut c = hart();
    c.write_reg(8, DATA);
    c.write_reg(9, 0x1122_3344_8566_7788);
    // c.sw x9, 4(x8); c.lw x10, 4(x8)
    c.execute(0xC044).unwrap();
    assert_eq!(c.bus.dram.read64(0x4000), Ok(0x8566_7788_0000_0000));
    c.execute(0x4048).unwrap();
    assert_eq!(c.read_reg(10), 0xFFFF_FFFF_8566_7788);
    // c.sd x9, 8(x8); c.ld x10, 8(x8)
    c.set_reservation(DATA);
    c.execute(0xE404).unwrap();
    assert_eq!(c.reservation, None);
    assert_eq!(c.bus.dram.read64(0x4008), Ok(0x1122_3344_8566_7788));
    c.execute(0x6408).unwrap();
    assert_eq!(c.read_reg(10), 0x1122_3344_8566_7788);
    // c.fld f10, 8(x8); c.fsd f10, 16(x8)
    c.execute(0x2408).unwrap();
    assert_eq!(c.f_regs[10], 0x1122_3344_8566_7788);
    assert_eq!(c.csr.read(MSTATUS) & 0x6000, 0x6000);
    c.execute(0xA808).unwrap();
    assert_eq!(c.bus.dram.read64(0x4010), Ok(0x1122_3344_8566_7788));
    assert_eq!(c.pc, DRAM_BASE + 12);
    // Quadrant 0 has one empty place.
    assert_eq!(c.execute(0x8000), illegal(0x8000));
}

#[test]
fn loads_and_stores_by_stack_pointer() {
    let mut c = hart();
    c.write_reg(2, DATA);
    c.write_reg(9, 0x1122_3344_8566_7788);
    // c.swsp x9, 4(sp); c.lwsp x10, 4(sp)
    c.execute(0xC226).unwrap();
    c.execute(0x4512).unwrap();
    assert_eq!(c.read_reg(10), 0xFFFF_FFFF_8566_7788);
    // c.sdsp x9, 8(sp); c.ldsp x10, 8(sp)
    c.execute(0xE426).unwrap();
    c.execute(0x6522).unwrap();
    assert_eq!(c.read_reg(10), 0x1122_3344_8566_7788);
    // c.fldsp f1, 8(sp); c.fsdsp f1, 16(sp)
    c.execute(0x20A2).unwrap();
    assert_eq!(c.f_regs[1], 0x1122_3344_8566_7788);
    c.execute(0xA806).unwrap();
    assert_eq!(c.bus.dram.read64(0x4010), Ok(0x1122_3344_8566_7788));
    // Loading x0 is no instruction.
    assert_eq!(c.execute(0x4012), illegal(0x4012));
    assert_eq!(c.execute(0x6022), illegal(0x6022));
}
