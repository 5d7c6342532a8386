use riscv64_emulator::bus::{Bus, DRAM_BASE};
use riscv64_emulator::cpu::Cpu;
use riscv64_emulator::dram::Dram;
use riscv64_emulator::flash::Flash;
use riscv64_emulator::mrom::Mrom;
use riscv64_emulator::trap::{Exception, Trap};

const DATA: u64 = DRAM_BASE + 0x4000;

fn hart() -> Cpu {
    let mut c = Cpu::new(Bus::new(
        Mrom::new(0x1000).unwrap(),
        Dram::new(0x2_0000).unwrap(),
        Flash::new(64),
        None,
    ));
    c.pc = DRAM_BASE;
    c.write_reg(5, DATA);
    c
}

/// An atomic instruction on the address in x5 with the operand in x6 and the
/// result in x7.
fn amo(f5: u32, f3: u32) -> u32 {
    f5 << 27 | 6 << 20 | 5 << 15 | f3 << 12 | 7 << 7 | 0x2F
}

#[test]
fn word_operations() {
    let values = [0u32, 1, 5, 0x7FFF_FFFF, 0x8000_0000, 0xFFFF_FFFF];
    for a in values {
        for b in values {
            let cases = [
                (0x00, a.wrapping_add(b)),
                (0x01, b),
                (0x04, a ^ b),
                (0x08, a | b),
                (0x0C, a & b),
                (0x10, (a as i32).min(b as i32) as u32),
                (0x14, (a as i32).max(b as i32) as u32),
                (0x18, a.min(b)),
                (0x1C, a.max(b)),
            ];
            for (f5, want) in cases {
                let mut c = hart();
                c.bus.dram.write64(0x4000, 0xAAAA_AAAA_0000_0000 | a as u64).unwrap();
                c.write_reg(6, 0x5555_5555_0000_0000 | b as u64);
                c.set_reservation(DATA);
                c.execute(amo(f5, 2)).unwrap();
                assert_eq!(c.bus.dram.read64(0x4000), Ok(0xAAAA_AAAA_0000_0000 | want as u64));
                assert_eq!(c.read_reg(7), a as i32 as i64 as u64);
                assert_eq!(c.reservation, None);
                assert_eq!(c.pc, DRAM_BASE + 4);
            }
        }
    }
}

#[test]
fn doubleword_operations() {
    let values = [0u64, 1, i64::MAX as u64, i64::MIN as u64, u64::MAX];
    for a in values {
        for b in values {
            let cases = [
                (0x00, a.wrapping_add(b)),
                (0x01, b),
                (0x04, a ^ b),
                (0x08, a | b),
                (0x0C, a & b),
                (0x10, (a as i64).min(b as i64) as u64),
                (0x14, (a as i64).max(b as i64) as u64),
                (0x18, a.min(b)),
                (0x1C, a.max(b)),
            ];
            for (f5, want) in cases {
                let mut c = hart();
                c.bus.dram.write64(0x4000, a).unwrap();
                c.write_reg(6, b);
                c.execute(amo(f5, 3)).unwrap();
                assert_eq!(c.bus.dram.read64(0x4000), Ok(want));
                assert_eq!(c.read_reg(7), a);
            }
        }
    }
}

#[test]
fn conditional_stores() {
    for f3 in [2, 3] {
        let mut c = hart();
        c.bus.dram.write64(0x4000, 0x8000_0001).unwrap();
        c.write_reg(6, 42);
        // Without a reservation.
        c.execute(amo(3, f3)).unwrap();
        assert_eq!(c.read_reg(7), 1);
        assert_eq!(c.bus.dram.read64(0x4000), Ok(0x8000_0001));
        // With one.
        c.execute(amo(2, f3)).unwrap();
        let loaded = if f3 == 2 { 0xFFFF_FFFF_8000_0001 } else { 0x8000_0001 };
        assert_eq!(c.read_reg(7), loaded);
        assert_eq!(c.reservation, Some(DATA));
        c.execute(amo(3, f3)).unwrap();
        assert_eq!(c.read_reg(7), 0);
        assert_eq!(c.bus.dram.read64(0x4000), Ok(42));
        assert_eq!(c.reservation, None);
        // It is used up.
        c.execute(amo(3, f3)).unwrap();
        assert_eq!(c.read_reg(7), 1);
    }
}

#[test]
fn a_reservation_covers_a_doubleword() {
    let mut c = hart();
    assert!(!c.check_reservation(DATA));
    c.set_reservation(DATA + 5);
    assert_eq!(c.reservation, Some(DATA));
    assert!(c.check_reservation(DATA + 7));
    assert!(!c.check_reservation(DATA + 8));
    c.clear_reservation();
    assert!(!c.check_reservation(DATA));
}

#[test]
fn atomic_faults() {
    let mut c = hart();
    c.write_reg(5, 0x4000_0000);
    let load = Err((Trap::Exception(Exception::LoadAccessFault), 0x4000_0000));
    assert_eq!(c.execute(amo(2, 2)), load);
    assert_eq!(c.execute(amo(0, 3)), load);
    c.set_reservation(0x4000_0000);
    let store = Err((Trap::Exception(Exception::StoreAMOAccessFault), 0x4000_0000));
    assert_eq!(c.execute(amo(3, 3)), store);
    // The boot ROM can be read and not written.
    c.write_reg(5, 0x1000);
    let rom = Err((Trap::Exception(Exception::StoreAMOAccessFault), 0x1000));
    assert_eq!(c.execute(amo(1, 3)), rom);
}

#[test]
fn unknown_atomics_are_illegal() {
    let mut c = hart();
    for inst in [amo(5, 2), amo(0x1F, 3), amo(0, 1), amo(2, 4)] {
        let e = Err((Trap::Exception(Exception::IllegalInstruction), inst as u64));
        assert_eq!(c.execute(inst), e);
    }
}
