use riscv64_emulator::bus::{Bus, DRAM_BASE};
use riscv64_emulator::cpu::{reg_name, Cpu};
use riscv64_emulator::dram::Dram;
use riscv64_emulator::flash::Flash;
use riscv64_emulator::mrom::Mrom;
use riscv64_emulator::trap::{Exception, Trap};

const VALUES: [u64; 16] = [
    0,
    1,
    2,
    7,
    63,
    64,
    0x80,
    0x7FFF,
    0x7FFF_FFFF,
    0x8000_0000,
    0xFFFF_FFFF,
    0x1_0000_0003,
    0x7FFF_FFFF_FFFF_FFFF,
    0x8000_0000_0000_0000,
    0xFFFF_FFFF_FFFF_FFFF,
    0x0123_4567_89AB_00EF,
];

fn hart() -> Cpu {
    let mut c = Cpu::new(Bus::new(
        Mrom::new(0x1000).unwrap(),
        Dram::new(0x2_0000).unwrap(),
        Flash::new(64),
        None,
    ));
    c.pc = DRAM_BASE;
    c
}

fn r_type(op: u32, f3: u32, f7: u32, rd: u32, rs1: u32, rs2: u32) -> u32 {
    f7 << 25 | rs2 << 20 | rs1 << 15 | f3 << 12 | rd << 7 | op
}

fn i_type(op: u32, f3: u32, rd: u32, rs1: u32, imm: i32) -> u32 {
    (imm as u32) << 20 | rs1 << 15 | f3 << 12 | rd << 7 | op
}

fn s_type(op: u32, f3: u32, rs1: u32, rs2: u32, imm: i32) -> u32 {
    let u = imm as u32;
    (u >> 5 & 0x7F) << 25 | rs2 << 20 | rs1 << 15 | f3 << 12 | (u & 0x1F) << 7 | op
}

fn b_type(f3: u32, rs1: u32, rs2: u32, imm: i32) -> u32 {
    let u = imm as u32;
    (u >> 12 & 1) << 31
        | (u >> 5 & 0x3F) << 25
        | rs2 << 20
        | rs1 << 15
        | f3 << 12
        | (u >> 1 & 0xF) << 8
        | (u >> 11 & 1) << 7
        | 0x63
}

fn j_type(rd: u32, imm: i32) -> u32 {
    let u = imm as u32;
    (u >> 20 & 1) << 31
        | (u >> 1 & 0x3FF) << 21
        | (u >> 11 & 1) << 20
        | (u >> 12 & 0xFF) << 12
        | rd << 7
        | 0x6F
}

fn illegal(inst: u32) -> Result<(), (Trap, u64)> {
    Err((Trap::Exception(Exception::IllegalInstruction), inst as u64))
}

/// The result of a register-register instruction.
fn op(opcode: u32, f3: u32, f7: u32, a: u64, b: u64) -> Option<u64> {
    let mut c = hart();
    c.write_reg(5, a);
    c.write_reg(6, b);
    let inst = r_type(opcode, f3, f7, 7, 5, 6);
    match c.execute(inst) {
        Ok(()) => {
            assert_eq!(c.pc, DRAM_BASE + 4);
            Some(c.read_reg(7))
        }
        Err(e) => {
            assert_eq!(Err(e), illegal(inst));
            assert_eq!(c.pc, DRAM_BASE);
            None
        }
    }
}

/// The result of a register-immediate instruction.
fn op_imm(opcode: u32, f3: u32, a: u64, imm: i32) -> Option<u64> {
    let mut c = hart();
    c.write_reg(5, a);
    let inst = i_type(opcode, f3, 7, 5, imm);
    match c.execute(inst) {
        Ok(()) => Some(c.read_reg(7)),
        Err(e) => {
            assert_eq!(Err(e), illegal(inst));
            None
        }
    }
}

fn for_all_pairs(f: impl Fn(u64, u64)) {
    for a in VALUES {
        for b in VALUES {
            f(a, b);
        }
    }
}

#[test]
fn x0_stays_zero() {
    let mut c = hart();
    c.execute(i_type(0x13, 0, 0, 0, 5)).unwrap();
    assert_eq!(c.read_reg(0), 0);
    assert_eq!(c.regs[0], 0);
    c.write_reg(0, 7);
    assert_eq!(c.read_reg(0), 0);
}

#[test]
fn upper_immediates() {
    let mut c = hart();
    c.execute(0x1234_5000 | 5 << 7 | 0x37).unwrap();
    assert_eq!(c.read_reg(5), 0x1234_5000);
    c.execute(0x8000_0000 | 5 << 7 | 0x37).unwrap();
    assert_eq!(c.read_reg(5), 0xFFFF_FFFF_8000_0000);
    assert_eq!(c.pc, DRAM_BASE + 8);
    c.execute(0xFFFF_F000 | 6 << 7 | 0x17).unwrap();
    assert_eq!(c.read_reg(6), DRAM_BASE + 8 - 0x1000);
}

#[test]
fn jumps() {
    for imm in [2, -2, 0x800, -0x800, 0xFF_FFE, -0x10_0000, 0x12_346 & !1] {
        let mut c = hart();
        c.execute(j_type(1, imm)).unwrap();
        assert_eq!(c.pc, DRAM_BASE.wrapping_add(imm as i64 as u64));
        assert_eq!(c.read_reg(1), DRAM_BASE + 4);
    }
    let mut c = hart();
    c.write_reg(5, 0x1001);
    c.execute(i_type(0x67, 0, 5, 5, -2)).unwrap();
    assert_eq!(c.pc, 0xFFE);
    assert_eq!(c.read_reg(5), DRAM_BASE + 4);
}

#[test]
fn branches() {
    for_all_pairs(|a, b| {
        let taken = [
            (0, a == b),
            (1, a != b),
            (4, (a as i64) < b as i64),
            (5, a as i64 >= b as i64),
            (6, a < b),
            (7, a >= b),
        ];
        for (f3, t) in taken {
            let mut c = hart();
            c.write_reg(5, a);
            c.write_reg(6, b);
            c.execute(b_type(f3, 5, 6, -0x7FE)).unwrap();
            assert_eq!(c.pc, if t { DRAM_BASE - 0x7FE } else { DRAM_BASE + 4 });
        }
    });
    for imm in [2, 0x7FE, 0x800, 0xFFE, -2, -0x800, -0x1000, 0x554] {
        let mut c = hart();
        c.execute(b_type(0, 0, 0, imm)).unwrap();
        assert_eq!(c.pc, DRAM_BASE.wrapping_add(imm as i64 as u64));
    }
    for f3 in [2, 3] {
        let mut c = hart();
        let inst = b_type(f3, 0, 0, 8);
        assert_eq!(c.execute(inst), illegal(inst));
    }
}

#[test]
fn base_arithmetic() {
    for_all_pairs(|a, b| {
        let sh = b & 63;
        assert_eq!(op(0x33, 0, 0x00, a, b), Some(a.wrapping_add(b)));
        assert_eq!(op(0x33, 0, 0x20, a, b), Some(a.wrapping_sub(b)));
        assert_eq!(op(0x33, 1, 0x00, a, b), Some(a << sh));
        assert_eq!(op(0x33, 2, 0x00, a, b), Some(((a as i64) < b as i64) as u64));
        assert_eq!(op(0x33, 3, 0x00, a, b), Some((a < b) as u64));
        assert_eq!(op(0x33, 4, 0x00, a, b), Some(a ^ b));
        assert_eq!(op(0x33, 5, 0x00, a, b), Some(a >> sh));
        assert_eq!(op(0x33, 5, 0x20, a, b), Some(((a as i64) >> sh) as u64));
        assert_eq!(op(0x33, 6, 0x00, a, b), Some(a | b));
        assert_eq!(op(0x33, 7, 0x00, a, b), Some(a & b));
    });
    assert_eq!(op(0x33, 0, 0x02, 1, 1), None);
    assert_eq!(op(0x33, 7, 0x7F, 1, 1), None);
}

#[test]
fn multiplication() {
    for_all_pairs(|a, b| {
        assert_eq!(op(0x33, 0, 1, a, b), Some(a.wrapping_mul(b)));
        let ss = (a as i64 as i128) * (b as i64 as i128);
        assert_eq!(op(0x33, 1, 1, a, b), Some((ss >> 64) as u64));
        let su = (a as i64 as i128) * (b as u128 as i128);
        assert_eq!(op(0x33, 2, 1, a, b), Some((su >> 64) as u64));
        let uu = (a as u128) * (b as u128);
        assert_eq!(op(0x33, 3, 1, a, b), Some((uu >> 64) as u64));
    });
}

#[test]
fn division() {
    for_all_pairs(|a, b| {
        let (x, y) = (a as i64, b as i64);
        let div = if y == 0 { u64::MAX } else { x.wrapping_div(y) as u64 };
        let rem = if y == 0 { a } else { x.wrapping_rem(y) as u64 };
        assert_eq!(op(0x33, 4, 1, a, b), Some(div));
        assert_eq!(op(0x33, 5, 1, a, b), Some(a.checked_div(b).unwrap_or(u64::MAX)));
        assert_eq!(op(0x33, 6, 1, a, b), Some(rem));
        assert_eq!(op(0x33, 7, 1, a, b), Some(a.checked_rem(b).unwrap_or(a)));
    });
    assert_eq!(op(0x33, 4, 1, i64::MIN as u64, u64::MAX), Some(i64::MIN as u64));
    assert_eq!(op(0x33, 6, 1, i64::MIN as u64, u64::MAX), Some(0));
    assert_eq!(op(0x33, 4, 1, (-7i64) as u64, 2), Some((-3i64) as u64));
    assert_eq!(op(0x33, 6, 1, (-7i64) as u64, 2), Some((-1i64) as u64));
}

#[test]
fn bit_manipulation() {
    for_all_pairs(|a, b| {
        let sh = (b & 63) as u32;
        assert_eq!(op(0x33, 4, 0x20, a, b), Some(!(a ^ b)));
        assert_eq!(op(0x33, 6, 0x20, a, b), Some(a | !b));
        assert_eq!(op(0x33, 7, 0x20, a, b), Some(a & !b));
        assert_eq!(op(0x33, 4, 5, a, b), Some((a as i64).min(b as i64) as u64));
        assert_eq!(op(0x33, 5, 5, a, b), Some(a.min(b)));
        assert_eq!(op(0x33, 6, 5, a, b), Some((a as i64).max(b as i64) as u64));
        assert_eq!(op(0x33, 7, 5, a, b), Some(a.max(b)));
        assert_eq!(op(0x33, 1, 0x30, a, b), Some(a.rotate_left(sh)));
        assert_eq!(op(0x33, 5, 0x30, a, b), Some(a.rotate_right(sh)));
        assert_eq!(op(0x33, 2, 0x10, a, b), Some((a << 1).wrapping_add(b)));
        assert_eq!(op(0x33, 4, 0x10, a, b), Some((a << 2).wrapping_add(b)));
        assert_eq!(op(0x33, 6, 0x10, a, b), Some((a << 3).wrapping_add(b)));
        assert_eq!(op(0x33, 1, 0x24, a, b), Some(a & !(1 << sh)));
        assert_eq!(op(0x33, 5, 0x24, a, b), Some(a >> sh & 1));
        assert_eq!(op(0x33, 1, 0x34, a, b), Some(a ^ 1 << sh));
        assert_eq!(op(0x33, 1, 0x14, a, b), Some(a | 1 << sh));
    });
}

#[test]
fn carry_less_products() {
    for_all_pairs(|a, b| {
        let mut wide = 0u128;
        for i in 0..64 {
            if b >> i & 1 == 1 {
                wide ^= (a as u128) << i;
            }
        }
        assert_eq!(op(0x33, 1, 5, a, b), Some(wide as u64));
        assert_eq!(op(0x33, 3, 5, a, b), Some((wide >> 64) as u64));
        assert_eq!(op(0x33, 2, 5, a, b), Some((wide >> 63) as u64));
    });
}

#[test]
fn immediate_arithmetic() {
    for a in VALUES {
        for imm in [0, 1, -1, 0x7FF, -0x800, 0x123, 0x287] {
            let m = imm as i64 as u64;
            assert_eq!(op_imm(0x13, 0, a, imm), Some(a.wrapping_add(m)));
            assert_eq!(op_imm(0x13, 2, a, imm), Some(((a as i64) < imm as i64) as u64));
            assert_eq!(op_imm(0x13, 3, a, imm), Some((a < m) as u64));
            assert_eq!(op_imm(0x13, 4, a, imm), Some(a ^ m));
            assert_eq!(op_imm(0x13, 6, a, imm), Some(a | m));
            assert_eq!(op_imm(0x13, 7, a, imm), Some(a & m));
        }
    }
}

#[test]
fn immediate_shifts_and_bits() {
    for a in VALUES {
        for sh in [0i32, 1, 7, 31, 32, 63] {
            assert_eq!(op_imm(0x13, 1, a, sh), Some(a << sh));
            assert_eq!(op_imm(0x13, 5, a, sh), Some(a >> sh));
            assert_eq!(op_imm(0x13, 5, a, 0x400 | sh), Some(((a as i64) >> sh) as u64));
        }
        for sh in [0i32, 1, 7, 31] {
            assert_eq!(op_imm(0x13, 1, a, 0x24 << 5 | sh), Some(a & !(1 << sh)));
            assert_eq!(op_imm(0x13, 1, a, 0x34 << 5 | sh), Some(a ^ 1 << sh));
            assert_eq!(op_imm(0x13, 1, a, 0x14 << 5 | sh), Some(a | 1 << sh));
            assert_eq!(op_imm(0x13, 5, a, 0x24 << 5 | sh), Some(a >> sh & 1));
            assert_eq!(op_imm(0x13, 5, a, 0x30 << 5 | sh), Some(a.rotate_right(sh as u32)));
        }
        assert_eq!(op_imm(0x13, 1, a, 0x600), Some(a.leading_zeros() as u64));
        assert_eq!(op_imm(0x13, 1, a, 0x601), Some(a.trailing_zeros() as u64));
        assert_eq!(op_imm(0x13, 1, a, 0x602), Some(a.count_ones() as u64));
        assert_eq!(op_imm(0x13, 1, a, 0x604), Some(a as i8 as i64 as u64));
        assert_eq!(op_imm(0x13, 1, a, 0x605), Some(a as i16 as i64 as u64));
        assert_eq!(op_imm(0x13, 5, a, 0x6B8), Some(a.swap_bytes()));
        let mut orc = 0u64;
        for i in 0..8 {
            if a >> (8 * i) & 0xFF != 0 {
                orc |= 0xFF << (8 * i);
            }
        }
        assert_eq!(op_imm(0x13, 5, a, 0x287), Some(orc));
    }
}

#[test]
fn word_arithmetic() {
    let sx = |w: u32| Some(w as i32 as i64 as u64);
    for_all_pairs(|a, b| {
        let (x, y) = (a as u32, b as u32);
        let sh = y & 31;
        assert_eq!(op(0x3B, 0, 0x00, a, b), sx(x.wrapping_add(y)));
        assert_eq!(op(0x3B, 0, 0x20, a, b), sx(x.wrapping_sub(y)));
        assert_eq!(op(0x3B, 1, 0x00, a, b), sx(x << sh));
        assert_eq!(op(0x3B, 5, 0x00, a, b), sx(x >> sh));
        assert_eq!(op(0x3B, 5, 0x20, a, b), sx(((x as i32) >> sh) as u32));
        assert_eq!(op(0x3B, 0, 0x01, a, b), sx(x.wrapping_mul(y)));
        let (i, j) = (x as i32, y as i32);
        let div = if j == 0 { u32::MAX } else { i.wrapping_div(j) as u32 };
        let rem = if j == 0 { x } else { i.wrapping_rem(j) as u32 };
        assert_eq!(op(0x3B, 4, 0x01, a, b), sx(div));
        assert_eq!(op(0x3B, 5, 0x01, a, b), sx(x.checked_div(y).unwrap_or(u32::MAX)));
        assert_eq!(op(0x3B, 6, 0x01, a, b), sx(rem));
        assert_eq!(op(0x3B, 7, 0x01, a, b), sx(x.checked_rem(y).unwrap_or(x)));
        assert_eq!(op(0x3B, 1, 0x30, a, b), sx(x.rotate_left(sh)));
        assert_eq!(op(0x3B, 5, 0x30, a, b), sx(x.rotate_right(sh)));
        assert_eq!(op(0x3B, 0, 0x04, a, b), Some((x as u64).wrapping_add(b)));
        assert_eq!(op(0x3B, 2, 0x10, a, b), Some(((x as u64) << 1).wrapping_add(b)));
        assert_eq!(op(0x3B, 4, 0x10, a, b), Some(((x as u64) << 2).wrapping_add(b)));
        assert_eq!(op(0x3B, 6, 0x10, a, b), Some(((x as u64) << 3).wrapping_add(b)));
    });
    assert_eq!(op(0x3B, 2, 0x00, 1, 1), None);
}

#[test]
fn word_immediates() {
    let sx = |w: u32| Some(w as i32 as i64 as u64);
    for a in VALUES {
        let x = a as u32;
        for imm in [0, 1, -1, 0x7FF, -0x800] {
            assert_eq!(op_imm(0x1B, 0, a, imm), sx(x.wrapping_add(imm as u32)));
        }
        for sh in [0i32, 1, 5, 31] {
            assert_eq!(op_imm(0x1B, 1, a, sh), sx(x << sh));
            assert_eq!(op_imm(0x1B, 5, a, sh), sx(x >> sh));
            assert_eq!(op_imm(0x1B, 5, a, 0x400 | sh), sx(((x as i32) >> sh) as u32));
            assert_eq!(op_imm(0x1B, 1, a, 0x04 << 5 | sh), Some((x as u64) << sh));
        }
        assert_eq!(op_imm(0x1B, 1, a, 0x600), sx(x.leading_zeros()));
        assert_eq!(op_imm(0x1B, 1, a, 0x601), sx(x.trailing_zeros()));
        assert_eq!(op_imm(0x1B, 1, a, 0x602), sx(x.count_ones()));
        assert_eq!(op_imm(0x1B, 5, a, 0x698), sx(x.rotate_right(0x18)));
        assert_eq!(op_imm(0x1B, 5, a, 0x604), None);
        assert_eq!(op_imm(0x1B, 5, a, 0x605), None);
        assert_eq!(op_imm(0x1B, 2, a, 0), None);
    }
}

#[test]
fn loads_extend() {
    let mut c = hart();
    c.bus.dram.write64(0x100, 0x8182_8384_8586_8788).unwrap();
    c.write_reg(5, DRAM_BASE + 0x180);
    let cases = [
        (0, 0xFFFF_FFFF_FFFF_FF88),
        (1, 0xFFFF_FFFF_FFFF_8788),
        (2, 0xFFFF_FFFF_8586_8788),
        (3, 0x8182_8384_8586_8788u64),
        (4, 0x88),
        (5, 0x8788),
        (6, 0x8586_8788),
    ];
    for (f3, v) in cases {
        c.execute(i_type(0x03, f3, 6, 5, -0x80)).unwrap();
        assert_eq!(c.read_reg(6), v);
    }
    let inst = i_type(0x03, 7, 6, 5, 0);
    assert_eq!(c.execute(inst), illegal(inst));
}

#[test]
fn stores_truncate_and_drop_the_reservation() {
    for (f3, v) in [(0u32, 0x88u64), (1, 0x8788), (2, 0x8586_8788), (3, 0x8182_8384_8586_8788)] {
        let mut c = hart();
        c.set_reservation(DRAM_BASE);
        c.write_reg(5, DRAM_BASE + 0x1000);
        c.write_reg(6, 0x8182_8384_8586_8788);
        c.execute(s_type(0x23, f3, 5, 6, -0x7F8)).unwrap();
        assert_eq!(c.bus.dram.read64(0x808), Ok(v));
        assert_eq!(c.reservation, None);
        assert_eq!(c.pc, DRAM_BASE + 4);
    }
    let mut c = hart();
    let inst = s_type(0x23, 4, 5, 6, 0);
    assert_eq!(c.execute(inst), illegal(inst));
}

#[test]
fn access_faults_name_the_address() {
    let mut c = hart();
    c.write_reg(5, 0x4000_0000);
    let load = Err((Trap::Exception(Exception::LoadAccessFault), 0x4000_0010));
    assert_eq!(c.execute(i_type(0x03, 3, 6, 5, 0x10)), load);
    let store = Err((Trap::Exception(Exception::StoreAMOAccessFault), 0x4000_0010));
    assert_eq!(c.execute(s_type(0x23, 3, 5, 6, 0x10)), store);
    // Narrower stores to nowhere are dropped.
    assert_eq!(c.execute(s_type(0x23, 2, 5, 6, 0x10)), Ok(()));
}

#[test]
fn unaligned_accesses_across_pages() {
    for va in [0x0FFDu64, 0x0FFF, 0x1001, 0x1FF9] {
        for size in [1u32, 2, 4, 8] {
            let mut c = hart();
            c.write_reg(5, DRAM_BASE + va);
            c.write_reg(6, 0xF1F2_F3F4_F5F6_F7F8);
            let f3 = size.trailing_zeros();
            c.execute(s_type(0x23, f3, 5, 6, 0)).unwrap();
            let f3u = if size == 8 { 3 } else { f3 + 4 };
            c.execute(i_type(0x03, f3u, 7, 5, 0)).unwrap();
            let want = 0xF1F2_F3F4_F5F6_F7F8u64 & (u64::MAX >> (64 - 8 * size));
            assert_eq!(c.read_reg(7), want);
            assert_eq!(c.bus.dram.read8(va), Ok(0xF8));
            assert_eq!(c.bus.dram.read8(va + size as u64), Ok(0));
            assert_eq!(c.bus.dram.read8(va - 1), Ok(0));
        }
    }
}

#[test]
fn unknown_opcodes_are_illegal() {
    let mut c = hart();
    for inst in [0x0000_000Bu32, 0x0000_007F, 0xFFFF_FFFF, 0x0000_005B] {
        assert_eq!(c.execute(inst), illegal(inst));
    }
    assert_eq!(c.pc, DRAM_BASE);
}

#[test]
fn register_names() {
    let names = [
        "zero", "ra", "sp", "gp", "tp", "t0", "t1", "t2", "s0", "s1", "a0", "a1", "a2", "a3", "a4",
        "a5", "a6", "a7", "s2", "s3", "s4", "s5", "s6", "s7", "s8", "s9", "s10", "s11", "t3", "t4",
        "t5", "t6",
    ];
    for (i, n) in names.iter().enumerate() {
        assert_eq!(reg_name(i), *n);
    }
    assert_eq!(reg_name(32), "??");
}
