use riscv64_emulator::bus::{Bus, DRAM_BASE};
use riscv64_emulator::cpu::{Cpu, FloatCalc, FloatDest, FloatOp, FloatWidth, IntKind, Request};
use riscv64_emulator::csr::MSTATUS;
use riscv64_emulator::dram::Dram;
use riscv64_emulator::flash::Flash;
use riscv64_emulator::mrom::Mrom;
use riscv64_emulator::trap::{Exception, Trap};

const DATA: u64 = DRAM_BASE + 0x4000;
const BOX: u64 = 0xFFFF_FFFF_0000_0000;

fn hart() -> Cpu {
    let mut c = Cpu::new(Bus::new(
        Mrom::new(0x1000).unwrap(),
        Dram::new(0x2_0000).unwrap(),
        Flash::new(64),
        None,
    ));
    c.pc = DRAM_BASE;
    c.csr.write(MSTATUS, 0x2000);
    c
}

/// An instruction on f5 and f6 (or x5) with the result in f7 (or x7).
fn fp(f7: u32, rs2: u32, f3: u32) -> u32 {
    f7 << 25 | rs2 << 20 | 5 << 15 | f3 << 12 | 7 << 7 | 0x53
}

fn illegal(inst: u32) -> Result<(), (Trap, u64)> {
    Err((Trap::Exception(Exception::IllegalInstruction), inst as u64))
}

fn on_doubles(f7: u32, f3: u32, a: f64, b: f64) -> Cpu {
    let mut c = hart();
    c.f_regs[5] = a.to_bits();
    c.f_regs[6] = b.to_bits();
    c.execute(fp(f7, 6, f3)).unwrap();
    c
}

fn on_singles(f7: u32, f3: u32, a: f32, b: f32) -> Cpu {
    let mut c = hart();
    c.f_regs[5] = BOX | a.to_bits() as u64;
    c.f_regs[6] = BOX | b.to_bits() as u64;
    c.execute(fp(f7, 6, f3)).unwrap();
    c
}

fn asked(c: &Cpu) -> FloatOp {
    match c.request {
        Some(Request::Float(op)) => op,
        _ => panic!("no calculation was asked for"),
    }
}

const DOUBLES: [f64; 10] = [
    0.0,
    -0.0,
    1.5,
    -1.5,
    f64::INFINITY,
    f64::NEG_INFINITY,
    f64::NAN,
    5e-324,
    -2.5e300,
    f64::MAX,
];

const SINGLES: [f32; 9] = [
    0.0,
    -0.0,
    1.5,
    -1.5,
    f32::INFINITY,
    f32::NEG_INFINITY,
    f32::NAN,
    1e-45,
    f32::MAX,
];

#[test]
fn double_comparisons() {
    for a in DOUBLES {
        for b in DOUBLES {
            assert_eq!(on_doubles(0x51, 2, a, b).read_reg(7), (a == b) as u64);
            assert_eq!(on_doubles(0x51, 1, a, b).read_reg(7), (a < b) as u64);
            assert_eq!(on_doubles(0x51, 0, a, b).read_reg(7), (a <= b) as u64);
        }
    }
    let mut c = hart();
    let inst = fp(0x51, 6, 3);
    assert_eq!(c.execute(inst), illegal(inst));
}

#[test]
fn single_comparisons() {
    for a in SINGLES {
        for b in SINGLES {
            assert_eq!(on_singles(0x50, 2, a, b).read_reg(7), (a == b) as u64);
            assert_eq!(on_singles(0x50, 1, a, b).read_reg(7), (a < b) as u64);
            assert_eq!(on_singles(0x50, 0, a, b).read_reg(7), (a <= b) as u64);
        }
    }
    // A register without a boxed single holds a NaN.
    let mut c = hart();
    c.f_regs[5] = 1.5f32.to_bits() as u64;
    c.f_regs[6] = 1.5f32.to_bits() as u64;
    c.execute(fp(0x50, 6, 2)).unwrap();
    assert_eq!(c.read_reg(7), 0);
}

#[test]
fn double_extremes() {
    for a in DOUBLES {
        for b in DOUBLES {
            let (lo, hi) = if a.is_nan() && b.is_nan() {
                (0x7FF8_0000_0000_0000, 0x7FF8_0000_0000_0000)
            } else if a.is_nan() {
                (b.to_bits(), b.to_bits())
            } else if b.is_nan() {
                (a.to_bits(), a.to_bits())
            } else if a == 0.0 && b == 0.0 {
                let lo = if a.is_sign_negative() { a } else { b };
                let hi = if a.is_sign_positive() { a } else { b };
                (lo.to_bits(), hi.to_bits())
            } else {
                (a.min(b).to_bits(), a.max(b).to_bits())
            };
            let c = on_doubles(0x15, 0, a, b);
            assert_eq!(c.f_regs[7], lo);
            assert_eq!(c.csr.read(MSTATUS) & 0x6000, 0x6000);
            assert_eq!(on_doubles(0x15, 1, a, b).f_regs[7], hi);
        }
    }
}

#[test]
fn single_extremes() {
    for a in SINGLES {
        for b in SINGLES {
            let (lo, hi) = if a.is_nan() && b.is_nan() {
                (0x7FC0_0000, 0x7FC0_0000)
            } else if a.is_nan() {
                (b.to_bits(), b.to_bits())
            } else if b.is_nan() {
                (a.to_bits(), a.to_bits())
            } else if a == 0.0 && b == 0.0 {
                let lo = if a.is_sign_negative() { a } else { b };
                let hi = if a.is_sign_positive() { a } else { b };
                (lo.to_bits(), hi.to_bits())
            } else {
                (a.min(b).to_bits(), a.max(b).to_bits())
            };
            assert_eq!(on_singles(0x14, 0, a, b).f_regs[7], BOX | lo as u64);
            assert_eq!(on_singles(0x14, 1, a, b).f_regs[7], BOX | hi as u64);
        }
    }
}

#[test]
fn sign_injection() {
    for a in DOUBLES {
        for b in DOUBLES {
            let (x, y) = (a.to_bits(), b.to_bits());
            let s = 1u64 << 63;
            assert_eq!(on_doubles(0x11, 0, a, b).f_regs[7], x & !s | y & s);
            assert_eq!(on_doubles(0x11, 1, a, b).f_regs[7], x & !s | !y & s);
            assert_eq!(on_doubles(0x11, 2, a, b).f_regs[7], x ^ y & s);
        }
    }
    for a in SINGLES {
        for b in SINGLES {
            let (x, y) = (a.to_bits(), b.to_bits());
            let s = 1u32 << 31;
            assert_eq!(on_singles(0x10, 0, a, b).f_regs[7], BOX | (x & !s | y & s) as u64);
            assert_eq!(on_singles(0x10, 1, a, b).f_regs[7], BOX | (x & !s | !y & s) as u64);
            assert_eq!(on_singles(0x10, 2, a, b).f_regs[7], BOX | (x ^ y & s) as u64);
        }
    }
}

#[test]
fn classes() {
    let doubles = [
        (f64::NEG_INFINITY.to_bits(), 0),
        ((-1.0f64).to_bits(), 1),
        ((-5e-324f64).to_bits(), 2),
        ((-0.0f64).to_bits(), 3),
        (0.0f64.to_bits(), 4),
        (5e-324f64.to_bits(), 5),
        (1.0f64.to_bits(), 6),
        (f64::INFINITY.to_bits(), 7),
        (0x7FF0_0000_0000_0001, 8),
        (0xFFF8_0000_0000_0000, 9),
    ];
    for (v, bit) in doubles {
        let mut c = hart();
        c.f_regs[5] = v;
        c.execute(fp(0x71, 0, 1)).unwrap();
        assert_eq!(c.read_reg(7), 1 << bit);
    }
    let singles = [
        (f32::NEG_INFINITY.to_bits(), 0),
        ((-1.0f32).to_bits(), 1),
        ((-1e-45f32).to_bits(), 2),
        ((-0.0f32).to_bits(), 3),
        (0.0f32.to_bits(), 4),
        (1e-45f32.to_bits(), 5),
        (1.0f32.to_bits(), 6),
        (f32::INFINITY.to_bits(), 7),
        (0xFF80_0001, 8),
        (0x7FC0_0000, 9),
    ];
    for (v, bit) in singles {
        let mut c = hart();
        c.f_regs[5] = BOX | v as u64;
        c.execute(fp(0x70, 0, 1)).unwrap();
        assert_eq!(c.read_reg(7), 1 << bit);
    }
}

#[test]
fn moves() {
    let mut c = hart();
    c.f_regs[5] = 0x1234_5678_9ABC_DEF0;
    c.execute(fp(0x71, 0, 0)).unwrap();
    assert_eq!(c.read_reg(7), 0x1234_5678_9ABC_DEF0);
    c.execute(fp(0x70, 0, 0)).unwrap();
    assert_eq!(c.read_reg(7), 0xFFFF_FFFF_9ABC_DEF0);
    c.write_reg(5, 0xFFFF_0000_8000_0001);
    c.execute(fp(0x78, 0, 0)).unwrap();
    assert_eq!(c.f_regs[7], BOX | 0x8000_0001);
    c.execute(fp(0x79, 0, 0)).unwrap();
    assert_eq!(c.f_regs[7], 0xFFFF_0000_8000_0001);
    for inst in [fp(0x71, 1, 0), fp(0x70, 0, 2), fp(0x78, 1, 0), fp(0x79, 0, 1), fp(0x7F, 0, 0)] {
        assert_eq!(c.execute(inst), illegal(inst));
    }
}

#[test]
fn loads_and_stores() {
    let mut c = hart();
    c.csr.write(MSTATUS, 0);
    c.write_reg(5, DATA);
    c.bus.dram.write64(0x4000, 0x1122_3344_5566_7788).unwrap();
    // flw f7, 0(x5): works with floating point off, and switches it on.
    c.execute(5 << 15 | 2 << 12 | 7 << 7 | 0x07).unwrap();
    assert_eq!(c.f_regs[7], BOX | 0x5566_7788);
    assert_eq!(c.csr.read(MSTATUS) & 0x6000, 0x6000);
    // fld f7, 0(x5)
    c.execute(5 << 15 | 3 << 12 | 7 << 7 | 0x07).unwrap();
    assert_eq!(c.f_regs[7], 0x1122_3344_5566_7788);
    // fsw f7, 8(x5); fsd f7, 16(x5)
    c.set_reservation(DATA);
    c.execute(7 << 20 | 5 << 15 | 2 << 12 | 8 << 7 | 0x27).unwrap();
    c.execute(7 << 20 | 5 << 15 | 3 << 12 | 16 << 7 | 0x27).unwrap();
    assert_eq!(c.bus.dram.read64(0x4008), Ok(0x5566_7788));
    assert_eq!(c.bus.dram.read64(0x4010), Ok(0x1122_3344_5566_7788));
    assert_eq!(c.reservation, None);
    for inst in [5u32 << 15 | 1 << 12 | 7 << 7 | 0x07, 5 << 15 | 4 << 12 | 0x27] {
        assert_eq!(c.execute(inst), illegal(inst));
    }
}

#[test]
fn floating_point_can_be_off() {
    let mut c = hart();
    c.csr.write(MSTATUS, 0);
    for inst in [fp(0x01, 6, 0), fp(0x71, 0, 0), 0x0000_0043, 0x0200_004F] {
        assert_eq!(c.execute(inst), illegal(inst));
    }
    assert_eq!(c.request, None);
}

#[test]
fn binary_calculations() {
    let w = FloatWidth::Double;
    for (f7, calc) in [
        (0x01, FloatCalc::Add(w)),
        (0x05, FloatCalc::Sub(w)),
        (0x09, FloatCalc::Mul(w)),
        (0x0D, FloatCalc::Div(w)),
    ] {
        let mut c = on_doubles(f7, 0, 1.5, 2.25);
        let op = asked(&c);
        let want = FloatOp {
            calc,
            a: 1.5f64.to_bits(),
            b: 2.25f64.to_bits(),
            c: 0,
            dest: FloatDest::Double,
            rd: 7,
        };
        assert_eq!(op, want);
        // The instruction ends with the answer.
        assert_eq!(c.pc, DRAM_BASE);
        c.resume_float(0x4242_0000_0000_0001);
        assert_eq!(c.request, None);
        assert_eq!(c.pc, DRAM_BASE + 4);
        assert_eq!(c.f_regs[7], 0x4242_0000_0000_0001);
        assert_eq!(c.csr.read(MSTATUS) & 0x6000, 0x6000);
    }
    let w = FloatWidth::Single;
    for (f7, calc) in [
        (0x00, FloatCalc::Add(w)),
        (0x04, FloatCalc::Sub(w)),
        (0x08, FloatCalc::Mul(w)),
        (0x0C, FloatCalc::Div(w)),
    ] {
        let mut c = on_singles(f7, 0, 1.5, 2.25);
        let op = asked(&c);
        assert_eq!(op.calc, calc);
        assert_eq!(op.a, 1.5f32.to_bits() as u64);
        assert_eq!(op.b, 2.25f32.to_bits() as u64);
        c.resume_float(0x4242_0001);
        assert_eq!(c.f_regs[7], BOX | 0x4242_0001);
    }
}

#[test]
fn roots_and_width_changes() {
    let mut c = hart();
    c.f_regs[5] = 2.0f64.to_bits();
    c.execute(fp(0x2D, 0, 0)).unwrap();
    assert_eq!(asked(&c).calc, FloatCalc::Sqrt(FloatWidth::Double));
    c.resume_float(2.0f64.sqrt().to_bits());
    assert_eq!(c.f_regs[7], 2.0f64.sqrt().to_bits());
    let inst = fp(0x2D, 1, 0);
    assert_eq!(c.execute(inst), illegal(inst));
    // fcvt.s.d
    c.execute(fp(0x20, 1, 0)).unwrap();
    assert_eq!(asked(&c).calc, FloatCalc::Narrow);
    assert_eq!(asked(&c).a, 2.0f64.to_bits());
    assert_eq!(asked(&c).dest, FloatDest::Single);
    c.resume_float(2.0f32.to_bits() as u64);
    assert_eq!(c.f_regs[7], BOX | 2.0f32.to_bits() as u64);
    // fcvt.d.s of a register that holds no single.
    c.execute(fp(0x21, 0, 0)).unwrap();
    assert_eq!(asked(&c).calc, FloatCalc::Widen);
    assert_eq!(asked(&c).a, 0x7FC0_0000);
    assert_eq!(asked(&c).dest, FloatDest::Double);
    c.resume_float(0);
    for inst in [fp(0x20, 0, 0), fp(0x20, 2, 0), fp(0x21, 1, 0), fp(0x2C, 1, 0)] {
        assert_eq!(c.execute(inst), illegal(inst));
    }
}

#[test]
fn conversions_to_integers() {
    let kinds = [
        (0, IntKind::I32, 0xFFFF_FFFF_8000_0001),
        (1, IntKind::U32, 0xFFFF_FFFF_8000_0001),
        (2, IntKind::I64, 0x1234_5678_8000_0001),
        (3, IntKind::U64, 0x1234_5678_8000_0001u64),
    ];
    for (rs2, kind, want) in kinds {
        for (f7, w) in [(0x61, FloatWidth::Double), (0x60, FloatWidth::Single)] {
            let mut c = hart();
            c.f_regs[5] = BOX | 5;
            c.execute(fp(f7, rs2, 0)).unwrap();
            assert_eq!(asked(&c).calc, FloatCalc::ToInt(w, kind));
            c.resume_float(0x1234_5678_8000_0001);
            assert_eq!(c.read_reg(7), want);
            // Only floating-point results make the state dirty.
            assert_eq!(c.csr.read(MSTATUS) & 0x6000, 0x2000);
            assert_eq!(c.pc, DRAM_BASE + 4);
        }
    }
    let mut c = hart();
    for inst in [fp(0x61, 4, 0), fp(0x60, 5, 0), fp(0x69, 4, 0), fp(0x68, 31, 0)] {
        assert_eq!(c.execute(inst), illegal(inst));
    }
}

#[test]
fn conversions_from_integers() {
    let kinds = [(0, IntKind::I32), (1, IntKind::U32), (2, IntKind::I64), (3, IntKind::U64)];
    for (rs2, kind) in kinds {
        for (f7, w, dest) in [
            (0x69, FloatWidth::Double, FloatDest::Double),
            (0x68, FloatWidth::Single, FloatDest::Single),
        ] {
            let mut c = hart();
            c.write_reg(5, 0xFFFF_FFFF_FFFF_FFF9);
            c.execute(fp(f7, rs2, 0)).unwrap();
            let op = asked(&c);
            assert_eq!(op.calc, FloatCalc::FromInt(kind, w));
            assert_eq!(op.a, 0xFFFF_FFFF_FFFF_FFF9);
            assert_eq!(op.dest, dest);
        }
    }
}

#[test]
fn fused_multiply_add() {
    let s = 1u64 << 63;
    let (a, b, d) = (1.5f64.to_bits(), 2.0f64.to_bits(), 3.0f64.to_bits());
    for (opcode, x, z) in [(0x43, a, d), (0x47, a, d ^ s), (0x4B, a ^ s, d), (0x4F, a ^ s, d ^ s)] {
        let mut c = hart();
        c.f_regs[5] = a;
        c.f_regs[6] = b;
        c.f_regs[8] = d;
        c.execute(8 << 27 | 1 << 25 | 6 << 20 | 5 << 15 | 7 << 7 | opcode).unwrap();
        let op = asked(&c);
        assert_eq!(op.calc, FloatCalc::MulAdd(FloatWidth::Double));
        assert_eq!((op.a, op.b, op.c), (x, b, z));
    }
    let s = 1u64 << 31;
    let (a, b) = (1.5f32.to_bits() as u64, 2.0f32.to_bits() as u64);
    let nan = 0x7FC0_0000u64;
    for (opcode, x, z) in
        [(0x43, a, nan), (0x47, a, nan ^ s), (0x4B, a ^ s, nan), (0x4F, a ^ s, nan ^ s)]
    {
        let mut c = hart();
        c.f_regs[5] = BOX | a;
        c.f_regs[6] = BOX | b;
        c.f_regs[8] = 7;
        c.execute(8 << 27 | 6 << 20 | 5 << 15 | 7 << 7 | opcode).unwrap();
        let op = asked(&c);
        assert_eq!(op.calc, FloatCalc::MulAdd(FloatWidth::Single));
        assert_eq!((op.a, op.b, op.c), (x, b, z));
    }
    let mut c = hart();
    let inst = 2 << 25 | 0x43;
    assert_eq!(c.execute(inst), illegal(inst));
}

#[test]
fn sign_injection_reads_an_unboxed_single_as_nan() {
    let (plus, minus) = (0x7FC0_0000u64, 0xFFC0_0000u64);
    for (f3, of_plus, of_minus) in [(0, plus, minus), (1, minus, plus), (2, plus, minus)] {
        for (b, found) in [(1.0f32, of_plus), (-1.0f32, of_minus)] {
            let mut c = hart();
            c.f_regs[5] = 0x3F80_0000;
            c.f_regs[6] = BOX | b.to_bits() as u64;
            c.execute(fp(0x10, 6, f3)).unwrap();
            assert_eq!(c.f_regs[7], BOX | found);
        }
    }
    // The other operand gives the sign of that NaN.
    let mut c = hart();
    c.f_regs[5] = BOX | 0xBF80_0000;
    c.f_regs[6] = 0xBF80_0000;
    c.execute(fp(0x10, 6, 0)).unwrap();
    assert_eq!(c.f_regs[7], BOX | 0x3F80_0000);
}
