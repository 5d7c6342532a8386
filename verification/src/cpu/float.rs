//! Floating-point instructions. What works on bit patterns alone is done here:
//! moves, sign injection, comparison, minimum and maximum, classification, and
//! the boxing of single-precision values. A calculation becomes a request.

#[allow(unused_imports)]
use crate::alu::{sext32, word};
use crate::alu::{low_word, sext_word};
use crate::cpu::decode::{funct3, funct7, imm_i, imm_s, opcode, rd, rs1, rs2, rs3};
use crate::cpu::{Cpu, FloatCalc, FloatDest, FloatOp, FloatWidth, IntKind, Request};
#[allow(unused_imports)]
use crate::cpu::{CpuView, Outcome};
#[allow(unused_imports)]
use crate::csr::csr_read;
use crate::csr::MSTATUS;
use crate::trap::Trap;
use vstd::prelude::*;

verus! {

/// The sign bit of a double.
pub const SIGN_D: u64 = 0x8000_0000_0000_0000;

/// The sign bit of a single.
pub const SIGN_S: u32 = 0x8000_0000;

/// Infinity as a double.
pub const INF_D: u64 = 0x7FF0_0000_0000_0000;

/// Infinity as a single.
pub const INF_S: u32 = 0x7F80_0000;

/// The canonical NaN as a double.
pub const NAN_D: u64 = 0x7FF8_0000_0000_0000;

/// The canonical NaN as a single.
pub const NAN_S: u32 = 0x7FC0_0000;

/// A single in a floating-point register: the upper half is ones.
pub open spec fn boxed(v: u32) -> u64 {
    (0xFFFF_FFFF_0000_0000 + v) as u64
}

/// The single in a floating-point register; a register that holds no boxed
/// single holds the canonical NaN.
pub open spec fn unboxed(v: u64) -> u32 {
    if v >= 0xFFFF_FFFF_0000_0000 {
        word(v)
    } else {
        NAN_S
    }
}

/// A double without its sign.
pub open spec fn mag_d(v: u64) -> u64 {
    v % SIGN_D
}

/// A single without its sign.
pub open spec fn mag_s(v: u32) -> u32 {
    v % SIGN_S
}

/// A double is a NaN.
pub open spec fn is_nan_d(v: u64) -> bool {
    mag_d(v) > INF_D
}

/// A single is a NaN.
pub open spec fn is_nan_s(v: u32) -> bool {
    mag_s(v) > INF_S
}

/// Where a double that is not a NaN stands in the order of the doubles; the two
/// zeros stand at the same place.
pub open spec fn rank_d(v: u64) -> int {
    if v >= SIGN_D {
        -(mag_d(v) as int)
    } else {
        v as int
    }
}

/// Where a single that is not a NaN stands in the order of the singles.
pub open spec fn rank_s(v: u32) -> int {
    if v >= SIGN_S {
        -(mag_s(v) as int)
    } else {
        v as int
    }
}

/// The double with the magnitude of `a` and the given sign.
pub open spec fn with_sign_d(a: u64, negative: bool) -> u64 {
    if negative {
        (mag_d(a) + SIGN_D) as u64
    } else {
        mag_d(a)
    }
}

/// The single with the magnitude of `a` and the given sign.
pub open spec fn with_sign_s(a: u32, negative: bool) -> u32 {
    if negative {
        (mag_s(a) + SIGN_S) as u32
    } else {
        mag_s(a)
    }
}

/// The double with the opposite sign.
pub open spec fn neg_d(a: u64) -> u64 {
    with_sign_d(a, a < SIGN_D)
}

/// The single with the opposite sign.
pub open spec fn neg_s(a: u32) -> u32 {
    with_sign_s(a, a < SIGN_S)
}

/// Sign injection on doubles: the sign of `b`, its opposite, or the exclusive or
/// of both signs.
pub open spec fn sgnj_d(f3: u32, a: u64, b: u64) -> Option<u64> {
    match f3 {
        0 => Some(with_sign_d(a, b >= SIGN_D)),
        1 => Some(with_sign_d(a, b < SIGN_D)),
        2 => Some(with_sign_d(a, (a >= SIGN_D) != (b >= SIGN_D))),
        _ => None,
    }
}

/// Sign injection on singles.
pub open spec fn sgnj_s(f3: u32, a: u32, b: u32) -> Option<u32> {
    match f3 {
        0 => Some(with_sign_s(a, b >= SIGN_S)),
        1 => Some(with_sign_s(a, b < SIGN_S)),
        2 => Some(with_sign_s(a, (a >= SIGN_S) != (b >= SIGN_S))),
        _ => None,
    }
}

/// Minimum (`f3` 0) and maximum (`f3` 1) of doubles: a NaN loses against a number,
/// two NaNs give the canonical one, and the negative zero is below the positive.
pub open spec fn min_max_d(f3: u32, a: u64, b: u64) -> Option<u64> {
    if f3 > 1 {
        None
    } else if is_nan_d(a) && is_nan_d(b) {
        Some(NAN_D)
    } else if is_nan_d(a) {
        Some(b)
    } else if is_nan_d(b) {
        Some(a)
    } else if mag_d(a) == 0 && mag_d(b) == 0 {
        Some(
            if (a >= SIGN_D) == (f3 == 0) {
                a
            } else {
                b
            },
        )
    } else if (rank_d(a) <= rank_d(b)) == (f3 == 0) {
        Some(a)
    } else {
        Some(b)
    }
}

/// Minimum and maximum of singles.
pub open spec fn min_max_s(f3: u32, a: u32, b: u32) -> Option<u32> {
    if f3 > 1 {
        None
    } else if is_nan_s(a) && is_nan_s(b) {
        Some(NAN_S)
    } else if is_nan_s(a) {
        Some(b)
    } else if is_nan_s(b) {
        Some(a)
    } else if mag_s(a) == 0 && mag_s(b) == 0 {
        Some(
            if (a >= SIGN_S) == (f3 == 0) {
                a
            } else {
                b
            },
        )
    } else if (rank_s(a) <= rank_s(b)) == (f3 == 0) {
        Some(a)
    } else {
        Some(b)
    }
}

/// Comparison of doubles: equal, less, less or equal; with a NaN none holds.
pub open spec fn compare_d(f3: u32, a: u64, b: u64) -> Option<u64> {
    let ordered = !is_nan_d(a) && !is_nan_d(b);
    let holds = match f3 {
        2 => Some(rank_d(a) == rank_d(b)),
        1 => Some(rank_d(a) < rank_d(b)),
        0 => Some(rank_d(a) <= rank_d(b)),
        _ => None,
    };
    match holds {
        Some(h) => Some(
            if ordered && h {
                1
            } else {
                0
            },
        ),
        None => None,
    }
}

/// Comparison of singles.
pub open spec fn compare_s(f3: u32, a: u32, b: u32) -> Option<u64> {
    let ordered = !is_nan_s(a) && !is_nan_s(b);
    let holds = match f3 {
        2 => Some(rank_s(a) == rank_s(b)),
        1 => Some(rank_s(a) < rank_s(b)),
        0 => Some(rank_s(a) <= rank_s(b)),
        _ => None,
    };
    match holds {
        Some(h) => Some(
            if ordered && h {
                1
            } else {
                0
            },
        ),
        None => None,
    }
}

/// `positive` or `negative`, by the sign.
pub open spec fn by_sign(negative: bool, neg: u64, pos: u64) -> u64 {
    if negative {
        neg
    } else {
        pos
    }
}

/// The class of a double: one bit of ten. From bit 0: negative infinity, normal,
/// subnormal and zero, the same positive in reverse, signalling and quiet NaN.
pub open spec fn class_d(v: u64) -> u64 {
    let m = mag_d(v);
    let n = v >= SIGN_D;
    if m > INF_D {
        if m >= NAN_D {
            0x200
        } else {
            0x100
        }
    } else if m == INF_D {
        by_sign(n, 0x1, 0x80)
    } else if m == 0 {
        by_sign(n, 0x8, 0x10)
    } else if m < 0x0010_0000_0000_0000 {
        by_sign(n, 0x4, 0x20)
    } else {
        by_sign(n, 0x2, 0x40)
    }
}

/// The class of a single.
pub open spec fn class_s(v: u32) -> u64 {
    let m = mag_s(v);
    let n = v >= SIGN_S;
    if m > INF_S {
        if m >= NAN_S {
            0x200
        } else {
            0x100
        }
    } else if m == INF_S {
        by_sign(n, 0x1, 0x80)
    } else if m == 0 {
        by_sign(n, 0x8, 0x10)
    } else if m < 0x0080_0000 {
        by_sign(n, 0x4, 0x20)
    } else {
        by_sign(n, 0x2, 0x40)
    }
}

/// The integer type in the second source field of a conversion.
pub open spec fn int_kind(code: usize) -> Option<IntKind> {
    match code {
        0 => Some(IntKind::I32),
        1 => Some(IntKind::U32),
        2 => Some(IntKind::I64),
        3 => Some(IntKind::U64),
        _ => None,
    }
}

/// Where a conversion to an integer type leaves its result. One of 32 bits is
/// sign-extended, unsigned or not.
pub open spec fn int_dest(kind: IntKind) -> FloatDest {
    match kind {
        IntKind::I32 => FloatDest::Int32,
        IntKind::U32 => FloatDest::Int32,
        IntKind::I64 => FloatDest::Int,
        IntKind::U64 => FloatDest::Int,
    }
}

/// A calculation on operands of the given width with a result of that width.
pub open spec fn arithmetic(calc: FloatCalc, width: FloatWidth, a: u64, b: u64, c: u64, rd: usize)
    -> FloatOp {
    FloatOp {
        calc,
        a,
        b,
        c,
        dest: match width {
            FloatWidth::Single => FloatDest::Single,
            FloatWidth::Double => FloatDest::Double,
        },
        rd,
    }
}

/// The register value `v` as an operand of the given width.
pub open spec fn operand(width: FloatWidth, v: u64) -> u64 {
    match width {
        FloatWidth::Single => unboxed(v) as u64,
        FloatWidth::Double => v,
    }
}

/// The operand with the opposite sign.
pub open spec fn negated(width: FloatWidth, v: u64) -> u64 {
    match width {
        FloatWidth::Single => neg_s(word(v)) as u64,
        FloatWidth::Double => neg_d(v),
    }
}

impl CpuView {
    /// Floating-point register `i`.
    pub open spec fn f(self, i: usize) -> u64 {
        self.f_regs[i as int]
    }

    /// Floating point is switched off.
    pub open spec fn fp_off(self) -> bool {
        csr_read(self.csr, MSTATUS) / 0x2000 % 4 == 0
    }

    /// The hart waits for the result of a calculation.
    pub open spec fn ask(self, op: FloatOp) -> Outcome {
        (CpuView { request: Some(Request::Float(op)), ..self }, Ok(()))
    }

    /// The result of the calculation is there: it goes to its destination, and
    /// the instruction ends.
    pub open spec fn answer(self, op: FloatOp, bits: u64) -> CpuView {
        let s = CpuView { request: None, ..self };
        let d = (op.rd % 32) as int;
        let next = self.pc.wrapping_add(4);
        match op.dest {
            FloatDest::Double => s.set_f(d, bits).at(next),
            FloatDest::Single => s.set_f(d, boxed(word(bits))).at(next),
            FloatDest::Int => s.set_x(d, bits).at(next),
            FloatDest::Int32 => s.set_x(d, sext32(word(bits))).at(next),
        }
    }

    /// The floating-point loads.
    pub open spec fn exec_load_fp(self, inst: u32) -> Outcome {
        let va = self.x(rs1(inst) as int).wrapping_add(imm_i(inst));
        let next = self.pc.wrapping_add(4);
        match funct3(inst) {
            2 => match self.load(va, 4) {
                (s, Err(e)) => (s, Err(e)),
                (s, Ok(v)) => s.write_f(rd(inst) as int, boxed(word(v)), next),
            },
            3 => self.load_f(rd(inst) as int, va, next),
            _ => self.refuse(inst),
        }
    }

    /// An instruction that loads a double into a floating-point register.
    pub open spec fn load_f(self, i: int, va: u64, pc: u64) -> Outcome {
        match self.load(va, 8) {
            (s, Err(e)) => (s, Err(e)),
            (s, Ok(v)) => s.write_f(i, v, pc),
        }
    }

    /// The floating-point stores.
    pub open spec fn exec_store_fp(self, inst: u32) -> Outcome {
        let va = self.x(rs1(inst) as int).wrapping_add(imm_s(inst));
        let next = self.pc.wrapping_add(4);
        match funct3(inst) {
            2 => self.store_op(va, word(self.f(rs2(inst))) as u64, 4, next),
            3 => self.store_op(va, self.f(rs2(inst)), 8, next),
            _ => self.refuse(inst),
        }
    }

    /// An instruction whose result goes to a floating-point register as a double,
    /// if it is one.
    pub open spec fn double_result(self, inst: u32, v: Option<u64>) -> Outcome {
        match v {
            Some(w) => self.write_f(rd(inst) as int, w, self.pc.wrapping_add(4)),
            None => self.refuse(inst),
        }
    }

    /// An instruction whose result goes to a floating-point register as a single,
    /// if it is one.
    pub open spec fn single_result(self, inst: u32, v: Option<u32>) -> Outcome {
        match v {
            Some(w) => self.write_f(rd(inst) as int, boxed(w), self.pc.wrapping_add(4)),
            None => self.refuse(inst),
        }
    }

    /// An instruction whose result goes to an integer register, if it is one.
    pub open spec fn int_result(self, inst: u32, v: Option<u64>) -> Outcome {
        match v {
            Some(w) => self.write_x(rd(inst) as int, w, self.pc.wrapping_add(4)),
            None => self.refuse(inst),
        }
    }

    /// A calculation with two operands.
    pub open spec fn ask_binary(self, inst: u32, calc: FloatCalc, width: FloatWidth) -> Outcome {
        self.ask(
            arithmetic(
                calc,
                width,
                operand(width, self.f(rs1(inst))),
                operand(width, self.f(rs2(inst))),
                0,
                rd(inst),
            ),
        )
    }

    /// A square root; the second source field has to be zero.
    pub open spec fn ask_sqrt(self, inst: u32, width: FloatWidth) -> Outcome {
        if rs2(inst) != 0 {
            self.refuse(inst)
        } else {
            self.ask(
                arithmetic(
                    FloatCalc::Sqrt(width),
                    width,
                    operand(width, self.f(rs1(inst))),
                    0,
                    0,
                    rd(inst),
                ),
            )
        }
    }

    /// A conversion to an integer.
    pub open spec fn ask_to_int(self, inst: u32, width: FloatWidth) -> Outcome {
        match int_kind(rs2(inst)) {
            None => self.refuse(inst),
            Some(kind) => self.ask(
                FloatOp {
                    calc: FloatCalc::ToInt(width, kind),
                    a: operand(width, self.f(rs1(inst))),
                    b: 0,
                    c: 0,
                    dest: int_dest(kind),
                    rd: rd(inst),
                },
            ),
        }
    }

    /// A conversion from an integer.
    pub open spec fn ask_from_int(self, inst: u32, width: FloatWidth) -> Outcome {
        match int_kind(rs2(inst)) {
            None => self.refuse(inst),
            Some(kind) => self.ask(
                arithmetic(
                    FloatCalc::FromInt(kind, width),
                    width,
                    self.x(rs1(inst) as int),
                    0,
                    0,
                    rd(inst),
                ),
            ),
        }
    }

    /// The double-precision instructions that need no calculation, and the
    /// requests of those that do.
    pub open spec fn exec_fp_double(self, inst: u32) -> Outcome {
        let f3 = funct3(inst);
        let a = self.f(rs1(inst));
        let b = self.f(rs2(inst));
        let w = FloatWidth::Double;
        match funct7(inst) {
            0x01 => self.ask_binary(inst, FloatCalc::Add(w), w),
            0x05 => self.ask_binary(inst, FloatCalc::Sub(w), w),
            0x09 => self.ask_binary(inst, FloatCalc::Mul(w), w),
            0x0D => self.ask_binary(inst, FloatCalc::Div(w), w),
            0x2D => self.ask_sqrt(inst, w),
            0x11 => self.double_result(inst, sgnj_d(f3, a, b)),
            0x15 => self.double_result(inst, min_max_d(f3, a, b)),
            0x51 => self.int_result(inst, compare_d(f3, a, b)),
            0x61 => self.ask_to_int(inst, w),
            0x69 => self.ask_from_int(inst, w),
            0x21 => if rs2(inst) == 0 {
                self.ask(arithmetic(FloatCalc::Widen, w, unboxed(a) as u64, 0, 0, rd(inst)))
            } else {
                self.refuse(inst)
            },
            0x71 => if rs2(inst) != 0 {
                self.refuse(inst)
            } else if f3 == 0 {
                self.int_result(inst, Some(a))
            } else if f3 == 1 {
                self.int_result(inst, Some(class_d(a)))
            } else {
                self.refuse(inst)
            },
            0x79 => if f3 == 0 && rs2(inst) == 0 {
                self.double_result(inst, Some(self.x(rs1(inst) as int)))
            } else {
                self.refuse(inst)
            },
            _ => self.refuse(inst),
        }
    }

    /// The single-precision instructions that need no calculation, and the
    /// requests of those that do. A register that holds no boxed single reads as a
    /// NaN, except where it is moved.
    pub open spec fn exec_fp_single(self, inst: u32) -> Outcome {
        let f3 = funct3(inst);
        let a = self.f(rs1(inst));
        let b = self.f(rs2(inst));
        let w = FloatWidth::Single;
        match funct7(inst) {
            0x00 => self.ask_binary(inst, FloatCalc::Add(w), w),
            0x04 => self.ask_binary(inst, FloatCalc::Sub(w), w),
            0x08 => self.ask_binary(inst, FloatCalc::Mul(w), w),
            0x0C => self.ask_binary(inst, FloatCalc::Div(w), w),
            0x2C => self.ask_sqrt(inst, w),
            0x10 => self.single_result(inst, sgnj_s(f3, unboxed(a), unboxed(b))),
            0x14 => self.single_result(inst, min_max_s(f3, unboxed(a), unboxed(b))),
            0x50 => self.int_result(inst, compare_s(f3, unboxed(a), unboxed(b))),
            0x60 => self.ask_to_int(inst, w),
            0x68 => self.ask_from_int(inst, w),
            0x20 => if rs2(inst) == 1 {
                self.ask(arithmetic(FloatCalc::Narrow, w, a, 0, 0, rd(inst)))
            } else {
                self.refuse(inst)
            },
            0x70 => if rs2(inst) != 0 {
                self.refuse(inst)
            } else if f3 == 0 {
                self.int_result(inst, Some(sext32(word(a))))
            } else if f3 == 1 {
                self.int_result(inst, Some(class_s(unboxed(a))))
            } else {
                self.refuse(inst)
            },
            0x78 => if f3 == 0 && rs2(inst) == 0 {
                self.single_result(inst, Some(word(self.x(rs1(inst) as int))))
            } else {
                self.refuse(inst)
            },
            _ => self.refuse(inst),
        }
    }

    /// The floating-point instructions. The codes of the double-precision ones are
    /// odd, those of the single-precision ones even.
    pub open spec fn exec_fp(self, inst: u32) -> Outcome {
        if self.fp_off() {
            self.refuse(inst)
        } else if funct7(inst) % 2 == 1 {
            self.exec_fp_double(inst)
        } else {
            self.exec_fp_single(inst)
        }
    }

    /// The fused multiply-add instructions. FMSUB and FNMADD take the addend, FNMSUB
    /// and FNMADD the first factor with the opposite sign.
    pub open spec fn exec_fma(self, inst: u32) -> Outcome {
        let fmt = inst / 0x200_0000 % 4;
        let op = opcode(inst);
        let w = if fmt == 0 {
            FloatWidth::Single
        } else {
            FloatWidth::Double
        };
        if self.fp_off() || fmt > 1 {
            self.refuse(inst)
        } else {
            let a = operand(w, self.f(rs1(inst)));
            let b = operand(w, self.f(rs2(inst)));
            let c = operand(w, self.f(rs3(inst)));
            self.ask(
                arithmetic(
                    FloatCalc::MulAdd(w),
                    w,
                    if op == 0x4B || op == 0x4F {
                        negated(w, a)
                    } else {
                        a
                    },
                    b,
                    if op == 0x47 || op == 0x4F {
                        negated(w, c)
                    } else {
                        c
                    },
                    rd(inst),
                ),
            )
        }
    }
}

/// Boxes a single.
fn box_single(v: u32) -> (r: u64)
    ensures
        r == boxed(v),
{
    0xFFFF_FFFF_0000_0000 + v as u64
}

/// Unboxes a single.
fn unbox_single(v: u64) -> (r: u32)
    ensures
        r == unboxed(v),
{
    if v >= 0xFFFF_FFFF_0000_0000 {
        low_word(v)
    } else {
        NAN_S
    }
}

/// Gives a double a sign.
fn sign_d(a: u64, negative: bool) -> (r: u64)
    ensures
        r == with_sign_d(a, negative),
{
    if negative {
        a % SIGN_D + SIGN_D
    } else {
        a % SIGN_D
    }
}

/// Gives a single a sign.
fn sign_s(a: u32, negative: bool) -> (r: u32)
    ensures
        r == with_sign_s(a, negative),
{
    if negative {
        a % SIGN_S + SIGN_S
    } else {
        a % SIGN_S
    }
}

/// Whether a double is at most another, neither being a NaN.
fn at_most_d(a: u64, b: u64) -> (r: bool)
    ensures
        r == (rank_d(a) <= rank_d(b)),
{
    if a >= SIGN_D {
        if b >= SIGN_D {
            a % SIGN_D >= b % SIGN_D
        } else {
            true
        }
    } else if b >= SIGN_D {
        a == 0 && b % SIGN_D == 0
    } else {
        a <= b
    }
}

/// Whether a single is at most another, neither being a NaN.
fn at_most_s(a: u32, b: u32) -> (r: bool)
    ensures
        r == (rank_s(a) <= rank_s(b)),
{
    if a >= SIGN_S {
        if b >= SIGN_S {
            a % SIGN_S >= b % SIGN_S
        } else {
            true
        }
    } else if b >= SIGN_S {
        a == 0 && b % SIGN_S == 0
    } else {
        a <= b
    }
}

/// Computes `sgnj_d`.
fn inject_d(f3: u32, a: u64, b: u64) -> (r: Option<u64>)
    ensures
        r == sgnj_d(f3, a, b),
{
    match f3 {
        0 => Some(sign_d(a, b >= SIGN_D)),
        1 => Some(sign_d(a, b < SIGN_D)),
        2 => Some(sign_d(a, (a >= SIGN_D) != (b >= SIGN_D))),
        _ => None,
    }
}

/// Computes `sgnj_s`.
fn inject_s(f3: u32, a: u32, b: u32) -> (r: Option<u32>)
    ensures
        r == sgnj_s(f3, a, b),
{
    match f3 {
        0 => Some(sign_s(a, b >= SIGN_S)),
        1 => Some(sign_s(a, b < SIGN_S)),
        2 => Some(sign_s(a, (a >= SIGN_S) != (b >= SIGN_S))),
        _ => None,
    }
}

/// Computes `min_max_d`.
fn extreme_d(f3: u32, a: u64, b: u64) -> (r: Option<u64>)
    ensures
        r == min_max_d(f3, a, b),
{
    if f3 > 1 {
        return None;
    }
    let nan_a = a % SIGN_D > INF_D;
    let nan_b = b % SIGN_D > INF_D;
    let first = if nan_a && nan_b {
        return Some(NAN_D);
    } else if nan_a {
        false
    } else if nan_b {
        true
    } else if a % SIGN_D == 0 && b % SIGN_D == 0 {
        (a >= SIGN_D) == (f3 == 0)
    } else {
        at_most_d(a, b) == (f3 == 0)
    };
    if first {
        Some(a)
    } else {
        Some(b)
    }
}

/// Computes `min_max_s`.
fn extreme_s(f3: u32, a: u32, b: u32) -> (r: Option<u32>)
    ensures
        r == min_max_s(f3, a, b),
{
    if f3 > 1 {
        return None;
    }
    let nan_a = a % SIGN_S > INF_S;
    let nan_b = b % SIGN_S > INF_S;
    let first = if nan_a && nan_b {
        return Some(NAN_S);
    } else if nan_a {
        false
    } else if nan_b {
        true
    } else if a % SIGN_S == 0 && b % SIGN_S == 0 {
        (a >= SIGN_S) == (f3 == 0)
    } else {
        at_most_s(a, b) == (f3 == 0)
    };
    if first {
        Some(a)
    } else {
        Some(b)
    }
}

/// Computes `compare_d`.
fn relate_d(f3: u32, a: u64, b: u64) -> (r: Option<u64>)
    ensures
        r == compare_d(f3, a, b),
{
    let ordered = a % SIGN_D <= INF_D && b % SIGN_D <= INF_D;
    let below = at_most_d(a, b);
    let above = at_most_d(b, a);
    let holds = match f3 {
        2 => below && above,
        1 => below && !above,
        0 => below,
        _ => return None,
    };
    if ordered && holds {
        Some(1)
    } else {
        Some(0)
    }
}

/// Computes `compare_s`.
fn relate_s(f3: u32, a: u32, b: u32) -> (r: Option<u64>)
    ensures
        r == compare_s(f3, a, b),
{
    let ordered = a % SIGN_S <= INF_S && b % SIGN_S <= INF_S;
    let below = at_most_s(a, b);
    let above = at_most_s(b, a);
    let holds = match f3 {
        2 => below && above,
        1 => below && !above,
        0 => below,
        _ => return None,
    };
    if ordered && holds {
        Some(1)
    } else {
        Some(0)
    }
}

/// `neg` or `pos`, by the sign.
fn pick_sign(negative: bool, neg: u64, pos: u64) -> (r: u64)
    ensures
        r == by_sign(negative, neg, pos),
{
    if negative {
        neg
    } else {
        pos
    }
}

/// Classifies a double.
fn classify_d(v: u64) -> (r: u64)
    ensures
        r == class_d(v),
{
    let m: u64 = v % SIGN_D;
    let n = v >= SIGN_D;
    if m > INF_D {
        if m >= NAN_D {
            0x200
        } else {
            0x100
        }
    } else if m == INF_D {
        pick_sign(n, 0x1, 0x80)
    } else if m == 0 {
        pick_sign(n, 0x8, 0x10)
    } else if m < 0x0010_0000_0000_0000 {
        pick_sign(n, 0x4, 0x20)
    } else {
        pick_sign(n, 0x2, 0x40)
    }
}

/// Classifies a single.
fn classify_s(v: u32) -> (r: u64)
    ensures
        r == class_s(v),
{
    let m: u32 = v % SIGN_S;
    let n = v >= SIGN_S;
    if m > INF_S {
        if m >= NAN_S {
            0x200
        } else {
            0x100
        }
    } else if m == INF_S {
        pick_sign(n, 0x1, 0x80)
    } else if m == 0 {
        pick_sign(n, 0x8, 0x10)
    } else if m < 0x0080_0000 {
        pick_sign(n, 0x4, 0x20)
    } else {
        pick_sign(n, 0x2, 0x40)
    }
}

/// The integer type in the second source field.
fn kind_of(code: usize) -> (k: Option<IntKind>)
    ensures
        k == int_kind(code),
{
    match code {
        0 => Some(IntKind::I32),
        1 => Some(IntKind::U32),
        2 => Some(IntKind::I64),
        3 => Some(IntKind::U64),
        _ => None,
    }
}

/// Where a conversion to an integer type leaves its result. One of 32 bits is
/// sign-extended, unsigned or not.
fn dest_of(kind: IntKind) -> (d: FloatDest)
    ensures
        d == int_dest(kind),
{
    match kind {
        IntKind::I32 => FloatDest::Int32,
        IntKind::U32 => FloatDest::Int32,
        IntKind::I64 => FloatDest::Int,
        IntKind::U64 => FloatDest::Int,
    }
}

/// A calculation with a result of the given width.
fn calculation(calc: FloatCalc, width: FloatWidth, a: u64, b: u64, c: u64, rd: usize) -> (op:
    FloatOp)
    ensures
        op == arithmetic(calc, width, a, b, c, rd),
{
    let dest = match width {
        FloatWidth::Single => FloatDest::Single,
        FloatWidth::Double => FloatDest::Double,
    };
    FloatOp { calc, a, b, c, dest, rd }
}

/// The register value `v` as an operand of the given width.
fn as_operand(width: FloatWidth, v: u64) -> (r: u64)
    ensures
        r == operand(width, v),
{
    match width {
        FloatWidth::Single => unbox_single(v) as u64,
        FloatWidth::Double => v,
    }
}

/// The operand with the opposite sign.
fn negate(width: FloatWidth, v: u64) -> (r: u64)
    ensures
        r == negated(width, v),
{
    match width {
        FloatWidth::Single => {
            let s: u32 = low_word(v);
            sign_s(s, s < SIGN_S) as u64
        },
        FloatWidth::Double => sign_d(v, v < SIGN_D),
    }
}

impl Cpu {
    /// Whether floating point is switched off.
    fn is_fp_off(&self) -> (b: bool)
        ensures
            b == self@.fp_off(),
    {
        self.csr.read(MSTATUS) / 0x2000 % 4 == 0
    }

    /// Leaves a request for a calculation.
    fn request_float(&mut self, op: FloatOp) -> (r: Result<(), (Trap, u64)>)
        ensures
            (final(self)@, r) == old(self)@.ask(op),
    {
        self.request = Some(Request::Float(op));
        Ok(())
    }

    /// Goes on with the result of the calculation that the hart waits for.
    pub fn resume_float(&mut self, bits: u64)
        requires
            old(self)@.request matches Some(Request::Float(_)),
        ensures
            old(self)@.request matches Some(Request::Float(op)) && final(self)@ == old(
                self,
            )@.answer(op, bits),
    {
        if let Some(Request::Float(op)) = self.request {
            self.request = None;
            let next: u64 = self.pc.wrapping_add(4);
            let d: usize = op.rd % 32;
            match op.dest {
                FloatDest::Double => self.write_freg(d, bits),
                FloatDest::Single => self.write_freg(d, box_single(low_word(bits))),
                FloatDest::Int => self.write_reg(d, bits),
                FloatDest::Int32 => self.write_reg(d, sext_word(low_word(bits))),
            }
            self.pc = next;
        }
    }

    /// Loads a double into a floating-point register.
    pub(crate) fn do_load_f(&mut self, index: usize, va: u64, pc: u64) -> (r: Result<
        (),
        (Trap, u64),
    >)
        requires
            index < 32,
        ensures
            (final(self)@, r) == old(self)@.load_f(index as int, va, pc),
    {
        match self.load_va(va, 8) {
            Ok(v) => self.end_f(index, v, pc),
            Err(e) => Err(e),
        }
    }

    /// The floating-point loads.
    pub(crate) fn do_loads_fp(&mut self, inst: u32) -> (r: Result<(), (Trap, u64)>)
        ensures
            (final(self)@, r) == old(self)@.exec_load_fp(inst),
    {
        let va: u64 = self.read_reg(rs1(inst)).wrapping_add(imm_i(inst));
        let next: u64 = self.pc.wrapping_add(4);
        match funct3(inst) {
            2 => match self.load_va(va, 4) {
                Ok(v) => self.end_f(rd(inst), box_single(low_word(v)), next),
                Err(e) => Err(e),
            },
            3 => self.do_load_f(rd(inst), va, next),
            _ => self.refuse_inst(inst),
        }
    }

    /// The floating-point stores.
    pub(crate) fn do_stores_fp(&mut self, inst: u32) -> (r: Result<(), (Trap, u64)>)
        ensures
            (final(self)@, r) == old(self)@.exec_store_fp(inst),
    {
        let va: u64 = self.read_reg(rs1(inst)).wrapping_add(imm_s(inst));
        let next: u64 = self.pc.wrapping_add(4);
        let v: u64 = self.f_regs[rs2(inst)];
        match funct3(inst) {
            2 => self.do_store(va, low_word(v) as u64, 4, next),
            3 => self.do_store(va, v, 8, next),
            _ => self.refuse_inst(inst),
        }
    }

    /// Ends an instruction with a double as its result.
    fn end_double(&mut self, inst: u32, v: Option<u64>) -> (r: Result<(), (Trap, u64)>)
        ensures
            (final(self)@, r) == old(self)@.double_result(inst, v),
    {
        let next: u64 = self.pc.wrapping_add(4);
        match v {
            Some(w) => self.end_f(rd(inst), w, next),
            None => self.refuse_inst(inst),
        }
    }

    /// Ends an instruction with a single as its result.
    fn end_single(&mut self, inst: u32, v: Option<u32>) -> (r: Result<(), (Trap, u64)>)
        ensures
            (final(self)@, r) == old(self)@.single_result(inst, v),
    {
        let next: u64 = self.pc.wrapping_add(4);
        match v {
            Some(w) => self.end_f(rd(inst), box_single(w), next),
            None => self.refuse_inst(inst),
        }
    }

    /// Ends an instruction with an integer as its result.
    fn end_int(&mut self, inst: u32, v: Option<u64>) -> (r: Result<(), (Trap, u64)>)
        ensures
            (final(self)@, r) == old(self)@.int_result(inst, v),
    {
        let next: u64 = self.pc.wrapping_add(4);
        match v {
            Some(w) => self.end_x(rd(inst), w, next),
            None => self.refuse_inst(inst),
        }
    }

    /// Requests a calculation with two operands.
    fn request_binary(&mut self, inst: u32, calc: FloatCalc, width: FloatWidth) -> (r: Result<
        (),
        (Trap, u64),
    >)
        ensures
            (final(self)@, r) == old(self)@.ask_binary(inst, calc, width),
    {
        let a: u64 = as_operand(width, self.f_regs[rs1(inst)]);
        let b: u64 = as_operand(width, self.f_regs[rs2(inst)]);
        self.request_float(calculation(calc, width, a, b, 0, rd(inst)))
    }

    /// Requests a square root.
    fn request_sqrt(&mut self, inst: u32, width: FloatWidth) -> (r: Result<(), (Trap, u64)>)
        ensures
            (final(self)@, r) == old(self)@.ask_sqrt(inst, width),
    {
        if rs2(inst) != 0 {
            return self.refuse_inst(inst);
        }
        let a: u64 = as_operand(width, self.f_regs[rs1(inst)]);
        self.request_float(calculation(FloatCalc::Sqrt(width), width, a, 0, 0, rd(inst)))
    }

    /// Requests a conversion to an integer.
    fn request_to_int(&mut self, inst: u32, width: FloatWidth) -> (r: Result<(), (Trap, u64)>)
        ensures
            (final(self)@, r) == old(self)@.ask_to_int(inst, width),
    {
        let a: u64 = as_operand(width, self.f_regs[rs1(inst)]);
        match kind_of(rs2(inst)) {
            None => self.refuse_inst(inst),
            Some(kind) => self.request_float(
                FloatOp {
                    calc: FloatCalc::ToInt(width, kind),
                    a,
                    b: 0,
                    c: 0,
                    dest: dest_of(kind),
                    rd: rd(inst),
                },
            ),
        }
    }

    /// Requests a conversion from an integer.
    fn request_from_int(&mut self, inst: u32, width: FloatWidth) -> (r: Result<(), (Trap, u64)>)
        ensures
            (final(self)@, r) == old(self)@.ask_from_int(inst, width),
    {
        let a: u64 = self.read_reg(rs1(inst));
        match kind_of(rs2(inst)) {
            None => self.refuse_inst(inst),
            Some(kind) => self.request_float(
                calculation(FloatCalc::FromInt(kind, width), width, a, 0, 0, rd(inst)),
            ),
        }
    }

    /// The double-precision instructions.
    fn do_fp_double(&mut self, inst: u32) -> (r: Result<(), (Trap, u64)>)
        ensures
            (final(self)@, r) == old(self)@.exec_fp_double(inst),
    {
        let f3: u32 = funct3(inst);
        let a: u64 = self.f_regs[rs1(inst)];
        let b: u64 = self.f_regs[rs2(inst)];
        let w = FloatWidth::Double;
        match funct7(inst) {
            0x01 => self.request_binary(inst, FloatCalc::Add(w), w),
            0x05 => self.request_binary(inst, FloatCalc::Sub(w), w),
            0x09 => self.request_binary(inst, FloatCalc::Mul(w), w),
            0x0D => self.request_binary(inst, FloatCalc::Div(w), w),
            0x2D => self.request_sqrt(inst, w),
            0x11 => self.end_double(inst, inject_d(f3, a, b)),
            0x15 => self.end_double(inst, extreme_d(f3, a, b)),
            0x51 => self.end_int(inst, relate_d(f3, a, b)),
            0x61 => self.request_to_int(inst, w),
            0x69 => self.request_from_int(inst, w),
            0x21 => {
                if rs2(inst) == 0 {
                    self.request_float(
                        calculation(FloatCalc::Widen, w, unbox_single(a) as u64, 0, 0, rd(inst)),
                    )
                } else {
                    self.refuse_inst(inst)
                }
            },
            0x71 => {
                if rs2(inst) != 0 {
                    self.refuse_inst(inst)
                } else if f3 == 0 {
                    self.end_int(inst, Some(a))
                } else if f3 == 1 {
                    self.end_int(inst, Some(classify_d(a)))
                } else {
                    self.refuse_inst(inst)
                }
            },
            0x79 => {
                if f3 == 0 && rs2(inst) == 0 {
                    let v: u64 = self.read_reg(rs1(inst));
                    self.end_double(inst, Some(v))
                } else {
                    self.refuse_inst(inst)
                }
            },
            _ => self.refuse_inst(inst),
        }
    }

    /// The single-precision instructions.
    fn do_fp_single(&mut self, inst: u32) -> (r: Result<(), (Trap, u64)>)
        ensures
            (final(self)@, r) == old(self)@.exec_fp_single(inst),
    {
        let f3: u32 = funct3(inst);
        let a: u64 = self.f_regs[rs1(inst)];
        let b: u64 = self.f_regs[rs2(inst)];
        let w = FloatWidth::Single;
        match funct7(inst) {
            0x00 => self.request_binary(inst, FloatCalc::Add(w), w),
            0x04 => self.request_binary(inst, FloatCalc::Sub(w), w),
            0x08 => self.request_binary(inst, FloatCalc::Mul(w), w),
            0x0C => self.request_binary(inst, FloatCalc::Div(w), w),
            0x2C => self.request_sqrt(inst, w),
            0x10 => self.end_single(inst, inject_s(f3, unbox_single(a), unbox_single(b))),
            0x14 => self.end_single(inst, extreme_s(f3, unbox_single(a), unbox_single(b))),
            0x50 => self.end_int(inst, relate_s(f3, unbox_single(a), unbox_single(b))),
            0x60 => self.request_to_int(inst, w),
            0x68 => self.request_from_int(inst, w),
            0x20 => {
                if rs2(inst) == 1 {
                    self.request_float(calculation(FloatCalc::Narrow, w, a, 0, 0, rd(inst)))
                } else {
                    self.refuse_inst(inst)
                }
            },
            0x70 => {
                if rs2(inst) != 0 {
                    self.refuse_inst(inst)
                } else if f3 == 0 {
                    self.end_int(inst, Some(sext_word(low_word(a))))
                } else if f3 == 1 {
                    self.end_int(inst, Some(classify_s(unbox_single(a))))
                } else {
                    self.refuse_inst(inst)
                }
            },
            0x78 => {
                if f3 == 0 && rs2(inst) == 0 {
                    let v: u32 = low_word(self.read_reg(rs1(inst)));
                    self.end_single(inst, Some(v))
                } else {
                    self.refuse_inst(inst)
                }
            },
            _ => self.refuse_inst(inst),
        }
    }

    /// The floating-point instructions.
    pub(crate) fn do_fp(&mut self, inst: u32) -> (r: Result<(), (Trap, u64)>)
        ensures
            (final(self)@, r) == old(self)@.exec_fp(inst),
    {
        if self.is_fp_off() {
            return self.refuse_inst(inst);
        }
        if funct7(inst) % 2 == 1 {
            self.do_fp_double(inst)
        } else {
            self.do_fp_single(inst)
        }
    }

    /// The fused multiply-add instructions.
    pub(crate) fn do_fma(&mut self, inst: u32) -> (r: Result<(), (Trap, u64)>)
        ensures
            (final(self)@, r) == old(self)@.exec_fma(inst),
    {
        let fmt: u32 = inst / 0x200_0000 % 4;
        let op: u32 = opcode(inst);
        if self.is_fp_off() || fmt > 1 {
            return self.refuse_inst(inst);
        }
        let w = if fmt == 0 {
            FloatWidth::Single
        } else {
            FloatWidth::Double
        };
        let a: u64 = as_operand(w, self.f_regs[rs1(inst)]);
        let b: u64 = as_operand(w, self.f_regs[rs2(inst)]);
        let c: u64 = as_operand(w, self.f_regs[rs3(inst)]);
        let x: u64 = if op == 0x4B || op == 0x4F {
            negate(w, a)
        } else {
            a
        };
        let z: u64 = if op == 0x47 || op == 0x4F {
            negate(w, c)
        } else {
            c
        };
        self.request_float(calculation(FloatCalc::MulAdd(w), w, x, b, z, rd(inst)))
    }
}

/// A boxed single unboxes to itself, and no double that is not a boxed single is
/// taken for a number.
pub proof fn law_boxing(v: u32, r: u64)
    ensures
        unboxed(boxed(v)) == v,
        r < 0xFFFF_FFFF_0000_0000 ==> is_nan_s(unboxed(r)),
        r >= 0xFFFF_FFFF_0000_0000 ==> boxed(unboxed(r)) == r,
{
}

/// Injecting a value's own sign keeps it, and changing the sign twice gives the
/// value back.
pub proof fn law_signs(a: u64, s: u32)
    ensures
        sgnj_d(0, a, a) == Some(a),
        sgnj_d(1, a, a) == Some(neg_d(a)),
        neg_d(neg_d(a)) == a,
        sgnj_s(0, s, s) == Some(s),
        sgnj_s(1, s, s) == Some(neg_s(s)),
        neg_s(neg_s(s)) == s,
{
}

/// A comparison with a NaN fails. Of two numbers exactly one is less, or they are
/// equal; less or equal means one of both; the two zeros are equal.
pub proof fn law_comparison(a: u64, b: u64)
    ensures
        is_nan_d(a) || is_nan_d(b) ==> compare_d(0, a, b) == Some(0u64) && compare_d(1, a, b) == Some(
            0u64,
        ) && compare_d(2, a, b) == Some(0u64),
        !is_nan_d(a) && !is_nan_d(b) ==> {
            &&& (compare_d(0, a, b) == Some(1u64)) == (compare_d(1, a, b) == Some(1u64)
                || compare_d(2, a, b) == Some(1u64))
            &&& !(compare_d(1, a, b) == Some(1u64) && compare_d(2, a, b) == Some(1u64))
            &&& compare_d(1, a, b) == Some(1u64) || compare_d(1, b, a) == Some(1u64) || compare_d(
                2,
                a,
                b,
            ) == Some(1u64)
        },
        compare_d(2, 0, SIGN_D) == Some(1u64),
{
}

/// The minimum and the maximum of two numbers are these two numbers, the minimum
/// not above the maximum, and with a NaN both are the other operand.
pub proof fn law_min_max(a: u64, b: u64)
    ensures
        !is_nan_d(a) && !is_nan_d(b) ==> {
            let lo = min_max_d(0, a, b)->0;
            let hi = min_max_d(1, a, b)->0;
            &&& (lo == a && hi == b) || (lo == b && hi == a)
            &&& rank_d(lo) <= rank_d(hi)
        },
        is_nan_d(a) && !is_nan_d(b) ==> min_max_d(0, a, b) == Some(b) && min_max_d(1, a, b) == Some(
            b,
        ),
        !is_nan_d(a) && is_nan_d(b) ==> min_max_d(0, a, b) == Some(a) && min_max_d(1, a, b) == Some(
            a,
        ),
{
}

/// Every double has exactly one class.
pub proof fn law_class(v: u64)
    ensures
        exists|i: u64| 0 <= i < 10 && class_d(v) == #[trigger] (1u64 << i),
        (class_d(v) == 0x200 || class_d(v) == 0x100) == is_nan_d(v),
{
    assert(1u64 << 0u64 == 0x1 && 1u64 << 1u64 == 0x2 && 1u64 << 2u64 == 0x4 && 1u64 << 3u64 == 0x8
        && 1u64 << 4u64 == 0x10 && 1u64 << 5u64 == 0x20 && 1u64 << 6u64 == 0x40 && 1u64 << 7u64
        == 0x80 && 1u64 << 8u64 == 0x100 && 1u64 << 9u64 == 0x200) by (bit_vector);
}

} // verus!
