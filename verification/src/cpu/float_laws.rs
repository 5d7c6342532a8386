//! What the floating-point instructions do, instruction by instruction: which calculation
//! is asked for with which operands, and where its result goes; and what is done without
//! one.

#[allow(unused_imports)]
use crate::alu::word;
#[allow(unused_imports)]
use crate::cpu::decode::{funct3, funct7, imm_i, imm_s, opcode, rd, rs1, rs2, rs3};
#[allow(unused_imports)]
use crate::cpu::dispatch::{
    lemma_dispatch_fma, lemma_dispatch_fp, lemma_dispatch_load_fp, lemma_dispatch_store_fp, same,
};
#[allow(unused_imports)]
use crate::cpu::float::{
    arithmetic, boxed, class_d, class_s, compare_d, compare_s, int_dest, int_kind, min_max_d,
    min_max_s, negated, operand, sgnj_d, sgnj_s, unboxed,
};
#[allow(unused_imports)]
use crate::cpu::formats::{
    field, gives, i_format, lemma_r_format, lemma_words, low_num, named, r_format, reg, s_format,
    with_reg, wrap,
};
#[allow(unused_imports)]
use crate::cpu::integer_laws::{one_for, short_imm, stores};
#[allow(unused_imports)]
use crate::cpu::{
    CpuView, FloatCalc, FloatDest, FloatOp, FloatWidth, IntKind, Outcome, Request,
};
#[allow(unused_imports)]
use crate::csr::{csr_read, law_csr_writes_are_local, law_mstatus, MSTATUS, SSTATUS};
#[allow(unused_imports)]
use crate::trap::{Exception, Trap};
use vstd::prelude::*;

verus! {

/// Floating point is on: the FS field of `MSTATUS`, bits 13 and 14, is not zero.
pub open spec fn float_on(c: CpuView) -> bool {
    csr_read(c.csr, MSTATUS) & 0x6000 != 0
}

/// The single in a register: its low half if the high half is ones, else the NaN.
pub open spec fn single_in(v: u64) -> u64 {
    if v >> 32 == 0xFFFF_FFFF {
        v & 0xFFFF_FFFF
    } else {
        0x7FC0_0000
    }
}

/// The floating-point register `i` as an operand.
pub open spec fn freg(c: CpuView, w: FloatWidth, i: u32) -> u64 {
    if w == FloatWidth::Double {
        c.f_regs[i as int]
    } else {
        single_in(c.f_regs[i as int])
    }
}

/// The hart asks for a calculation and waits; nothing else changes.
pub open spec fn asks(c: CpuView, calc: FloatCalc, x: u64, y: u64, z: u64, dest: FloatDest, d: u32)
    -> Outcome {
    (
        CpuView {
            request: Some(Request::Float(FloatOp { calc, a: x, b: y, c: z, dest, rd: d as usize })),
            ..c
        },
        Ok(()),
    )
}

/// A result of the width of the operands.
pub open spec fn dest_of(w: FloatWidth) -> FloatDest {
    if w == FloatWidth::Double {
        FloatDest::Double
    } else {
        FloatDest::Single
    }
}

/// The low bit of the function code: zero for singles, one for doubles.
pub open spec fn fmt(w: FloatWidth) -> u32 {
    if w == FloatWidth::Double {
        1
    } else {
        0
    }
}

/// Bits and fields.
#[verifier::rlimit(60)]
proof fn lemma_float_bits(m: u64, v: u64)
    ensures
        (m & 0x6000 != 0) == (m / 0x2000 % 4 != 0),
        single_in(v) == unboxed(v),
        v & 0xFFFF_FFFF == word(v),
{
    assert((m & 0x6000 != 0) == (m / 0x2000 % 4 != 0) && (v >> 32 == 0xFFFF_FFFF) == (v
        >= 0xFFFF_FFFF_0000_0000) && v & 0xFFFF_FFFF == v % 0x1_0000_0000) by (bit_vector);
}

/// A floating-point instruction belongs to its group.
#[verifier::rlimit(60)]
proof fn lemma_fp(c: CpuView, f3: u32, f7: u32, d: u32, a: u32, b: u32)
    requires
        named(c, d, a, b),
        f3 < 8,
        f7 < 128,
        float_on(c),
    ensures
        ({
            let i = r_format(0x53, f3, f7, d, a, b);
            &&& funct3(i) == f3
            &&& funct7(i) == f7
            &&& rd(i) == d
            &&& rs1(i) == a
            &&& rs2(i) == b
            &&& f7 % 2 == 1 ==> same(c.exec(i), c.exec_fp_double(i))
            &&& f7 % 2 == 0 ==> same(c.exec(i), c.exec_fp_single(i))
        }),
{
    lemma_r_format(0x53, f3, f7, d, a, b);
    lemma_dispatch_fp(c, r_format(0x53, f3, f7, d, a, b));
    lemma_float_bits(csr_read(c.csr, MSTATUS), 0);
}

/// FADD, FSUB, FMUL, FDIV and FSQRT ask for their calculation, with the registers of the
/// two source fields as operands in this order. Whatever the rounding mode says.
#[verifier::rlimit(60)]
pub proof fn law_float_arithmetic(c: CpuView, w: FloatWidth, rm: u32, d: u32, a: u32, b: u32)
    requires
        named(c, d, a, b),
        rm < 8,
        float_on(c),
    ensures
        ({
            let x = freg(c, w, a);
            let y = freg(c, w, b);
            let k = dest_of(w);
            let f = fmt(w);
            &&& c.exec(r_format(0x53, rm, (0x00 + f) as u32, d, a, b)) == asks(
                c,
                FloatCalc::Add(w),
                x,
                y,
                0,
                k,
                d,
            )
            &&& c.exec(r_format(0x53, rm, (0x04 + f) as u32, d, a, b)) == asks(
                c,
                FloatCalc::Sub(w),
                x,
                y,
                0,
                k,
                d,
            )
            &&& c.exec(r_format(0x53, rm, (0x08 + f) as u32, d, a, b)) == asks(
                c,
                FloatCalc::Mul(w),
                x,
                y,
                0,
                k,
                d,
            )
            &&& c.exec(r_format(0x53, rm, (0x0C + f) as u32, d, a, b)) == asks(
                c,
                FloatCalc::Div(w),
                x,
                y,
                0,
                k,
                d,
            )
            &&& c.exec(r_format(0x53, rm, (0x2C + f) as u32, d, a, 0)) == asks(
                c,
                FloatCalc::Sqrt(w),
                x,
                0,
                0,
                k,
                d,
            )
        }),
{
    let f = fmt(w);
    lemma_fp(c, rm, (0x00 + f) as u32, d, a, b);
    lemma_fp(c, rm, (0x04 + f) as u32, d, a, b);
    lemma_fp(c, rm, (0x08 + f) as u32, d, a, b);
    lemma_fp(c, rm, (0x0C + f) as u32, d, a, b);
    lemma_fp(c, rm, (0x2C + f) as u32, d, a, 0);
    lemma_float_bits(0, c.f_regs[a as int]);
    lemma_float_bits(0, c.f_regs[b as int]);
}

/// The integer type number `n`: signed and unsigned, of 32 and of 64 bits.
pub open spec fn kind_number(n: u32) -> IntKind {
    if n == 0 {
        IntKind::I32
    } else if n == 1 {
        IntKind::U32
    } else if n == 2 {
        IntKind::I64
    } else {
        IntKind::U64
    }
}

/// A conversion to an integer asks for the value of the register in the first source
/// field; the second field is the number of the type. A result of 32 bits is
/// sign-extended.
#[verifier::rlimit(60)]
pub proof fn law_float_to_int(c: CpuView, w: FloatWidth, rm: u32, d: u32, a: u32, n: u32)
    requires
        named(c, d, a, 0),
        rm < 8,
        n < 4,
        float_on(c),
    ensures
        c.exec(r_format(0x53, rm, (0x60 + fmt(w)) as u32, d, a, n)) == asks(
            c,
            FloatCalc::ToInt(w, kind_number(n)),
            freg(c, w, a),
            0,
            0,
            if n < 2 {
                FloatDest::Int32
            } else {
                FloatDest::Int
            },
            d,
        ),
{
    lemma_fp(c, rm, (0x60 + fmt(w)) as u32, d, a, n);
    lemma_float_bits(0, c.f_regs[a as int]);
}

/// What a conversion to an integer asks for does not depend on any floating-point register
/// but the one in the first source field.
#[verifier::rlimit(60)]
pub proof fn law_float_to_int_operand(
    c: CpuView,
    e: CpuView,
    w: FloatWidth,
    rm: u32,
    d: u32,
    a: u32,
    n: u32,
)
    requires
        named(c, d, a, 0),
        rm < 8,
        n < 4,
        float_on(c),
        e.f_regs.len() == 32,
        e == (CpuView { f_regs: e.f_regs, ..c }),
        e.f_regs[a as int] == c.f_regs[a as int],
    ensures
        ({
            let i = r_format(0x53, rm, (0x60 + fmt(w)) as u32, d, a, n);
            c.exec(i).0.request == e.exec(i).0.request && c.exec(i).1 == e.exec(i).1
        }),
{
    law_float_to_int(c, w, rm, d, a, n);
    law_float_to_int(e, w, rm, d, a, n);
}

/// A conversion from an integer asks for the value of the integer register in the first
/// source field; the conversions between the widths take a floating-point register.
#[verifier::rlimit(60)]
pub proof fn law_float_from_int(c: CpuView, w: FloatWidth, rm: u32, d: u32, a: u32, n: u32)
    requires
        named(c, d, a, 0),
        rm < 8,
        n < 4,
        float_on(c),
    ensures
        c.exec(r_format(0x53, rm, (0x68 + fmt(w)) as u32, d, a, n)) == asks(
            c,
            FloatCalc::FromInt(kind_number(n), w),
            reg(c, a),
            0,
            0,
            dest_of(w),
            d,
        ),
        c.exec(r_format(0x53, rm, 0x21, d, a, 0)) == asks(
            c,
            FloatCalc::Widen,
            single_in(c.f_regs[a as int]),
            0,
            0,
            FloatDest::Double,
            d,
        ),
        c.exec(r_format(0x53, rm, 0x20, d, a, 1)) == asks(
            c,
            FloatCalc::Narrow,
            c.f_regs[a as int],
            0,
            0,
            FloatDest::Single,
            d,
        ),
{
    lemma_fp(c, rm, (0x68 + fmt(w)) as u32, d, a, n);
    lemma_fp(c, rm, 0x21, d, a, 0);
    lemma_fp(c, rm, 0x20, d, a, 1);
    lemma_float_bits(0, c.f_regs[a as int]);
}

/// The value with the opposite sign.
pub open spec fn opposite(w: FloatWidth, v: u64) -> u64 {
    if w == FloatWidth::Double {
        v ^ 0x8000_0000_0000_0000
    } else {
        v ^ 0x8000_0000
    }
}

/// The sign flipped.
#[verifier::rlimit(60)]
proof fn lemma_opposite(v: u64)
    ensures
        opposite(FloatWidth::Double, v) == negated(FloatWidth::Double, v),
        v < 0x1_0000_0000 ==> opposite(FloatWidth::Single, v) == negated(FloatWidth::Single, v),
{
    assert(((v ^ 0x8000_0000_0000_0000) == if v >= 0x8000_0000_0000_0000 {
        (v - 0x8000_0000_0000_0000) as u64
    } else {
        (v + 0x8000_0000_0000_0000) as u64
    }) && (v < 0x1_0000_0000 ==> (v ^ 0x8000_0000) == if v >= 0x8000_0000 {
        (v - 0x8000_0000) as u64
    } else {
        (v + 0x8000_0000) as u64
    })) by (bit_vector);
}

/// FMADD asks for a * b + c, FMSUB for a * b - c, FNMSUB for -(a * b) + c and FNMADD for
/// -(a * b) - c, rounded once, the operands being the registers of the three source
/// fields.
#[verifier::rlimit(60)]
pub proof fn law_fused(c: CpuView, w: FloatWidth, rm: u32, d: u32, a: u32, b: u32, z: u32)
    requires
        named(c, d, a, b),
        z < 32,
        rm < 8,
        float_on(c),
    ensures
        ({
            let f7 = (z * 4 + fmt(w)) as u32;
            let x = freg(c, w, a);
            let y = freg(c, w, b);
            let t = freg(c, w, z);
            let calc = FloatCalc::MulAdd(w);
            let k = dest_of(w);
            &&& c.exec(r_format(0x43, rm, f7, d, a, b)) == asks(c, calc, x, y, t, k, d)
            &&& c.exec(r_format(0x47, rm, f7, d, a, b)) == asks(
                c,
                calc,
                x,
                y,
                opposite(w, t),
                k,
                d,
            )
            &&& c.exec(r_format(0x4B, rm, f7, d, a, b)) == asks(
                c,
                calc,
                opposite(w, x),
                y,
                t,
                k,
                d,
            )
            &&& c.exec(r_format(0x4F, rm, f7, d, a, b)) == asks(
                c,
                calc,
                opposite(w, x),
                y,
                opposite(w, t),
                k,
                d,
            )
        }),
{
    lemma_fused(c, w, 0x43, rm, d, a, b, z);
    lemma_fused(c, w, 0x47, rm, d, a, b, z);
    lemma_fused(c, w, 0x4B, rm, d, a, b, z);
    lemma_fused(c, w, 0x4F, rm, d, a, b, z);
}

/// One of the fused instructions.
#[verifier::rlimit(60)]
proof fn lemma_fused(c: CpuView, w: FloatWidth, op: u32, rm: u32, d: u32, a: u32, b: u32, z: u32)
    requires
        named(c, d, a, b),
        z < 32,
        rm < 8,
        float_on(c),
        op == 0x43 || op == 0x47 || op == 0x4B || op == 0x4F,
    ensures
        ({
            let f7 = (z * 4 + fmt(w)) as u32;
            let x = freg(c, w, a);
            let t = freg(c, w, z);
            same(
                c.exec(r_format(op, rm, f7, d, a, b)),
                asks(
                    c,
                    FloatCalc::MulAdd(w),
                    if op == 0x4B || op == 0x4F {
                        opposite(w, x)
                    } else {
                        x
                    },
                    freg(c, w, b),
                    if op == 0x47 || op == 0x4F {
                        opposite(w, t)
                    } else {
                        t
                    },
                    dest_of(w),
                    d,
                ),
            )
        }),
{
    let f7 = (z * 4 + fmt(w)) as u32;
    lemma_r_format(op, rm, f7, d, a, b);
    lemma_dispatch_fma(c, r_format(op, rm, f7, d, a, b));
    lemma_float_bits(csr_read(c.csr, MSTATUS), c.f_regs[a as int]);
    lemma_float_bits(0, c.f_regs[b as int]);
    lemma_float_bits(0, c.f_regs[z as int]);
    lemma_opposite(freg(c, w, a));
    lemma_opposite(freg(c, w, z));
}

/// The outcome writes `v` to floating-point register `d`, goes on behind the instruction
/// and marks the floating-point state as dirty. Nothing else changes; `other` stands for
/// every other control register.
pub open spec fn writes_float(c: CpuView, o: Outcome, d: u32, v: u64, other: u16) -> bool {
    let s = o.0;
    &&& o.1 is Ok
    &&& s == CpuView {
        f_regs: c.f_regs.update(d as int, v),
        csr: s.csr,
        pc: wrap(c.pc + 4),
        ..c
    }
    &&& csr_read(s.csr, MSTATUS) & 0x6000 == 0x6000
    &&& csr_read(s.csr, MSTATUS) & 0x7FFF_FFF0_FFFF_9FFF == csr_read(c.csr, MSTATUS)
        & 0x7FFF_FFF0_FFFF_9FFF
    &&& other != MSTATUS && other != SSTATUS ==> csr_read(s.csr, other) == csr_read(c.csr, other)
}

/// Writing a floating-point register.
#[verifier::rlimit(60)]
proof fn lemma_write_f(c: CpuView, d: u32, v: u64, other: u16)
    requires
        named(c, d, 0, 0),
    ensures
        writes_float(c, c.write_f(d as int, v, c.pc.wrapping_add(4)), d, v, other),
{
    let m = csr_read(c.csr, MSTATUS);
    let n = m | 0x6000;
    law_mstatus(c.csr, n);
    let r = csr_read(crate::csr::csr_write(c.csr, MSTATUS, n), MSTATUS);
    assert(r & 0x6000 == 0x6000 && r & 0x7FFF_FFF0_FFFF_9FFF == m & 0x7FFF_FFF0_FFFF_9FFF)
        by (bit_vector)
        requires
            n == m | 0x6000,
            r & 0x7FFF_FFF0_FFFF_FFFF == n & 0x7FFF_FFF0_FFFF_FFFF,
    ;
    if other != MSTATUS && other != SSTATUS {
        law_csr_writes_are_local(c.csr, MSTATUS, n, other);
    }
}

/// A single as a register holds it: with ones in the high half.
pub open spec fn held(v: u64) -> u64 {
    ((v & 0xFFFF_FFFF) + 0xFFFF_FFFF_0000_0000) as u64
}

/// FMV.X.D, FMV.X.W, FMV.D.X and FMV.W.X move bits between the register files as they are;
/// to an integer register a single is sign-extended.
#[verifier::rlimit(60)]
pub proof fn law_float_moves(c: CpuView, d: u32, a: u32, other: u16)
    requires
        named(c, d, a, 0),
        float_on(c),
    ensures
        ({
            let v = c.f_regs[a as int];
            &&& c.exec(r_format(0x53, 0, 0x71, d, a, 0)) == gives(c, d, v)
            &&& c.exec(r_format(0x53, 0, 0x70, d, a, 0)) == gives(c, d, wrap(low_num(v)))
            &&& writes_float(c, c.exec(r_format(0x53, 0, 0x79, d, a, 0)), d, reg(c, a), other)
            &&& writes_float(
                c,
                c.exec(r_format(0x53, 0, 0x78, d, a, 0)),
                d,
                held(reg(c, a)),
                other,
            )
        }),
{
    lemma_fp(c, 0, 0x71, d, a, 0);
    lemma_fp(c, 0, 0x70, d, a, 0);
    lemma_fp(c, 0, 0x79, d, a, 0);
    lemma_fp(c, 0, 0x78, d, a, 0);
    lemma_float_bits(0, reg(c, a));
    lemma_write_f(c, d, reg(c, a), other);
    lemma_write_f(c, d, held(reg(c, a)), other);
}

/// FSGNJ, FSGNJN and FSGNJX: the first operand with the sign of the second, with its
/// opposite, and with the exclusive or of both signs.
#[verifier::rlimit(60)]
pub proof fn law_sign_injection(c: CpuView, d: u32, a: u32, b: u32, other: u16)
    requires
        named(c, d, a, b),
        float_on(c),
    ensures
        ({
            let x = c.f_regs[a as int];
            let y = c.f_regs[b as int];
            let s = 0x8000_0000_0000_0000u64;
            let u = single_in(x);
            let v = single_in(y);
            let t = 0x8000_0000u64;
            &&& writes_float(
                c,
                c.exec(r_format(0x53, 0, 0x11, d, a, b)),
                d,
                (x & !s) | (y & s),
                other,
            )
            &&& writes_float(
                c,
                c.exec(r_format(0x53, 1, 0x11, d, a, b)),
                d,
                (x & !s) | (!y & s),
                other,
            )
            &&& writes_float(c, c.exec(r_format(0x53, 2, 0x11, d, a, b)), d, x ^ (y & s), other)
            &&& writes_float(
                c,
                c.exec(r_format(0x53, 0, 0x10, d, a, b)),
                d,
                held((u & !t) | (v & t)),
                other,
            )
            &&& writes_float(
                c,
                c.exec(r_format(0x53, 1, 0x10, d, a, b)),
                d,
                held((u & !t) | (!v & t)),
                other,
            )
            &&& writes_float(
                c,
                c.exec(r_format(0x53, 2, 0x10, d, a, b)),
                d,
                held(u ^ (v & t)),
                other,
            )
        }),
{
    let x = c.f_regs[a as int];
    let y = c.f_regs[b as int];
    let u = single_in(x);
    let v = single_in(y);
    lemma_fp(c, 0, 0x11, d, a, b);
    lemma_fp(c, 1, 0x11, d, a, b);
    lemma_fp(c, 2, 0x11, d, a, b);
    lemma_fp(c, 0, 0x10, d, a, b);
    lemma_fp(c, 1, 0x10, d, a, b);
    lemma_fp(c, 2, 0x10, d, a, b);
    lemma_float_bits(0, x);
    lemma_float_bits(0, y);
    lemma_injected(x, y, u, v);
    let s = 0x8000_0000_0000_0000u64;
    let t = 0x8000_0000u64;
    lemma_write_f(c, d, (x & !s) | (y & s), other);
    lemma_write_f(c, d, (x & !s) | (!y & s), other);
    lemma_write_f(c, d, x ^ (y & s), other);
    lemma_write_f(c, d, held((u & !t) | (v & t)), other);
    lemma_write_f(c, d, held((u & !t) | (!v & t)), other);
    lemma_write_f(c, d, held(u ^ (v & t)), other);
}

/// Signs as bits.
#[verifier::rlimit(60)]
proof fn lemma_injected(x: u64, y: u64, u: u64, v: u64)
    requires
        u < 0x1_0000_0000,
        v < 0x1_0000_0000,
    ensures
        ({
            let s = 0x8000_0000_0000_0000u64;
            let t = 0x8000_0000u64;
            &&& sgnj_d(0, x, y) == Some((x & !s) | (y & s))
            &&& sgnj_d(1, x, y) == Some((x & !s) | (!y & s))
            &&& sgnj_d(2, x, y) == Some(x ^ (y & s))
            &&& sgnj_s(0, u as u32, v as u32) matches Some(w) && boxed(w) == held(
                (u & !t) | (v & t),
            )
            &&& sgnj_s(1, u as u32, v as u32) matches Some(w) && boxed(w) == held(
                (u & !t) | (!v & t),
            )
            &&& sgnj_s(2, u as u32, v as u32) matches Some(w) && boxed(w) == held(u ^ (v & t))
        }),
{
    assert({
        let s = 0x8000_0000_0000_0000u64;
        let t = 0x8000_0000u64;
        let m = x % s;
        let n = u % t;
        &&& (x & !s) | (y & s) == if y >= s { (m + s) as u64 } else { m }
        &&& (x & !s) | (!y & s) == if y < s { (m + s) as u64 } else { m }
        &&& x ^ (y & s) == if (x >= s) != (y >= s) { (m + s) as u64 } else { m }
        &&& ((u & !t) | (v & t)) & 0xFFFF_FFFF == if v >= t { (n + t) as u64 } else { n }
        &&& ((u & !t) | (!v & t)) & 0xFFFF_FFFF == if v < t { (n + t) as u64 } else { n }
        &&& (u ^ (v & t)) & 0xFFFF_FFFF == if (u >= t) != (v >= t) { (n + t) as u64 } else { n }
    }) by (bit_vector)
        requires
            u < 0x1_0000_0000,
            v < 0x1_0000_0000,
    ;
}

/// A number, not a NaN: its exponent is not all ones, or its fraction is zero.
pub open spec fn is_number(w: FloatWidth, v: u64) -> bool {
    if w == FloatWidth::Double {
        v & 0x7FFF_FFFF_FFFF_FFFF <= 0x7FF0_0000_0000_0000
    } else {
        v & 0x7FFF_FFFF <= 0x7F80_0000
    }
}

/// A number's place in the order: its magnitude, below zero with the sign.
pub open spec fn place(w: FloatWidth, v: u64) -> int {
    if w == FloatWidth::Double {
        if v & 0x8000_0000_0000_0000 != 0 {
            -((v & 0x7FFF_FFFF_FFFF_FFFF) as int)
        } else {
            (v & 0x7FFF_FFFF_FFFF_FFFF) as int
        }
    } else {
        if v & 0x8000_0000 != 0 {
            -((v & 0x7FFF_FFFF) as int)
        } else {
            (v & 0x7FFF_FFFF) as int
        }
    }
}

/// Signs and magnitudes.
#[verifier::rlimit(60)]
proof fn lemma_places(v: u64)
    ensures
        is_number(FloatWidth::Double, v) == !crate::cpu::float::is_nan_d(v),
        place(FloatWidth::Double, v) == crate::cpu::float::rank_d(v),
        (v & 0x8000_0000_0000_0000 != 0) == (v >= 0x8000_0000_0000_0000),
        v < 0x1_0000_0000 ==> {
            &&& is_number(FloatWidth::Single, v) == !crate::cpu::float::is_nan_s(v as u32)
            &&& place(FloatWidth::Single, v) == crate::cpu::float::rank_s(v as u32)
            &&& (v & 0x8000_0000 != 0) == (v >= 0x8000_0000)
        },
{
    assert(v & 0x7FFF_FFFF_FFFF_FFFF == v % 0x8000_0000_0000_0000 && (v & 0x8000_0000_0000_0000
        != 0) == (v >= 0x8000_0000_0000_0000) && (v < 0x1_0000_0000 ==> v & 0x7FFF_FFFF == v
        % 0x8000_0000 && (v & 0x8000_0000 != 0) == (v >= 0x8000_0000))) by (bit_vector);
}

/// FEQ, FLT and FLE compare numbers by their places; with a NaN none of them holds.
#[verifier::rlimit(60)]
pub proof fn law_float_comparisons(c: CpuView, w: FloatWidth, d: u32, a: u32, b: u32)
    requires
        named(c, d, a, b),
        float_on(c),
    ensures
        ({
            let x = freg(c, w, a);
            let y = freg(c, w, b);
            let o = is_number(w, x) && is_number(w, y);
            let f7 = (0x50 + fmt(w)) as u32;
            &&& c.exec(r_format(0x53, 2, f7, d, a, b)) == gives(
                c,
                d,
                one_for(o && place(w, x) == place(w, y)),
            )
            &&& c.exec(r_format(0x53, 1, f7, d, a, b)) == gives(
                c,
                d,
                one_for(o && place(w, x) < place(w, y)),
            )
            &&& c.exec(r_format(0x53, 0, f7, d, a, b)) == gives(
                c,
                d,
                one_for(o && place(w, x) <= place(w, y)),
            )
        }),
{
    let f7 = (0x50 + fmt(w)) as u32;
    lemma_fp(c, 0, f7, d, a, b);
    lemma_fp(c, 1, f7, d, a, b);
    lemma_fp(c, 2, f7, d, a, b);
    lemma_float_bits(0, c.f_regs[a as int]);
    lemma_float_bits(0, c.f_regs[b as int]);
    lemma_places(freg(c, w, a));
    lemma_places(freg(c, w, b));
}

/// A value of the given width as a register holds it.
pub open spec fn as_held(w: FloatWidth, v: u64) -> u64 {
    if w == FloatWidth::Double {
        v
    } else {
        held(v)
    }
}

/// The sign of a value.
pub open spec fn is_negative(w: FloatWidth, v: u64) -> bool {
    if w == FloatWidth::Double {
        v & 0x8000_0000_0000_0000 != 0
    } else {
        v & 0x8000_0000 != 0
    }
}

/// FMIN and FMAX write the smaller and the larger of two numbers, of two zeros the negative
/// and the positive one; a NaN gives way to a number, and two NaNs give the canonical one.
#[verifier::rlimit(60)]
pub proof fn law_float_extremes(c: CpuView, w: FloatWidth, d: u32, a: u32, b: u32, other: u16)
    requires
        named(c, d, a, b),
        float_on(c),
    ensures
        ({
            let x = freg(c, w, a);
            let y = freg(c, w, b);
            let f7 = (0x14 + fmt(w)) as u32;
            let first_is_less = place(w, x) < place(w, y) || (place(w, x) == place(w, y) && (
            is_negative(w, x) || !is_negative(w, y)));
            let low = if is_number(w, x) && is_number(w, y) {
                if first_is_less {
                    x
                } else {
                    y
                }
            } else if is_number(w, x) {
                x
            } else if is_number(w, y) {
                y
            } else if w == FloatWidth::Double {
                0x7FF8_0000_0000_0000
            } else {
                0x7FC0_0000
            };
            let high = if is_number(w, x) && is_number(w, y) {
                if first_is_less {
                    y
                } else {
                    x
                }
            } else {
                low
            };
            &&& writes_float(
                c,
                c.exec(r_format(0x53, 0, f7, d, a, b)),
                d,
                as_held(w, low),
                other,
            )
            &&& writes_float(
                c,
                c.exec(r_format(0x53, 1, f7, d, a, b)),
                d,
                as_held(w, high),
                other,
            )
        }),
{
    let x = freg(c, w, a);
    let y = freg(c, w, b);
    let f7 = (0x14 + fmt(w)) as u32;
    lemma_fp(c, 0, f7, d, a, b);
    lemma_fp(c, 1, f7, d, a, b);
    lemma_float_bits(0, c.f_regs[a as int]);
    lemma_float_bits(0, c.f_regs[b as int]);
    lemma_float_bits(0, x);
    lemma_float_bits(0, y);
    lemma_float_bits(0, 0x7FC0_0000);
    lemma_places(x);
    lemma_places(y);
    lemma_write_f(c, d, as_held(w, x), other);
    lemma_write_f(c, d, as_held(w, y), other);
    lemma_write_f(
        c,
        d,
        if w == FloatWidth::Double {
            0x7FF8_0000_0000_0000
        } else {
            held(0x7FC0_0000)
        },
        other,
    );
}

/// The class of a value by its exponent `e`, the highest being `top`, and its fraction `m`,
/// whose top bit is `quiet`.
pub open spec fn class_by_fields(negative: bool, e: u64, top: u64, m: u64, quiet: u64) -> u64 {
    if e == top && m != 0 {
        if m & quiet != 0 {
            0x200
        } else {
            0x100
        }
    } else if negative {
        if e == top {
            0x1
        } else if e != 0 {
            0x2
        } else if m != 0 {
            0x4
        } else {
            0x8
        }
    } else if e == top {
        0x80
    } else if e != 0 {
        0x40
    } else if m != 0 {
        0x20
    } else {
        0x10
    }
}

/// FCLASS writes the one bit of ten that stands for the class of the value.
#[verifier::rlimit(60)]
pub proof fn law_float_classes(c: CpuView, d: u32, a: u32)
    requires
        named(c, d, a, 0),
        float_on(c),
    ensures
        ({
            let x = c.f_regs[a as int];
            let u = single_in(x);
            &&& c.exec(r_format(0x53, 1, 0x71, d, a, 0)) == gives(
                c,
                d,
                class_by_fields(
                    x >> 63 == 1,
                    (x >> 52) & 0x7FF,
                    0x7FF,
                    x & 0xF_FFFF_FFFF_FFFF,
                    0x8_0000_0000_0000,
                ),
            )
            &&& c.exec(r_format(0x53, 1, 0x70, d, a, 0)) == gives(
                c,
                d,
                class_by_fields(u >> 31 == 1, (u >> 23) & 0xFF, 0xFF, u & 0x7F_FFFF, 0x40_0000),
            )
        }),
{
    let x = c.f_regs[a as int];
    let u = single_in(x);
    lemma_fp(c, 1, 0x71, d, a, 0);
    lemma_fp(c, 1, 0x70, d, a, 0);
    lemma_float_bits(0, x);
    assert({
        let m = x % 0x8000_0000_0000_0000;
        let e = (x >> 52) & 0x7FF;
        let f = x & 0xF_FFFF_FFFF_FFFF;
        let n = u % 0x8000_0000;
        let g = (u >> 23) & 0xFF;
        let h = u & 0x7F_FFFF;
        &&& (x >> 63 == 1) == (x >= 0x8000_0000_0000_0000)
        &&& (e == 0x7FF && f != 0) == (m > 0x7FF0_0000_0000_0000)
        &&& e == 0x7FF && f != 0 ==> (f & 0x8_0000_0000_0000 != 0) == (m >= 0x7FF8_0000_0000_0000)
        &&& (e == 0x7FF && f == 0) == (m == 0x7FF0_0000_0000_0000)
        &&& (e == 0) == (m < 0x10_0000_0000_0000)
        &&& (e == 0 && f == 0) == (m == 0)
        &&& (u >> 31 == 1) == (u >= 0x8000_0000)
        &&& (g == 0xFF && h != 0) == (n > 0x7F80_0000)
        &&& g == 0xFF && h != 0 ==> (h & 0x40_0000 != 0) == (n >= 0x7FC0_0000)
        &&& (g == 0xFF && h == 0) == (n == 0x7F80_0000)
        &&& (g == 0) == (n < 0x80_0000)
        &&& (g == 0 && h == 0) == (n == 0)
    }) by (bit_vector)
        requires
            u < 0x1_0000_0000,
    ;
}

/// The result of a calculation goes where the request said: to a floating-point register
/// as a double or as a single with ones above, or to an integer register, whole or 32 bits
/// of it sign-extended. The hart then goes on behind the instruction and waits no longer.
#[verifier::rlimit(60)]
pub proof fn law_float_answer(c: CpuView, op: FloatOp, bits: u64, other: u16)
    requires
        named(c, 0, 0, 0),
        op.rd < 32,
    ensures
        ({
            let s = c.answer(op, bits);
            let e = CpuView { request: None, ..c };
            let d = op.rd as u32;
            match op.dest {
                FloatDest::Double => writes_float(e, (s, Ok(())), d, bits, other),
                FloatDest::Single => writes_float(e, (s, Ok(())), d, held(bits), other),
                FloatDest::Int => s == gives(e, d, bits).0,
                FloatDest::Int32 => s == gives(e, d, wrap(low_num(bits))).0,
            }
        }),
{
    let e = CpuView { request: None, ..c };
    lemma_float_bits(0, bits);
    lemma_write_f(e, op.rd as u32, bits, other);
    lemma_write_f(e, op.rd as u32, held(bits), other);
}

/// While floating point is off its instructions are illegal.
#[verifier::rlimit(60)]
pub proof fn law_float_off(c: CpuView, f3: u32, f7: u32, d: u32, a: u32, b: u32)
    requires
        named(c, d, a, b),
        f3 < 8,
        f7 < 128,
        !float_on(c),
    ensures
        ({
            let i = r_format(0x53, f3, f7, d, a, b);
            c.exec(i) == (
                c,
                Err::<(), (Trap, u64)>((Trap::Exception(Exception::IllegalInstruction), i as u64)),
            )
        }),
{
    lemma_r_format(0x53, f3, f7, d, a, b);
    lemma_dispatch_fp(c, r_format(0x53, f3, f7, d, a, b));
    lemma_float_bits(csr_read(c.csr, MSTATUS), 0);
}

/// FSW and FSD store a floating-point register, its low half or all of it.
#[verifier::rlimit(60)]
pub proof fn law_float_stores(c: CpuView, a: u32, b: u32, imm: int)
    requires
        named(c, 0, a, b),
        short_imm(imm),
    ensures
        ({
            let va = wrap(reg(c, a) + imm);
            let v = c.f_regs[b as int];
            &&& c.exec(s_format(0x27, 2, a, b, imm)) == stores(c, va, v & 0xFFFF_FFFF, 4)
            &&& c.exec(s_format(0x27, 3, a, b, imm)) == stores(c, va, v, 8)
        }),
{
    let k = field(imm, 0x1000);
    lemma_words(0x27, 2, 0, a, b, k);
    lemma_words(0x27, 3, 0, a, b, k);
    let i = s_format(0x27, 2, a, b, imm);
    let j = s_format(0x27, 3, a, b, imm);
    lemma_dispatch_store_fp(c, i);
    lemma_dispatch_store_fp(c, j);
    assert(imm_s(i) == wrap(imm) && imm_s(j) == wrap(imm));
    assert(reg(c, a).wrapping_add(wrap(imm)) == wrap(reg(c, a) + imm));
    lemma_float_bits(0, c.f_regs[b as int]);
}

/// FLW and FLD load a floating-point register; a single gets ones above.
#[verifier::rlimit(60)]
pub proof fn law_float_loads(c: CpuView, d: u32, a: u32, imm: int, other: u16)
    requires
        named(c, d, a, 0),
        short_imm(imm),
    ensures
        ({
            let va = wrap(reg(c, a) + imm);
            let i = i_format(0x07, 2, d, a, imm);
            let j = i_format(0x07, 3, d, a, imm);
            &&& c.load(va, 4).1 matches Ok(v) ==> writes_float(
                c.load(va, 4).0,
                c.exec(i),
                d,
                held(v),
                other,
            )
            &&& c.load(va, 4).1 matches Err(e) ==> c.exec(i) == (
                c.load(va, 4).0,
                Err::<(), (Trap, u64)>(e),
            )
            &&& c.load(va, 8).1 matches Ok(v) ==> writes_float(
                c.load(va, 8).0,
                c.exec(j),
                d,
                v,
                other,
            )
            &&& c.load(va, 8).1 matches Err(e) ==> c.exec(j) == (
                c.load(va, 8).0,
                Err::<(), (Trap, u64)>(e),
            )
        }),
{
    let k = field(imm, 0x1000);
    let va = wrap(reg(c, a) + imm);
    lemma_words(0x07, 2, d, a, 0, k);
    lemma_words(0x07, 3, d, a, 0, k);
    let i = i_format(0x07, 2, d, a, imm);
    let j = i_format(0x07, 3, d, a, imm);
    lemma_dispatch_load_fp(c, i);
    lemma_dispatch_load_fp(c, j);
    assert(imm_i(i) == wrap(imm) && imm_i(j) == wrap(imm));
    assert(reg(c, a).wrapping_add(wrap(imm)) == va);
    crate::cpu::frames::lemma_load_quiet(c, va, 4);
    crate::cpu::frames::lemma_load_quiet(c, va, 8);
    if let (s, Ok(v)) = c.load(va, 4) {
        lemma_float_bits(0, v);
        lemma_write_f(s, d, held(v), other);
    }
    if let (s, Ok(v)) = c.load(va, 8) {
        lemma_write_f(s, d, v, other);
    }
}

} // verus!
