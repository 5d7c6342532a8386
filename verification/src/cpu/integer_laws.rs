//! What the integer instructions do, instruction by instruction, in terms of the numbers
//! in the registers.

#[allow(unused_imports)]
use crate::alu::{
    divw_spec, law_div_rem, remw_spec, sext, sext32, signed, signed32, to64, word,
};
#[allow(unused_imports)]
use crate::cpu::base::{branch_taken, op32_value, op_imm32_value, op_imm_value, op_value};
#[allow(unused_imports)]
use crate::cpu::decode::{
    funct3, funct7, imm12, imm_b, imm_i, imm_j, imm_s, imm_u, rd, rs1, rs2,
};
#[allow(unused_imports)]
use crate::cpu::dispatch::{
    lemma_dispatch_auipc, lemma_dispatch_branch, lemma_dispatch_jal, lemma_dispatch_jalr,
    lemma_dispatch_load, lemma_dispatch_lui, lemma_dispatch_op, lemma_dispatch_op32,
    lemma_dispatch_op_imm, lemma_dispatch_op_imm32, lemma_dispatch_store, same,
};
#[allow(unused_imports)]
use crate::cpu::formats::{
    b_format, b_word, field, gives, i_format, i_word, j_format, j_word, lemma_r_format, lemma_words,
    low_num, named, num, r_format, reg, s_format, s_word, u_format, u_word, with_reg, wrap, wrap32,
};
#[allow(unused_imports)]
use crate::cpu::{CpuView, Outcome};
#[allow(unused_imports)]
use crate::trap::Trap;
use vstd::prelude::*;

verus! {

/// One for what holds, else zero.
pub open spec fn one_for(h: bool) -> u64 {
    if h {
        1
    } else {
        0
    }
}

/// An immediate of twelve bits.
pub open spec fn short_imm(imm: int) -> bool {
    -0x800 <= imm < 0x800
}

/// A register-register instruction gives what its group says.
#[verifier::rlimit(60)]
pub(crate) proof fn lemma_op(c: CpuView, f3: u32, f7: u32, d: u32, a: u32, b: u32)
    requires
        named(c, d, a, b),
        f3 < 8,
        f7 < 128,
    ensures
        ({
            let inst = r_format(0x33, f3, f7, d, a, b);
            &&& funct3(inst) == f3
            &&& funct7(inst) == f7
            &&& op_value(inst, reg(c, a), reg(c, b)) matches Some(v) ==> same(
                c.exec(inst),
                gives(c, d, v),
            )
        }),
{
    lemma_r_format(0x33, f3, f7, d, a, b);
    lemma_dispatch_op(c, r_format(0x33, f3, f7, d, a, b));
}

/// So does one on 32-bit values.
#[verifier::rlimit(60)]
pub(crate) proof fn lemma_op32(c: CpuView, f3: u32, f7: u32, d: u32, a: u32, b: u32)
    requires
        named(c, d, a, b),
        f3 < 8,
        f7 < 128,
    ensures
        ({
            let inst = r_format(0x3B, f3, f7, d, a, b);
            &&& funct3(inst) == f3
            &&& funct7(inst) == f7
            &&& op32_value(inst, reg(c, a), reg(c, b)) matches Some(v) ==> same(
                c.exec(inst),
                gives(c, d, v),
            )
        }),
{
    lemma_r_format(0x3B, f3, f7, d, a, b);
    lemma_dispatch_op32(c, r_format(0x3B, f3, f7, d, a, b));
}

/// A register-immediate instruction gives what its group says.
#[verifier::rlimit(60)]
pub(crate) proof fn lemma_op_imm(c: CpuView, f3: u32, d: u32, a: u32, imm: int)
    requires
        named(c, d, a, 0),
        f3 < 8,
        short_imm(imm),
    ensures
        ({
            let inst = i_format(0x13, f3, d, a, imm);
            let k = field(imm, 0x1000);
            &&& funct3(inst) == f3
            &&& imm12(inst) == k
            &&& funct7(inst) == k / 32
            &&& inst / 0x4000_0000 % 2 == k / 1024 % 2
            &&& imm_i(inst) == wrap(imm)
            &&& same(c.exec(inst), gives(c, d, op_imm_value(inst, reg(c, a))))
        }),
{
    lemma_words(0x13, f3, d, a, 0, field(imm, 0x1000));
    lemma_dispatch_op_imm(c, i_format(0x13, f3, d, a, imm));
}

/// So does one on 32-bit values.
#[verifier::rlimit(60)]
pub(crate) proof fn lemma_op_imm32(c: CpuView, f3: u32, d: u32, a: u32, imm: int)
    requires
        named(c, d, a, 0),
        f3 < 8,
        short_imm(imm),
    ensures
        ({
            let inst = i_format(0x1B, f3, d, a, imm);
            let k = field(imm, 0x1000);
            &&& funct3(inst) == f3
            &&& imm12(inst) == k
            &&& funct7(inst) == k / 32
            &&& inst / 0x4000_0000 % 2 == k / 1024 % 2
            &&& imm_i(inst) == wrap(imm)
            &&& op_imm32_value(inst, reg(c, a)) matches Some(v) ==> same(
                c.exec(inst),
                gives(c, d, v),
            )
        }),
{
    lemma_words(0x1B, f3, d, a, 0, field(imm, 0x1000));
    lemma_dispatch_op_imm32(c, i_format(0x1B, f3, d, a, imm));
}

/// ADD, SUB, SLT, SLTU, XOR, OR and AND of two registers.
#[verifier::rlimit(60)]
pub proof fn law_register_arithmetic(c: CpuView, d: u32, a: u32, b: u32)
    requires
        named(c, d, a, b),
    ensures
        ({
            let x = reg(c, a);
            let y = reg(c, b);
            &&& c.exec(r_format(0x33, 0, 0x00, d, a, b)) == gives(c, d, wrap(x + y))
            &&& c.exec(r_format(0x33, 0, 0x20, d, a, b)) == gives(c, d, wrap(x - y))
            &&& c.exec(r_format(0x33, 2, 0x00, d, a, b)) == gives(c, d, one_for(num(x) < num(y)))
            &&& c.exec(r_format(0x33, 3, 0x00, d, a, b)) == gives(c, d, one_for(x < y))
            &&& c.exec(r_format(0x33, 4, 0x00, d, a, b)) == gives(c, d, x ^ y)
            &&& c.exec(r_format(0x33, 6, 0x00, d, a, b)) == gives(c, d, x | y)
            &&& c.exec(r_format(0x33, 7, 0x00, d, a, b)) == gives(c, d, x & y)
        }),
{
    lemma_op(c, 0, 0x00, d, a, b);
    lemma_op(c, 0, 0x20, d, a, b);
    lemma_op(c, 2, 0x00, d, a, b);
    lemma_op(c, 3, 0x00, d, a, b);
    lemma_op(c, 4, 0x00, d, a, b);
    lemma_op(c, 6, 0x00, d, a, b);
    lemma_op(c, 7, 0x00, d, a, b);
}

/// ADDI, SLTI, SLTIU, XORI, ORI and ANDI: the immediate is sign-extended.
#[verifier::rlimit(60)]
pub proof fn law_immediate_arithmetic(c: CpuView, d: u32, a: u32, imm: int)
    requires
        named(c, d, a, 0),
        short_imm(imm),
    ensures
        ({
            let x = reg(c, a);
            let y = wrap(imm);
            &&& c.exec(i_format(0x13, 0, d, a, imm)) == gives(c, d, wrap(x + imm))
            &&& c.exec(i_format(0x13, 2, d, a, imm)) == gives(c, d, one_for(num(x) < imm))
            &&& c.exec(i_format(0x13, 3, d, a, imm)) == gives(c, d, one_for(x < y))
            &&& c.exec(i_format(0x13, 4, d, a, imm)) == gives(c, d, x ^ y)
            &&& c.exec(i_format(0x13, 6, d, a, imm)) == gives(c, d, x | y)
            &&& c.exec(i_format(0x13, 7, d, a, imm)) == gives(c, d, x & y)
        }),
{
    lemma_op_imm(c, 0, d, a, imm);
    lemma_op_imm(c, 2, d, a, imm);
    lemma_op_imm(c, 3, d, a, imm);
    lemma_op_imm(c, 4, d, a, imm);
    lemma_op_imm(c, 6, d, a, imm);
    lemma_op_imm(c, 7, d, a, imm);
}

/// 32-bit results as numbers.
#[verifier::rlimit(60)]
pub(crate) proof fn lemma_numbers32(x: u64, y: u64)
    ensures
        sext32(word(x).wrapping_add(word(y))) == wrap32(x + y),
        sext32(word(x).wrapping_sub(word(y))) == wrap32(x - y),
        sext32(word(x).wrapping_mul(word(y))) == wrap32(x * y),
        sext32(word(x)) == wrap32(x as int),
{
    vstd::arithmetic::div_mod::lemma_mul_mod_noop(x as int, y as int, 0x1_0000_0000);
    let p = (x as int % 0x1_0000_0000) * (y as int % 0x1_0000_0000);
    assert(p >= 0) by (nonlinear_arith)
        requires
            p == (x as int % 0x1_0000_0000) * (y as int % 0x1_0000_0000),
            x >= 0,
            y >= 0,
    ;
    assert(word(x) * word(y) == p);
}

/// An immediate added to 32 bits.
#[verifier::rlimit(60)]
proof fn lemma_immediate32(x: u64, imm: int)
    requires
        short_imm(imm),
    ensures
        wrap32(x + wrap(imm)) == wrap32(x + imm),
{
}

/// ADDW, SUBW, MULW and ADDIW: 32 bits of the result, sign-extended.
#[verifier::rlimit(60)]
pub proof fn law_word_arithmetic(c: CpuView, d: u32, a: u32, b: u32, imm: int)
    requires
        named(c, d, a, b),
        short_imm(imm),
    ensures
        ({
            let x = reg(c, a);
            let y = reg(c, b);
            &&& c.exec(r_format(0x3B, 0, 0x00, d, a, b)) == gives(c, d, wrap32(x + y))
            &&& c.exec(r_format(0x3B, 0, 0x20, d, a, b)) == gives(c, d, wrap32(x - y))
            &&& c.exec(r_format(0x3B, 0, 0x01, d, a, b)) == gives(c, d, wrap32(x * y))
            &&& c.exec(i_format(0x1B, 0, d, a, imm)) == gives(c, d, wrap32(x + imm))
        }),
{
    lemma_op32(c, 0, 0x00, d, a, b);
    lemma_op32(c, 0, 0x20, d, a, b);
    lemma_op32(c, 0, 0x01, d, a, b);
    lemma_op_imm32(c, 0, d, a, imm);
    lemma_numbers32(reg(c, a), reg(c, b));
    lemma_numbers32(reg(c, a), wrap(imm));
    lemma_immediate32(reg(c, a), imm);
}

/// MUL gives the low half of the product, MULH, MULHSU and MULHU the high half of the
/// product of two signed, a signed and an unsigned, and two unsigned numbers.
#[verifier::rlimit(60)]
pub proof fn law_multiplication(c: CpuView, d: u32, a: u32, b: u32)
    requires
        named(c, d, a, b),
    ensures
        ({
            let x = reg(c, a);
            let y = reg(c, b);
            let m = 0x1_0000_0000_0000_0000int;
            &&& c.exec(r_format(0x33, 0, 0x01, d, a, b)) == gives(c, d, wrap(x * y))
            &&& c.exec(r_format(0x33, 1, 0x01, d, a, b)) == gives(c, d, wrap(num(x) * num(y) / m))
            &&& c.exec(r_format(0x33, 2, 0x01, d, a, b)) == gives(c, d, wrap(num(x) * y / m))
            &&& c.exec(r_format(0x33, 3, 0x01, d, a, b)) == gives(c, d, wrap(x * y / m))
        }),
{
    lemma_op(c, 0, 0x01, d, a, b);
    lemma_op(c, 1, 0x01, d, a, b);
    lemma_op(c, 2, 0x01, d, a, b);
    lemma_op(c, 3, 0x01, d, a, b);
}

/// What an instruction leaves in register `d`.
pub open spec fn left_in(c: CpuView, inst: u32, d: u32) -> u64 {
    reg(c.exec(inst).0, d)
}

/// An instruction writes register `d`, goes on behind itself and does nothing else.
pub open spec fn only_writes(c: CpuView, inst: u32, d: u32) -> bool {
    c.exec(inst) == gives(c, d, left_in(c, inst, d))
}

/// DIV and REM belong together: dividend = quotient * divisor + remainder, the remainder
/// is smaller than the divisor and has the sign of the dividend. A division by zero gives
/// -1 and the dividend, and -2^63 / -1 wraps and leaves nothing.
#[verifier::rlimit(60)]
pub proof fn law_division(c: CpuView, d: u32, a: u32, b: u32)
    requires
        named(c, d, a, b),
        d != 0,
    ensures
        ({
            let div = r_format(0x33, 4, 0x01, d, a, b);
            let rem = r_format(0x33, 6, 0x01, d, a, b);
            let x = num(reg(c, a));
            let y = num(reg(c, b));
            let q = num(left_in(c, div, d));
            let r = num(left_in(c, rem, d));
            &&& only_writes(c, div, d)
            &&& only_writes(c, rem, d)
            &&& y == 0 ==> q == -1 && r == x
            &&& x == -0x8000_0000_0000_0000 && y == -1 ==> q == x && r == 0
            &&& y != 0 && !(x == -0x8000_0000_0000_0000 && y == -1) ==> {
                &&& x == q * y + r
                &&& -r < y < r || -r > y > r ==> false
                &&& (if r < 0 {
                    -r
                } else {
                    r
                }) < (if y < 0 {
                    -y
                } else {
                    y
                })
                &&& r == 0 || (r < 0) == (x < 0)
            }
        }),
{
    lemma_op(c, 4, 0x01, d, a, b);
    lemma_op(c, 6, 0x01, d, a, b);
    let x = reg(c, a);
    let y = reg(c, b);
    if y != 0 && !(num(x) == -0x8000_0000_0000_0000 && num(y) == -1) {
        law_div_rem(x, y);
    }
}

/// DIVU and REMU; a division by zero gives all ones and the dividend.
#[verifier::rlimit(60)]
pub proof fn law_unsigned_division(c: CpuView, d: u32, a: u32, b: u32)
    requires
        named(c, d, a, b),
    ensures
        ({
            let x = reg(c, a);
            let y = reg(c, b);
            let w = x as int % 0x1_0000_0000;
            let v = y as int % 0x1_0000_0000;
            &&& c.exec(r_format(0x33, 5, 0x01, d, a, b)) == gives(
                c,
                d,
                if y == 0 {
                    wrap(-1)
                } else {
                    wrap(x as int / y as int)
                },
            )
            &&& c.exec(r_format(0x33, 7, 0x01, d, a, b)) == gives(
                c,
                d,
                if y == 0 {
                    x
                } else {
                    wrap(x as int % y as int)
                },
            )
            &&& c.exec(r_format(0x3B, 5, 0x01, d, a, b)) == gives(
                c,
                d,
                if v == 0 {
                    wrap(-1)
                } else {
                    wrap32(w / v)
                },
            )
            &&& c.exec(r_format(0x3B, 7, 0x01, d, a, b)) == gives(
                c,
                d,
                if v == 0 {
                    wrap32(w)
                } else {
                    wrap32(w % v)
                },
            )
        }),
{
    lemma_op(c, 5, 0x01, d, a, b);
    lemma_op(c, 7, 0x01, d, a, b);
    lemma_op32(c, 5, 0x01, d, a, b);
    lemma_op32(c, 7, 0x01, d, a, b);
    let x = reg(c, a) as int;
    let y = reg(c, b) as int;
    let w = x % 0x1_0000_0000;
    let v = y % 0x1_0000_0000;
    assert(y > 0 ==> 0 <= x / y <= x && 0 <= x % y < y) by (nonlinear_arith)
        requires
            x >= 0,
    ;
    assert(v > 0 ==> 0 <= w / v <= w && 0 <= w % v < v) by (nonlinear_arith)
        requires
            w >= 0,
    ;
}

/// LUI and AUIPC: the immediate stands for a multiple of 4096, relative to zero or to the
/// program counter.
#[verifier::rlimit(60)]
pub proof fn law_upper_immediates(c: CpuView, d: u32, imm: int)
    requires
        named(c, d, 0, 0),
        -0x8_0000 <= imm < 0x8_0000,
    ensures
        c.exec(u_format(0x37, d, imm)) == gives(c, d, wrap(imm * 4096)),
        c.exec(u_format(0x17, d, imm)) == gives(c, d, wrap(c.pc + imm * 4096)),
{
    lemma_words(0x37, 0, d, 0, 0, field(imm, 0x10_0000));
    lemma_words(0x17, 0, d, 0, 0, field(imm, 0x10_0000));
    lemma_dispatch_lui(c, u_format(0x37, d, imm));
    lemma_dispatch_auipc(c, u_format(0x17, d, imm));
}

/// JAL jumps relative to itself, JALR relative to a register and to an even address. Both
/// leave the address behind themselves in the destination register.
#[verifier::rlimit(60)]
pub proof fn law_jumps(c: CpuView, d: u32, a: u32, far: int, near: int)
    requires
        named(c, d, a, 0),
        -0x10_0000 <= far < 0x10_0000,
        far % 2 == 0,
        short_imm(near),
    ensures
        c.exec(j_format(d, far)) == (
            with_reg(c, d, wrap(c.pc + 4), wrap(c.pc + far)),
            Ok::<(), (Trap, u64)>(()),
        ),
        ({
            let t = wrap(reg(c, a) + near);
            c.exec(i_format(0x67, 0, d, a, near)) == (
                with_reg(
                    c,
                    d,
                    wrap(c.pc + 4),
                    if t % 2 == 1 {
                        (t - 1) as u64
                    } else {
                        t
                    },
                ),
                Ok::<(), (Trap, u64)>(()),
            )
        }),
{
    lemma_jal(c, d, far);
    lemma_jalr(c, d, a, near);
}

/// JAL.
#[verifier::rlimit(60)]
proof fn lemma_jal(c: CpuView, d: u32, far: int)
    requires
        named(c, d, 0, 0),
        -0x10_0000 <= far < 0x10_0000,
        far % 2 == 0,
    ensures
        same(
            c.exec(j_format(d, far)),
            (with_reg(c, d, wrap(c.pc + 4), wrap(c.pc + far)), Ok::<(), (Trap, u64)>(())),
        ),
{
    let k = field(far, 0x20_0000);
    let inst = j_format(d, far);
    lemma_words(0x6F, 0, d, 0, 0, k);
    lemma_dispatch_jal(c, inst);
    assert(imm_j(inst) == wrap(far));
    assert(c.pc.wrapping_add(imm_j(inst)) == wrap(c.pc + far));
}

/// JALR.
#[verifier::rlimit(60)]
proof fn lemma_jalr(c: CpuView, d: u32, a: u32, near: int)
    requires
        named(c, d, a, 0),
        short_imm(near),
    ensures
        ({
            let t = wrap(reg(c, a) + near);
            same(
                c.exec(i_format(0x67, 0, d, a, near)),
                (
                    with_reg(c, d, wrap(c.pc + 4), (t - t % 2) as u64),
                    Ok::<(), (Trap, u64)>(()),
                ),
            )
        }),
{
    let inst = i_format(0x67, 0, d, a, near);
    lemma_words(0x67, 0, d, a, 0, field(near, 0x1000));
    lemma_dispatch_jalr(c, inst);
    assert(imm_i(inst) == wrap(near));
    assert(reg(c, a).wrapping_add(imm_i(inst)) == wrap(reg(c, a) + near));
}

/// The hart goes on at `pc` and nothing else changes.
pub open spec fn goes_to(c: CpuView, pc: u64) -> Outcome {
    (CpuView { pc, ..c }, Ok(()))
}

/// A branch goes `imm` bytes from itself if its condition holds, and else on behind
/// itself.
pub open spec fn branches(c: CpuView, holds: bool, imm: int) -> Outcome {
    goes_to(
        c,
        if holds {
            wrap(c.pc + imm)
        } else {
            wrap(c.pc + 4)
        },
    )
}

/// BEQ, BNE, BLT, BGE, BLTU and BGEU.
#[verifier::rlimit(60)]
pub proof fn law_branches(c: CpuView, a: u32, b: u32, imm: int)
    requires
        named(c, 0, a, b),
        -0x1000 <= imm < 0x1000,
        imm % 2 == 0,
    ensures
        ({
            let x = reg(c, a);
            let y = reg(c, b);
            &&& c.exec(b_format(0, a, b, imm)) == branches(c, x == y, imm)
            &&& c.exec(b_format(1, a, b, imm)) == branches(c, x != y, imm)
            &&& c.exec(b_format(4, a, b, imm)) == branches(c, num(x) < num(y), imm)
            &&& c.exec(b_format(5, a, b, imm)) == branches(c, num(x) >= num(y), imm)
            &&& c.exec(b_format(6, a, b, imm)) == branches(c, x < y, imm)
            &&& c.exec(b_format(7, a, b, imm)) == branches(c, x >= y, imm)
        }),
{
    lemma_branch(c, 0, a, b, imm);
    lemma_branch(c, 1, a, b, imm);
    lemma_branch(c, 4, a, b, imm);
    lemma_branch(c, 5, a, b, imm);
    lemma_branch(c, 6, a, b, imm);
    lemma_branch(c, 7, a, b, imm);
}

/// One branch.
#[verifier::rlimit(60)]
proof fn lemma_branch(c: CpuView, f3: u32, a: u32, b: u32, imm: int)
    requires
        named(c, 0, a, b),
        f3 < 8,
        -0x1000 <= imm < 0x1000,
        imm % 2 == 0,
    ensures
        branch_taken(f3, reg(c, a), reg(c, b)) matches Some(h) ==> same(
            c.exec(b_format(f3, a, b, imm)),
            branches(c, h, imm),
        ),
{
    lemma_words(0x63, f3, 0, a, b, field(imm, 0x2000));
    lemma_dispatch_branch(c, b_format(f3, a, b, imm));
}

/// A load of `size` bytes into register `d`: the value loaded, as a signed number if
/// `signed`, or the trap of the load.
pub open spec fn loads(c: CpuView, d: u32, va: u64, size: u64, signed: bool) -> Outcome {
    match c.load(va, size) {
        (s, Err(e)) => (s, Err(e)),
        (s, Ok(v)) => gives(
            s,
            d,
            if !signed {
                v
            } else if size == 1 {
                wrap(
                    if v % 0x100 < 0x80 {
                        v as int % 0x100
                    } else {
                        v as int % 0x100 - 0x100
                    },
                )
            } else if size == 2 {
                wrap(
                    if v % 0x1_0000 < 0x8000 {
                        v as int % 0x1_0000
                    } else {
                        v as int % 0x1_0000 - 0x1_0000
                    },
                )
            } else if size == 4 {
                wrap(low_num(v))
            } else {
                v
            },
        ),
    }
}

/// One load.
#[verifier::rlimit(60)]
proof fn lemma_load(c: CpuView, f3: u32, d: u32, a: u32, imm: int)
    requires
        named(c, d, a, 0),
        f3 < 7,
        short_imm(imm),
    ensures
        ({
            let va = wrap(reg(c, a) + imm);
            let size: u64 = if f3 % 4 == 0 {
                1
            } else if f3 % 4 == 1 {
                2
            } else if f3 % 4 == 2 {
                4
            } else {
                8
            };
            same(c.exec(i_format(0x03, f3, d, a, imm)), loads(c, d, va, size, f3 < 4))
        }),
{
    let inst = i_format(0x03, f3, d, a, imm);
    lemma_words(0x03, f3, d, a, 0, field(imm, 0x1000));
    lemma_dispatch_load(c, inst);
    let va = wrap(reg(c, a) + imm);
    assert(imm_i(inst) == wrap(imm));
    assert(reg(c, a).wrapping_add(imm_i(inst)) == va);
    let size: u64 = if f3 % 4 == 0 {
        1
    } else if f3 % 4 == 1 {
        2
    } else if f3 % 4 == 2 {
        4
    } else {
        8
    };
    let half: u64 = if f3 == 0 {
        0x80
    } else if f3 == 1 {
        0x8000
    } else if f3 == 2 {
        0x8000_0000
    } else {
        0
    };
    assert(same(c.exec(inst), c.load_x(d as int, va, size, half, c.pc.wrapping_add(4))));
    lemma_load_x(c, d, va, size, half);
}

/// Loading into a register.
#[verifier::rlimit(60)]
pub(crate) proof fn lemma_load_x(c: CpuView, d: u32, va: u64, size: u64, half: u64)
    requires
        named(c, d, 0, 0),
        half == 0 || (half == 0x80 && size == 1) || (half == 0x8000 && size == 2) || (half
            == 0x8000_0000 && size == 4),
    ensures
        same(
            c.load_x(d as int, va, size, half, c.pc.wrapping_add(4)),
            loads(c, d, va, size, half != 0),
        ),
        half == 0 && size == 8 ==> loads(c, d, va, size, true) == loads(c, d, va, size, false),
{
    crate::cpu::frames::lemma_load_quiet(c, va, size);
    if let (t, Ok(v)) = c.load(va, size) {
        assert(t.pc == c.pc && t.regs.len() == 32);
        if half == 0x8000_0000 {
            assert(sext((v % 0x1_0000_0000) as u64, half) == wrap(low_num(v)));
        }
    }
}

/// LB, LH, LW, LD, LBU, LHU and LWU load 1, 2, 4 and 8 bytes from the register plus the
/// immediate; the first three sign-extend them.
#[verifier::rlimit(60)]
pub proof fn law_loads(c: CpuView, d: u32, a: u32, imm: int)
    requires
        named(c, d, a, 0),
        short_imm(imm),
    ensures
        ({
            let va = wrap(reg(c, a) + imm);
            &&& c.exec(i_format(0x03, 0, d, a, imm)) == loads(c, d, va, 1, true)
            &&& c.exec(i_format(0x03, 1, d, a, imm)) == loads(c, d, va, 2, true)
            &&& c.exec(i_format(0x03, 2, d, a, imm)) == loads(c, d, va, 4, true)
            &&& c.exec(i_format(0x03, 3, d, a, imm)) == loads(c, d, va, 8, true)
            &&& c.exec(i_format(0x03, 4, d, a, imm)) == loads(c, d, va, 1, false)
            &&& c.exec(i_format(0x03, 5, d, a, imm)) == loads(c, d, va, 2, false)
            &&& c.exec(i_format(0x03, 6, d, a, imm)) == loads(c, d, va, 4, false)
        }),
{
    lemma_load(c, 0, d, a, imm);
    lemma_load(c, 1, d, a, imm);
    lemma_load(c, 2, d, a, imm);
    lemma_load(c, 3, d, a, imm);
    lemma_load(c, 4, d, a, imm);
    lemma_load(c, 5, d, a, imm);
    lemma_load(c, 6, d, a, imm);
}

/// A store of the low `size` bytes of a value: it ends a reservation.
pub open spec fn stores(c: CpuView, va: u64, value: u64, size: u64) -> Outcome {
    match c.store(va, value, size) {
        (s, Err(e)) => (s, Err(e)),
        (s, Ok(())) => goes_to(CpuView { reservation: None, ..s }, wrap(c.pc + 4)),
    }
}

/// SB, SH, SW and SD store the second register at the first plus the immediate.
#[verifier::rlimit(60)]
pub proof fn law_stores(c: CpuView, a: u32, b: u32, imm: int)
    requires
        named(c, 0, a, b),
        short_imm(imm),
    ensures
        ({
            let va = wrap(reg(c, a) + imm);
            let v = reg(c, b);
            &&& c.exec(s_format(0x23, 0, a, b, imm)) == stores(c, va, v, 1)
            &&& c.exec(s_format(0x23, 1, a, b, imm)) == stores(c, va, v, 2)
            &&& c.exec(s_format(0x23, 2, a, b, imm)) == stores(c, va, v, 4)
            &&& c.exec(s_format(0x23, 3, a, b, imm)) == stores(c, va, v, 8)
        }),
{
    lemma_store(c, 0, a, b, imm);
    lemma_store(c, 1, a, b, imm);
    lemma_store(c, 2, a, b, imm);
    lemma_store(c, 3, a, b, imm);
}

/// One store.
#[verifier::rlimit(60)]
proof fn lemma_store(c: CpuView, f3: u32, a: u32, b: u32, imm: int)
    requires
        named(c, 0, a, b),
        f3 < 4,
        short_imm(imm),
    ensures
        ({
            let va = wrap(reg(c, a) + imm);
            let size: u64 = if f3 == 0 {
                1
            } else if f3 == 1 {
                2
            } else if f3 == 2 {
                4
            } else {
                8
            };
            same(c.exec(s_format(0x23, f3, a, b, imm)), stores(c, va, reg(c, b), size))
        }),
{
    lemma_words(0x23, f3, 0, a, b, field(imm, 0x1000));
    let inst = s_format(0x23, f3, a, b, imm);
    lemma_dispatch_store(c, inst);
    assert(imm_s(inst) == wrap(imm));
    assert(reg(c, a).wrapping_add(imm_s(inst)) == wrap(reg(c, a) + imm));
}

} // verus!
