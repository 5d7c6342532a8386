//! What the shifts and the bit-manipulation instructions do to the bits of a register.

#[allow(unused_imports)]
use crate::alu::{
    bit_length, clmul_upto, clmulh_upto, clmulr_upto, law_sra, orc_b_spec, popcount, rev8_spec,
    rol_spec, rolw_spec, ror_spec, rorw_spec, sext, sext32, sra_spec, sraw_spec, trailing_zeros,
    word,
};
#[allow(unused_imports)]
use crate::bytes::{le_bytes, le_value};
#[allow(unused_imports)]
use crate::cpu::base::{left_imm_value, op_imm_value, right_imm_value};
#[allow(unused_imports)]
use crate::cpu::dispatch::same;
#[allow(unused_imports)]
use crate::cpu::formats::{
    field, gives, i_format, named, num, r_format, reg, with_reg, wrap, wrap32,
};
#[allow(unused_imports)]
use crate::cpu::integer_laws::{
    left_in, lemma_op, lemma_op32, lemma_op_imm, lemma_op_imm32, one_for, only_writes, short_imm,
};
#[allow(unused_imports)]
use crate::cpu::CpuView;
#[allow(unused_imports)]
use vstd::arithmetic::div_mod::lemma_add_mod_noop;
use vstd::prelude::*;

verus! {

/// `x` with its sign shifted in `n` times: a plain shift of a number from zero on, and of
/// the complement of any other.
pub open spec fn shifted_signed(x: u64, n: u64) -> u64 {
    if x < 0x8000_0000_0000_0000 {
        x >> n
    } else {
        !(!x >> n)
    }
}

/// `x` turned right by `n` bits.
pub open spec fn turned_right(x: u64, n: int) -> u64 {
    if n == 0 {
        x
    } else {
        (x >> (n as u64)) | (x << ((64 - n) as u64))
    }
}

/// The word `w` turned right by `n` bits.
pub open spec fn word_turned_right(w: u32, n: int) -> u32 {
    if n == 0 {
        w
    } else {
        (w >> (n as u32)) | (w << ((32 - n) as u32))
    }
}

/// A word sign-extended.
pub open spec fn extended(w: u32) -> u64 {
    wrap32(w as int)
}

/// SLL, SRL, SRA, ROL and ROR by the low six bits of the second register; to turn left is
/// to turn right by what is missing to 64.
#[verifier::rlimit(60)]
pub proof fn law_shifts(c: CpuView, d: u32, a: u32, b: u32)
    requires
        named(c, d, a, b),
    ensures
        ({
            let x = reg(c, a);
            let n = reg(c, b) % 64;
            &&& c.exec(r_format(0x33, 1, 0x00, d, a, b)) == gives(c, d, x << n)
            &&& c.exec(r_format(0x33, 5, 0x00, d, a, b)) == gives(c, d, x >> n)
            &&& c.exec(r_format(0x33, 5, 0x20, d, a, b)) == gives(c, d, shifted_signed(x, n))
            &&& c.exec(r_format(0x33, 1, 0x30, d, a, b)) == gives(
                c,
                d,
                turned_right(x, (64 - n) % 64),
            )
            &&& c.exec(r_format(0x33, 5, 0x30, d, a, b)) == gives(c, d, turned_right(x, n as int))
        }),
{
    let x = reg(c, a);
    let n = reg(c, b) % 64;
    law_sra(x, n);
    lemma_or(x << n, x >> ((64 - n) as u64), 0, 0);
    lemma_op(c, 1, 0x00, d, a, b);
    lemma_op(c, 5, 0x00, d, a, b);
    lemma_op(c, 5, 0x20, d, a, b);
    lemma_op(c, 1, 0x30, d, a, b);
    lemma_op(c, 5, 0x30, d, a, b);
}

/// Either order of the operands.
proof fn lemma_or(x: u64, y: u64, w: u32, v: u32)
    ensures
        x | y == y | x,
        w | v == v | w,
{
    assert(x | y == y | x && w | v == v | w) by (bit_vector);
}

/// SLLI, SRLI and SRAI by an amount of six bits, and RORI by one of five.
#[verifier::rlimit(60)]
pub proof fn law_immediate_shifts(c: CpuView, d: u32, a: u32, n: int)
    requires
        named(c, d, a, 0),
        0 <= n < 64,
    ensures
        ({
            let x = reg(c, a);
            &&& c.exec(i_format(0x13, 1, d, a, n)) == gives(c, d, x << (n as u64))
            &&& c.exec(i_format(0x13, 5, d, a, n)) == gives(c, d, x >> (n as u64))
            &&& c.exec(i_format(0x13, 5, d, a, 0x400 + n)) == gives(
                c,
                d,
                shifted_signed(x, n as u64),
            )
            &&& n < 32 ==> c.exec(i_format(0x13, 5, d, a, 0x600 + n)) == gives(
                c,
                d,
                turned_right(x, n),
            )
        }),
{
    law_sra(reg(c, a), n as u64);
    lemma_op_imm(c, 1, d, a, n);
    lemma_op_imm(c, 5, d, a, n);
    lemma_op_imm(c, 5, d, a, 0x400 + n);
    lemma_op_imm(c, 5, d, a, 0x600 + n);
}

/// SLLW, SRLW, SRAW, ROLW and RORW on the low word, by five bits, sign-extended.
#[verifier::rlimit(60)]
pub proof fn law_word_shifts(c: CpuView, d: u32, a: u32, b: u32)
    requires
        named(c, d, a, b),
    ensures
        ({
            let w = (reg(c, a) % 0x1_0000_0000) as u32;
            let k = (reg(c, b) % 32) as u32;
            &&& c.exec(r_format(0x3B, 1, 0x00, d, a, b)) == gives(c, d, extended(w << k))
            &&& c.exec(r_format(0x3B, 5, 0x00, d, a, b)) == gives(c, d, extended(w >> k))
            &&& c.exec(r_format(0x3B, 5, 0x20, d, a, b)) == gives(
                c,
                d,
                extended(((w as i32) >> k) as u32),
            )
            &&& c.exec(r_format(0x3B, 1, 0x30, d, a, b)) == gives(
                c,
                d,
                extended(word_turned_right(w, (32 - k) % 32)),
            )
            &&& c.exec(r_format(0x3B, 5, 0x30, d, a, b)) == gives(
                c,
                d,
                extended(word_turned_right(w, k as int)),
            )
        }),
{
    let w = (reg(c, a) % 0x1_0000_0000) as u32;
    let k = (reg(c, b) % 32) as u32;
    assert(word(reg(c, b)) % 32 == k);
    lemma_or(0, 0, w << k, w >> ((32 - k) as u32));
    lemma_op32(c, 1, 0x00, d, a, b);
    lemma_op32(c, 5, 0x00, d, a, b);
    lemma_op32(c, 5, 0x20, d, a, b);
    lemma_op32(c, 1, 0x30, d, a, b);
    lemma_op32(c, 5, 0x30, d, a, b);
}

/// SLLIW, SRLIW and SRAIW; SLLI.UW.
#[verifier::rlimit(60)]
pub proof fn law_word_immediate_shifts(c: CpuView, d: u32, a: u32, n: int)
    requires
        named(c, d, a, 0),
        0 <= n < 32,
    ensures
        ({
            let w = (reg(c, a) % 0x1_0000_0000) as u32;
            let k = n as u32;
            &&& c.exec(i_format(0x1B, 1, d, a, n)) == gives(c, d, extended(w << k))
            &&& c.exec(i_format(0x1B, 5, d, a, n)) == gives(c, d, extended(w >> k))
            &&& c.exec(i_format(0x1B, 5, d, a, 0x400 + n)) == gives(
                c,
                d,
                extended(((w as i32) >> k) as u32),
            )
            &&& c.exec(i_format(0x1B, 1, d, a, 0x80 + n)) == gives(c, d, (w as u64) << (n as u64))
        }),
{
    lemma_op_imm32(c, 1, d, a, n);
    lemma_op_imm32(c, 5, d, a, n);
    lemma_op_imm32(c, 5, d, a, 0x400 + n);
    lemma_op_imm32(c, 1, d, a, 0x80 + n);
    assert(word(wrap(n)) % 32 == n);
    assert(word(wrap(0x400 + n)) % 32 == n);
}

/// BCLR, BINV, BSET and BEXT clear, invert, set and extract the bit that the second
/// register numbers; the immediate forms do so for the bits below 32.
#[verifier::rlimit(60)]
pub proof fn law_single_bits(c: CpuView, d: u32, a: u32, b: u32, n: int)
    requires
        named(c, d, a, b),
        0 <= n < 32,
    ensures
        ({
            let x = reg(c, a);
            let k = reg(c, b) % 64;
            let m = n as u64;
            &&& c.exec(r_format(0x33, 1, 0x24, d, a, b)) == gives(c, d, x & !(1u64 << k))
            &&& c.exec(r_format(0x33, 1, 0x34, d, a, b)) == gives(c, d, x ^ (1u64 << k))
            &&& c.exec(r_format(0x33, 1, 0x14, d, a, b)) == gives(c, d, x | (1u64 << k))
            &&& c.exec(r_format(0x33, 5, 0x24, d, a, b)) == gives(c, d, (x >> k) & 1)
            &&& c.exec(i_format(0x13, 1, d, a, 0x480 + n)) == gives(c, d, x & !(1u64 << m))
            &&& c.exec(i_format(0x13, 1, d, a, 0x680 + n)) == gives(c, d, x ^ (1u64 << m))
            &&& c.exec(i_format(0x13, 1, d, a, 0x280 + n)) == gives(c, d, x | (1u64 << m))
            &&& c.exec(i_format(0x13, 5, d, a, 0x480 + n)) == gives(c, d, (x >> m) & 1)
        }),
{
    lemma_op(c, 1, 0x24, d, a, b);
    lemma_op(c, 1, 0x34, d, a, b);
    lemma_op(c, 1, 0x14, d, a, b);
    lemma_op(c, 5, 0x24, d, a, b);
    lemma_op_imm(c, 1, d, a, 0x480 + n);
    lemma_op_imm(c, 1, d, a, 0x680 + n);
    lemma_op_imm(c, 1, d, a, 0x280 + n);
    lemma_op_imm(c, 5, d, a, 0x480 + n);
}

/// ANDN, ORN and XNOR; MIN, MAX, MINU and MAXU; SH1ADD, SH2ADD and SH3ADD; SEXT.B and
/// SEXT.H.
#[verifier::rlimit(60)]
pub proof fn law_bit_arithmetic(c: CpuView, d: u32, a: u32, b: u32)
    requires
        named(c, d, a, b),
    ensures
        ({
            let x = reg(c, a);
            let y = reg(c, b);
            let p = if num(x) < num(y) {
                (x, y)
            } else {
                (y, x)
            };
            let q = if x < y {
                (x, y)
            } else {
                (y, x)
            };
            &&& c.exec(r_format(0x33, 7, 0x20, d, a, b)) == gives(c, d, x & !y)
            &&& c.exec(r_format(0x33, 6, 0x20, d, a, b)) == gives(c, d, x | !y)
            &&& c.exec(r_format(0x33, 4, 0x20, d, a, b)) == gives(c, d, !x ^ y)
            &&& c.exec(r_format(0x33, 4, 0x05, d, a, b)) == gives(c, d, p.0)
            &&& c.exec(r_format(0x33, 6, 0x05, d, a, b)) == gives(c, d, p.1)
            &&& c.exec(r_format(0x33, 5, 0x05, d, a, b)) == gives(c, d, q.0)
            &&& c.exec(r_format(0x33, 7, 0x05, d, a, b)) == gives(c, d, q.1)
        }),
{
    lemma_op(c, 7, 0x20, d, a, b);
    lemma_op(c, 6, 0x20, d, a, b);
    lemma_op(c, 4, 0x20, d, a, b);
    lemma_op(c, 4, 0x05, d, a, b);
    lemma_op(c, 6, 0x05, d, a, b);
    lemma_op(c, 5, 0x05, d, a, b);
    lemma_op(c, 7, 0x05, d, a, b);
}

/// Twice, four times and eight times a number.
#[verifier::rlimit(60)]
proof fn lemma_scaled(x: u64, y: u64)
    ensures
        (x << 1u64).wrapping_add(y) == wrap(2 * x + y),
        (x << 2u64).wrapping_add(y) == wrap(4 * x + y),
        (x << 3u64).wrapping_add(y) == wrap(8 * x + y),
{
    let m = 0x1_0000_0000_0000_0000int;
    let (p, q, r) = (x << 1u64, x << 2u64, x << 3u64);
    assert(p == (2 * x) % 0x1_0000_0000_0000_0000 && q == (4 * x) % 0x1_0000_0000_0000_0000 && r
        == (8 * x) % 0x1_0000_0000_0000_0000) by (bit_vector)
        requires
            p == x << 1u64,
            q == x << 2u64,
            r == x << 3u64,
    ;
    lemma_add_mod_noop(2 * x, y as int, m);
    lemma_add_mod_noop(4 * x, y as int, m);
    lemma_add_mod_noop(8 * x, y as int, m);
    assert(p.wrapping_add(y) == (p + y) % m);
    assert(q.wrapping_add(y) == (q + y) % m);
    assert(r.wrapping_add(y) == (r + y) % m);
}

/// SH1ADD, SH2ADD and SH3ADD, and the same of the low word; ADD.UW.
#[verifier::rlimit(60)]
pub proof fn law_scaled_additions(c: CpuView, d: u32, a: u32, b: u32)
    requires
        named(c, d, a, b),
    ensures
        ({
            let x = reg(c, a);
            let y = reg(c, b);
            let w = x as int % 0x1_0000_0000;
            &&& c.exec(r_format(0x33, 2, 0x10, d, a, b)) == gives(c, d, wrap(2 * x + y))
            &&& c.exec(r_format(0x33, 4, 0x10, d, a, b)) == gives(c, d, wrap(4 * x + y))
            &&& c.exec(r_format(0x33, 6, 0x10, d, a, b)) == gives(c, d, wrap(8 * x + y))
            &&& c.exec(r_format(0x3B, 0, 0x04, d, a, b)) == gives(c, d, wrap(w + y))
            &&& c.exec(r_format(0x3B, 2, 0x10, d, a, b)) == gives(c, d, wrap(2 * w + y))
            &&& c.exec(r_format(0x3B, 4, 0x10, d, a, b)) == gives(c, d, wrap(4 * w + y))
            &&& c.exec(r_format(0x3B, 6, 0x10, d, a, b)) == gives(c, d, wrap(8 * w + y))
        }),
{
    lemma_scaled(reg(c, a), reg(c, b));
    lemma_scaled(word(reg(c, a)) as u64, reg(c, b));
    lemma_op(c, 2, 0x10, d, a, b);
    lemma_op(c, 4, 0x10, d, a, b);
    lemma_op(c, 6, 0x10, d, a, b);
    lemma_op32(c, 0, 0x04, d, a, b);
    lemma_op32(c, 2, 0x10, d, a, b);
    lemma_op32(c, 4, 0x10, d, a, b);
    lemma_op32(c, 6, 0x10, d, a, b);
}

/// SEXT.B and SEXT.H.
#[verifier::rlimit(60)]
pub proof fn law_sign_extensions(c: CpuView, d: u32, a: u32)
    requires
        named(c, d, a, 0),
    ensures
        ({
            let b = reg(c, a) as int % 0x100;
            let h = reg(c, a) as int % 0x1_0000;
            &&& c.exec(i_format(0x13, 1, d, a, 0x604)) == gives(
                c,
                d,
                wrap(
                    if b < 0x80 {
                        b
                    } else {
                        b - 0x100
                    },
                ),
            )
            &&& c.exec(i_format(0x13, 1, d, a, 0x605)) == gives(
                c,
                d,
                wrap(
                    if h < 0x8000 {
                        h
                    } else {
                        h - 0x1_0000
                    },
                ),
            )
        }),
{
    lemma_op_imm(c, 1, d, a, 0x604);
    lemma_op_imm(c, 1, d, a, 0x605);
}

} // verus!
