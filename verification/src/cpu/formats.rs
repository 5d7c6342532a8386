//! The instruction formats as an assembler writes them, and what instructions come to
//! in terms of registers and numbers.

use crate::cpu::CpuView;
#[allow(unused_imports)]
use crate::cpu::Outcome;
use vstd::prelude::*;

verus! {

/// The R format: opcode, function codes, destination, first and second source.
pub open spec fn r_format(op: u32, f3: u32, f7: u32, d: u32, a: u32, b: u32) -> u32 {
    op | (d << 7) | (f3 << 12) | (a << 15) | (b << 20) | (f7 << 25)
}

/// `imm` as a field of `n` values: a negative number is written `n` higher.
pub open spec fn field(imm: int, n: int) -> u32 {
    (if imm < 0 {
        imm + n
    } else {
        imm
    }) as u32
}

/// The I format with the field `k` for its twelve-bit immediate.
pub open spec fn i_word(op: u32, f3: u32, d: u32, a: u32, k: u32) -> u32 {
    op | (d << 7) | (f3 << 12) | (a << 15) | (k << 20)
}

/// The S format: the field stands around the sources.
pub open spec fn s_word(op: u32, f3: u32, a: u32, b: u32, k: u32) -> u32 {
    op | ((k & 0x1F) << 7) | (f3 << 12) | (a << 15) | (b << 20) | ((k >> 5) << 25)
}

/// The B format: the field has thirteen bits, the lowest of which is zero.
pub open spec fn b_word(f3: u32, a: u32, b: u32, k: u32) -> u32 {
    0x63 | (((k >> 11) & 1) << 7) | (((k >> 1) & 0xF) << 8) | (f3 << 12) | (a << 15) | (b << 20) | (
    ((k >> 5) & 0x3F) << 25) | ((k >> 12) << 31)
}

/// The U format: the field is the upper twenty bits.
pub open spec fn u_word(op: u32, d: u32, k: u32) -> u32 {
    op | (d << 7) | (k << 12)
}

/// The J format: the field has 21 bits, the lowest of which is zero.
pub open spec fn j_word(d: u32, k: u32) -> u32 {
    0x6F | (d << 7) | (((k >> 12) & 0xFF) << 12) | (((k >> 11) & 1) << 20) | (((k >> 1) & 0x3FF)
        << 21) | ((k >> 20) << 31)
}

/// The I format with an immediate from -2048 to 2047.
pub open spec fn i_format(op: u32, f3: u32, d: u32, a: u32, imm: int) -> u32 {
    i_word(op, f3, d, a, field(imm, 0x1000))
}

/// The S format with an immediate from -2048 to 2047.
pub open spec fn s_format(op: u32, f3: u32, a: u32, b: u32, imm: int) -> u32 {
    s_word(op, f3, a, b, field(imm, 0x1000))
}

/// The B format with an even immediate from -4096 to 4094.
pub open spec fn b_format(f3: u32, a: u32, b: u32, imm: int) -> u32 {
    b_word(f3, a, b, field(imm, 0x2000))
}

/// The U format with an immediate from -2^19 to 2^19 - 1.
pub open spec fn u_format(op: u32, d: u32, imm: int) -> u32 {
    u_word(op, d, field(imm, 0x10_0000))
}

/// The J format with an even immediate from -2^20 to 2^20 - 2.
pub open spec fn j_format(d: u32, imm: int) -> u32 {
    j_word(d, field(imm, 0x20_0000))
}

/// The number that 64 bits mean in two's complement.
pub open spec fn num(v: u64) -> int {
    if v < 0x8000_0000_0000_0000 {
        v as int
    } else {
        v - 0x1_0000_0000_0000_0000
    }
}

/// The number that the low 32 bits mean in two's complement.
pub open spec fn low_num(v: u64) -> int {
    let w = v as int % 0x1_0000_0000;
    if w < 0x8000_0000 {
        w
    } else {
        w - 0x1_0000_0000
    }
}

/// A number modulo 2^64.
pub open spec fn wrap(n: int) -> u64 {
    (n % 0x1_0000_0000_0000_0000) as u64
}

/// A number modulo 2^32 and sign-extended.
pub open spec fn wrap32(n: int) -> u64 {
    let w = n % 0x1_0000_0000;
    if w < 0x8000_0000 {
        w as u64
    } else {
        (w + 0xFFFF_FFFF_0000_0000) as u64
    }
}

/// Register `i`: zero for x0.
pub open spec fn reg(c: CpuView, i: u32) -> u64 {
    if i == 0 {
        0
    } else {
        c.regs[i as int]
    }
}

/// The hart with `v` in register `d` and at `pc`, and otherwise like `c`. x0 takes
/// nothing.
pub open spec fn with_reg(c: CpuView, d: u32, v: u64, pc: u64) -> CpuView {
    CpuView {
        regs: if d == 0 {
            c.regs
        } else {
            c.regs.update(d as int, v)
        },
        pc,
        ..c
    }
}

/// The instruction leaves `v` in register `d`, goes on behind itself and does nothing
/// else.
pub open spec fn gives(c: CpuView, d: u32, v: u64) -> Outcome {
    (with_reg(c, d, v, wrap(c.pc + 4)), Ok(()))
}

/// The registers that an instruction can name.
pub open spec fn named(c: CpuView, d: u32, a: u32, b: u32) -> bool {
    c.regs.len() == 32 && c.f_regs.len() == 32 && d < 32 && a < 32 && b < 32
}

/// The fields of the R format.
pub(crate) proof fn lemma_r_format(op: u32, f3: u32, f7: u32, d: u32, a: u32, b: u32)
    by (bit_vector)
    requires
        op < 128,
        f3 < 8,
        f7 < 128,
        d < 32,
        a < 32,
        b < 32,
    ensures
        r_format(op, f3, f7, d, a, b) % 128 == op,
        r_format(op, f3, f7, d, a, b) % 4 == op % 4,
        r_format(op, f3, f7, d, a, b) / 0x80 % 32 == d,
        r_format(op, f3, f7, d, a, b) / 0x1000 % 8 == f3,
        r_format(op, f3, f7, d, a, b) / 0x8000 % 32 == a,
        r_format(op, f3, f7, d, a, b) / 0x10_0000 % 32 == b,
        r_format(op, f3, f7, d, a, b) / 0x200_0000 == f7,
        r_format(op, f3, f7, d, a, b) / 0x200_0000 % 4 == f7 % 4,
        r_format(op, f3, f7, d, a, b) / 0x800_0000 == f7 / 4,
        r_format(op, f3, f7, d, a, b) / 0x10_0000 == f7 * 32 + b,
{
}

/// The fields of the formats with an immediate.
pub(crate) proof fn lemma_words(op: u32, f3: u32, d: u32, a: u32, b: u32, k: u32)
    by (bit_vector)
    requires
        op < 128,
        f3 < 8,
        d < 32,
        a < 32,
        b < 32,
    ensures
        k < 0x1000 ==> {
            let i = i_word(op, f3, d, a, k);
            &&& i % 128 == op && i / 0x80 % 32 == d && i / 0x1000 % 8 == f3 && i / 0x8000 % 32 == a
            &&& i / 0x10_0000 == k && i / 0x200_0000 == k / 32 && i / 0x4000_0000 % 2 == k / 1024 % 2
            &&& i / 0x10_0000 % 32 == k % 32
        },
        k < 0x1000 ==> {
            let i = s_word(op, f3, a, b, k);
            &&& i % 128 == op && i / 0x1000 % 8 == f3 && i / 0x8000 % 32 == a && i / 0x10_0000 % 32
                == b
            &&& i / 0x200_0000 * 32 + i / 0x80 % 32 == k
        },
        k < 0x2000 && k % 2 == 0 ==> {
            let i = b_word(f3, a, b, k);
            &&& i % 128 == 0x63 && i / 0x1000 % 8 == f3 && i / 0x8000 % 32 == a && i / 0x10_0000 % 32
                == b
            &&& i / 0x8000_0000 * 0x1000 + i / 0x80 % 2 * 0x800 + i / 0x200_0000 % 64 * 32 + i
                / 0x100 % 16 * 2 == k
        },
        k < 0x10_0000 ==> {
            let i = u_word(op, d, k);
            &&& i % 128 == op && i / 0x80 % 32 == d
            &&& i - i % 0x1000 == k * 0x1000
        },
        k < 0x20_0000 && k % 2 == 0 ==> {
            let i = j_word(d, k);
            &&& i % 128 == 0x6F && i / 0x80 % 32 == d
            &&& i / 0x8000_0000 * 0x10_0000 + i / 0x1000 % 256 * 0x1000 + i / 0x10_0000 % 2 * 0x800
                + i / 0x20_0000 % 1024 * 2 == k
        },
{
}

} // verus!
