//! A 16-bit instruction does what the 32-bit instruction that it abbreviates does, but for
//! its length.

#[allow(unused_imports)]
use crate::alu::{sext, sext32, sra_spec, word};
#[allow(unused_imports)]
use crate::cpu::base::{left_imm_value, op_imm_value, right_imm_value};
#[allow(unused_imports)]
use crate::cpu::decode::{
    c_funct3, c_imm6, c_imm_addi16sp, c_imm_addi4spn, c_imm_b, c_imm_d, c_imm_j, c_imm_ldsp,
    c_imm_lui, c_imm_lwsp, c_imm_sdsp, c_imm_swsp, c_imm_w, c_rd, c_reg_high, c_reg_low, c_rs2,
    c_shamt, imm12, imm_i, imm_s,
};
#[allow(unused_imports)]
use crate::cpu::dispatch::{
    lemma_dispatch_load, lemma_dispatch_load_fp, lemma_dispatch_short0, lemma_dispatch_short1,
    lemma_dispatch_short2, lemma_dispatch_store, lemma_dispatch_store_fp, same,
};
#[allow(unused_imports)]
use crate::cpu::formats::{
    b_format, field, gives, i_format, j_format, lemma_words, named, r_format, reg, s_format,
    u_format, with_reg, wrap, wrap32,
};
#[allow(unused_imports)]
use crate::cpu::integer_laws::{
    goes_to, law_branches, law_immediate_arithmetic, law_jumps, law_register_arithmetic,
    law_upper_immediates, law_word_arithmetic, lemma_numbers32, lemma_op, lemma_op32,
    lemma_op_imm, lemma_op_imm32, short_imm,
};
#[allow(unused_imports)]
use crate::cpu::{CpuView, Outcome};
#[allow(unused_imports)]
use crate::trap::{Exception, Trap};
use vstd::prelude::*;

verus! {

/// The CI format: the six-bit field `k` around register `d`.
pub open spec fn ci(op: u32, f3: u32, d: u32, k: u32) -> u32 {
    op | ((k & 0x1F) << 2) | (d << 7) | (((k >> 5) & 1) << 12) | (f3 << 13)
}

/// The CR format: two registers.
pub open spec fn cr(f4: u32, d: u32, s: u32) -> u32 {
    2 | (s << 2) | (d << 7) | (f4 << 12)
}

/// The CB format of the arithmetic with a six-bit field on one of x8 to x15.
pub open spec fn cb_arith(sub: u32, d: u32, k: u32) -> u32 {
    1 | ((k & 0x1F) << 2) | ((d & 7) << 7) | (sub << 10) | (((k >> 5) & 1) << 12) | (4u32 << 13)
}

/// The CA format: two of x8 to x15.
pub open spec fn ca(h: u32, sub: u32, d: u32, s: u32) -> u32 {
    1 | ((s & 7) << 2) | (sub << 5) | ((d & 7) << 7) | (3u32 << 10) | (h << 12) | (4u32 << 13)
}

/// C.ADDI4SPN: a multiple of four below 1024.
pub open spec fn ciw(d: u32, k: u32) -> u32 {
    ((d & 7) << 2) | (((k >> 3) & 1) << 5) | (((k >> 2) & 1) << 6) | (((k >> 6) & 0xF) << 7) | (((k
        >> 4) & 3) << 11)
}

/// The CL and CS formats for words: a multiple of four below 128.
pub open spec fn cl_word(f3: u32, d: u32, a: u32, k: u32) -> u32 {
    ((d & 7) << 2) | (((k >> 6) & 1) << 5) | (((k >> 2) & 1) << 6) | ((a & 7) << 7) | (((k >> 3) & 7)
        << 10) | (f3 << 13)
}

/// The CL and CS formats for doublewords: a multiple of eight below 256.
pub open spec fn cl_double(f3: u32, d: u32, a: u32, k: u32) -> u32 {
    ((d & 7) << 2) | (((k >> 6) & 3) << 5) | ((a & 7) << 7) | (((k >> 3) & 7) << 10) | (f3 << 13)
}

/// C.ADDI16SP: the ten-bit field is a multiple of 16.
pub open spec fn ci_sp(k: u32) -> u32 {
    1 | (((k >> 5) & 1) << 2) | (((k >> 7) & 3) << 3) | (((k >> 6) & 1) << 5) | (((k >> 4) & 1) << 6)
        | (2u32 << 7) | (((k >> 9) & 1) << 12) | (3u32 << 13)
}

/// The CJ format: the twelve-bit field is even.
pub open spec fn cj(k: u32) -> u32 {
    1 | (((k >> 5) & 1) << 2) | (((k >> 1) & 7) << 3) | (((k >> 7) & 1) << 6) | (((k >> 6) & 1) << 7)
        | (((k >> 10) & 1) << 8) | (((k >> 8) & 3) << 9) | (((k >> 4) & 1) << 11) | (((k >> 11) & 1)
        << 12) | (5u32 << 13)
}

/// The CB format of the branches: the nine-bit field is even.
pub open spec fn cb_branch(f3: u32, a: u32, k: u32) -> u32 {
    1 | (((k >> 5) & 1) << 2) | (((k >> 1) & 3) << 3) | (((k >> 6) & 3) << 5) | ((a & 7) << 7) | (((k
        >> 3) & 3) << 10) | (((k >> 8) & 1) << 12) | (f3 << 13)
}

/// C.LWSP: a multiple of four below 256.
pub open spec fn ci_lwsp(d: u32, k: u32) -> u32 {
    2 | (((k >> 6) & 3) << 2) | (((k >> 2) & 7) << 4) | (d << 7) | (((k >> 5) & 1) << 12) | (2u32 << 13)
}

/// C.LDSP and C.FLDSP: a multiple of eight below 512.
pub open spec fn ci_ldsp(f3: u32, d: u32, k: u32) -> u32 {
    2 | (((k >> 6) & 7) << 2) | (((k >> 3) & 3) << 5) | (d << 7) | (((k >> 5) & 1) << 12) | (f3
        << 13)
}

/// C.SWSP: a multiple of four below 256.
pub open spec fn css_word(s: u32, k: u32) -> u32 {
    2 | (s << 2) | (((k >> 6) & 3) << 7) | (((k >> 2) & 0xF) << 9) | (6u32 << 13)
}

/// C.SDSP and C.FSDSP: a multiple of eight below 512.
pub open spec fn css_double(f3: u32, s: u32, k: u32) -> u32 {
    2 | (s << 2) | (((k >> 6) & 7) << 7) | (((k >> 3) & 7) << 10) | (f3 << 13)
}

/// One of x8 to x15.
pub open spec fn small(d: u32) -> bool {
    8 <= d < 16
}

/// The fields of quadrants 0 and 1.
proof fn lemma_short_fields(op: u32, f3: u32, h: u32, d: u32, s: u32, r: u32, k: u32)
    by (bit_vector)
    requires
        op < 3,
        f3 < 8,
        h < 2,
        8 <= d < 16,
        8 <= s < 16,
        r < 32,
    ensures
        k < 64 ==> {
            let i = ci(op, f3, r, k);
            &&& i < 0x1_0000 && i % 4 == op && i / 0x2000 % 8 == f3 && i / 0x80 % 32 == r
            &&& i / 0x1000 % 2 * 32 + i / 4 % 32 == k
        },
        k < 64 && f3 < 3 ==> {
            let i = cb_arith(f3, d, k);
            &&& i < 0x1_0000 && i % 4 == 1 && i / 0x2000 % 8 == 4 && i / 0x80 % 8 + 8 == d
            &&& i / 0x400 % 4 == f3 && i / 0x1000 % 2 * 32 + i / 4 % 32 == k
        },
        f3 < 4 ==> {
            let i = ca(h, f3, d, s);
            &&& i < 0x1_0000 && i % 4 == 1 && i / 0x2000 % 8 == 4 && i / 0x80 % 8 + 8 == d
            &&& i / 4 % 8 + 8 == s && i / 0x400 % 4 == 3 && i / 0x1000 % 2 == h && i / 0x20 % 4 == f3
        },
        k < 1024 && k % 4 == 0 ==> {
            let i = ciw(d, k);
            &&& i < 0x1_0000 && i % 4 == 0 && i / 0x2000 % 8 == 0 && i / 4 % 8 + 8 == d
            &&& i / 0x800 % 4 * 16 + i / 0x80 % 16 * 64 + i / 0x40 % 2 * 4 + i / 0x20 % 2 * 8 == k
        },
        k < 128 && k % 4 == 0 ==> {
            let i = cl_word(f3, d, s, k);
            &&& i < 0x1_0000 && i % 4 == 0 && i / 0x2000 % 8 == f3 && i / 4 % 8 + 8 == d
            &&& i / 0x80 % 8 + 8 == s
            &&& i / 0x400 % 8 * 8 + i / 0x40 % 2 * 4 + i / 0x20 % 2 * 64 == k
        },
        k < 256 && k % 8 == 0 ==> {
            let i = cl_double(f3, d, s, k);
            &&& i < 0x1_0000 && i % 4 == 0 && i / 0x2000 % 8 == f3 && i / 4 % 8 + 8 == d
            &&& i / 0x80 % 8 + 8 == s && i / 0x400 % 8 * 8 + i / 0x20 % 4 * 64 == k
        },
        k < 1024 && k % 16 == 0 ==> {
            let i = ci_sp(k);
            &&& i < 0x1_0000 && i % 4 == 1 && i / 0x2000 % 8 == 3 && i / 0x80 % 32 == 2
            &&& i / 0x1000 % 2 * 512 + i / 0x40 % 2 * 16 + i / 0x20 % 2 * 64 + i / 8 % 4 * 128 + i
                / 4 % 2 * 32 == k
        },
        k < 4096 && k % 2 == 0 ==> {
            let i = cj(k);
            &&& i < 0x1_0000 && i % 4 == 1 && i / 0x2000 % 8 == 5
            &&& i / 0x1000 % 2 * 2048 + i / 0x800 % 2 * 16 + i / 0x200 % 4 * 256 + i / 0x100 % 2
                * 1024 + i / 0x80 % 2 * 64 + i / 0x40 % 2 * 128 + i / 8 % 8 * 2 + i / 4 % 2 * 32
                == k
        },
        k < 512 && k % 2 == 0 ==> {
            let i = cb_branch(f3, s, k);
            &&& i < 0x1_0000 && i % 4 == 1 && i / 0x2000 % 8 == f3 && i / 0x80 % 8 + 8 == s
            &&& i / 0x1000 % 2 * 256 + i / 0x400 % 4 * 8 + i / 0x20 % 4 * 64 + i / 8 % 4 * 2 + i / 4
                % 2 * 32 == k
        },
{
}

/// The fields of quadrant 2.
proof fn lemma_stack_fields(f3: u32, d: u32, s: u32, k: u32)
    by (bit_vector)
    requires
        f3 < 8,
        d < 32,
        s < 32,
    ensures
        f3 == 0 || f3 == 1 ==> {
            let i = cr((8 + f3) as u32, d, s);
            &&& i < 0x1_0000 && i % 4 == 2 && i / 0x2000 % 8 == 4 && i / 0x1000 % 2 == f3
            &&& i / 0x80 % 32 == d && i / 4 % 32 == s
        },
        k < 256 && k % 4 == 0 ==> {
            let i = ci_lwsp(d, k);
            &&& i < 0x1_0000 && i % 4 == 2 && i / 0x2000 % 8 == 2 && i / 0x80 % 32 == d
            &&& i / 0x1000 % 2 * 32 + i / 0x10 % 8 * 4 + i / 4 % 4 * 64 == k
        },
        k < 512 && k % 8 == 0 ==> {
            let i = ci_ldsp(f3, d, k);
            &&& i < 0x1_0000 && i % 4 == 2 && i / 0x2000 % 8 == f3 && i / 0x80 % 32 == d
            &&& i / 0x1000 % 2 * 32 + i / 0x20 % 4 * 8 + i / 4 % 8 * 64 == k
        },
        k < 256 && k % 4 == 0 ==> {
            let i = css_word(s, k);
            &&& i < 0x1_0000 && i % 4 == 2 && i / 0x2000 % 8 == 6 && i / 4 % 32 == s
            &&& i / 0x200 % 16 * 4 + i / 0x80 % 4 * 64 == k
        },
        k < 512 && k % 8 == 0 ==> {
            let i = css_double(f3, s, k);
            &&& i < 0x1_0000 && i % 4 == 2 && i / 0x2000 % 8 == f3 && i / 4 % 32 == s
            &&& i / 0x400 % 8 * 8 + i / 0x80 % 8 * 64 == k
        },
{
}

/// What an instruction comes to that goes on behind itself, had it two bytes in place of
/// four.
pub open spec fn shorter(c: CpuView, long: Outcome) -> Outcome {
    match long.1 {
        Ok(()) => (CpuView { pc: wrap(c.pc + 2), ..long.0 }, Ok(())),
        Err(e) => long,
    }
}

/// C.ADDI, C.ADDIW, C.LI, C.LUI, C.SRLI, C.SRAI, C.ANDI, C.SLLI, C.ADDI4SPN and C.ADDI16SP
/// abbreviate ADDI, ADDIW, ADDI from x0, LUI, SRLI, SRAI, ANDI, SLLI and twice ADDI from
/// x2.
pub proof fn law_compressed_immediates(
    c: CpuView,
    d: u32,
    r: u32,
    imm: int,
    sh: int,
    far: int,
    wide: int,
)
    requires
        named(c, r, d, 0),
        small(d),
        -32 <= imm < 32,
        0 <= sh < 64,
        0 < far < 1024,
        far % 4 == 0,
        -512 <= wide < 512,
        wide % 16 == 0,
    ensures
        same(
            c.exec(ci(1, 0, r, field(imm, 64))),
            shorter(c, c.exec(i_format(0x13, 0, r, r, imm))),
        ),
        same(
            c.exec(ci(1, 1, r, field(imm, 64))),
            shorter(c, c.exec(i_format(0x1B, 0, r, r, imm))),
        ),
        same(
            c.exec(ci(1, 2, r, field(imm, 64))),
            shorter(c, c.exec(i_format(0x13, 0, r, 0, imm))),
        ),
        r != 2 ==> same(
            c.exec(ci(1, 3, r, field(imm, 64))),
            shorter(c, c.exec(u_format(0x37, r, imm))),
        ),
        same(
            c.exec(cb_arith(0, d, sh as u32)),
            shorter(c, c.exec(i_format(0x13, 5, d, d, sh))),
        ),
        same(
            c.exec(cb_arith(1, d, sh as u32)),
            shorter(c, c.exec(i_format(0x13, 5, d, d, 0x400 + sh))),
        ),
        same(
            c.exec(cb_arith(2, d, field(imm, 64))),
            shorter(c, c.exec(i_format(0x13, 7, d, d, imm))),
        ),
        same(c.exec(ci(2, 0, r, sh as u32)), shorter(c, c.exec(i_format(0x13, 1, r, r, sh)))),
        same(c.exec(ciw(d, far as u32)), shorter(c, c.exec(i_format(0x13, 0, d, 2, far)))),
        same(c.exec(ci_sp(field(wide, 1024))), shorter(c, c.exec(i_format(0x13, 0, 2, 2, wide)))),
{
    lemma_c_addi(c, r, imm);
    lemma_c_addiw(c, r, imm);
    lemma_c_li(c, r, imm);
    if r != 2 {
        lemma_c_lui(c, r, imm);
    }
    lemma_c_srli(c, d, sh);
    lemma_c_srai(c, d, sh);
    lemma_c_slli(c, r, sh);
    lemma_c_andi(c, d, imm);
    lemma_c_addi4spn(c, d, far);
    lemma_c_addi16sp(c, wide);
}

/// C.ADDI.
#[verifier::spinoff_prover]
#[verifier::rlimit(60)]
proof fn lemma_c_addi(c: CpuView, r: u32, imm: int)
    requires
        named(c, r, 0, 0),
        -32 <= imm < 32,
    ensures
        same(
            c.exec(ci(1, 0, r, field(imm, 64))),
            shorter(c, c.exec(i_format(0x13, 0, r, r, imm))),
        ),
{
    let k = field(imm, 64);
    lemma_short_fields(1, 0, 0, 8, 8, r, k);
    lemma_dispatch_short1(c, ci(1, 0, r, k));
    lemma_op_imm(c, 0, r, r, imm);
    assert(sext(k as u64, 32) == wrap(imm));
}

/// C.ADDIW.
#[verifier::spinoff_prover]
#[verifier::rlimit(60)]
proof fn lemma_c_addiw(c: CpuView, r: u32, imm: int)
    requires
        named(c, r, 0, 0),
        -32 <= imm < 32,
    ensures
        same(
            c.exec(ci(1, 1, r, field(imm, 64))),
            shorter(c, c.exec(i_format(0x1B, 0, r, r, imm))),
        ),
{
    let k = field(imm, 64);
    lemma_short_fields(1, 1, 0, 8, 8, r, k);
    lemma_dispatch_short1(c, ci(1, 1, r, k));
    lemma_op_imm32(c, 0, r, r, imm);
    assert(sext(k as u64, 32) == wrap(imm));
}

/// C.LI.
#[verifier::spinoff_prover]
#[verifier::rlimit(60)]
proof fn lemma_c_li(c: CpuView, r: u32, imm: int)
    requires
        named(c, r, 0, 0),
        -32 <= imm < 32,
    ensures
        same(
            c.exec(ci(1, 2, r, field(imm, 64))),
            shorter(c, c.exec(i_format(0x13, 0, r, 0, imm))),
        ),
{
    let k = field(imm, 64);
    lemma_short_fields(1, 2, 0, 8, 8, r, k);
    lemma_dispatch_short1(c, ci(1, 2, r, k));
    lemma_op_imm(c, 0, r, 0, imm);
    assert(sext(k as u64, 32) == wrap(imm));
}

/// C.LUI.
#[verifier::spinoff_prover]
#[verifier::rlimit(60)]
proof fn lemma_c_lui(c: CpuView, r: u32, imm: int)
    requires
        named(c, r, 0, 0),
        r != 2,
        -32 <= imm < 32,
    ensures
        same(
            c.exec(ci(1, 3, r, field(imm, 64))),
            shorter(c, c.exec(u_format(0x37, r, imm))),
        ),
{
    let k = field(imm, 64);
    let i = ci(1, 3, r, k);
    lemma_short_fields(1, 3, 0, 8, 8, r, k);
    lemma_dispatch_short1(c, i);
    law_upper_immediates(c, r, imm);
    assert(i / 0x1000 % 2 * 0x2_0000 + i / 4 % 32 * 0x1000 == k * 0x1000);
    assert(c_imm_lui(i) == wrap(imm * 4096));
}

/// C.ANDI.
#[verifier::spinoff_prover]
#[verifier::rlimit(60)]
proof fn lemma_c_andi(c: CpuView, d: u32, imm: int)
    requires
        named(c, d, 0, 0),
        small(d),
        -32 <= imm < 32,
    ensures
        same(
            c.exec(cb_arith(2, d, field(imm, 64))),
            shorter(c, c.exec(i_format(0x13, 7, d, d, imm))),
        ),
{
    let k = field(imm, 64);
    lemma_short_fields(1, 2, 0, d, 8, 0, k);
    lemma_dispatch_short1(c, cb_arith(2, d, k));
    lemma_op_imm(c, 7, d, d, imm);
    assert(sext(k as u64, 32) == wrap(imm));
}

/// C.SRLI.
#[verifier::spinoff_prover]
#[verifier::rlimit(60)]
proof fn lemma_c_srli(c: CpuView, d: u32, sh: int)
    requires
        named(c, d, 0, 0),
        small(d),
        0 <= sh < 64,
    ensures
        same(
            c.exec(cb_arith(0, d, sh as u32)),
            shorter(c, c.exec(i_format(0x13, 5, d, d, sh))),
        ),
{
    lemma_short_fields(1, 0, 0, d, 8, 0, sh as u32);
    lemma_dispatch_short1(c, cb_arith(0, d, sh as u32));
    lemma_op_imm(c, 5, d, d, sh);
}

/// C.SRAI.
#[verifier::spinoff_prover]
#[verifier::rlimit(60)]
proof fn lemma_c_srai(c: CpuView, d: u32, sh: int)
    requires
        named(c, d, 0, 0),
        small(d),
        0 <= sh < 64,
    ensures
        same(
            c.exec(cb_arith(1, d, sh as u32)),
            shorter(c, c.exec(i_format(0x13, 5, d, d, 0x400 + sh))),
        ),
{
    lemma_short_fields(1, 1, 0, d, 8, 0, sh as u32);
    lemma_dispatch_short1(c, cb_arith(1, d, sh as u32));
    lemma_op_imm(c, 5, d, d, 0x400 + sh);
}

/// C.SLLI.
#[verifier::spinoff_prover]
#[verifier::rlimit(60)]
proof fn lemma_c_slli(c: CpuView, r: u32, sh: int)
    requires
        named(c, r, 0, 0),
        0 <= sh < 64,
    ensures
        same(c.exec(ci(2, 0, r, sh as u32)), shorter(c, c.exec(i_format(0x13, 1, r, r, sh)))),
{
    lemma_short_fields(2, 0, 0, 8, 8, r, sh as u32);
    lemma_dispatch_short2(c, ci(2, 0, r, sh as u32));
    lemma_op_imm(c, 1, r, r, sh);
}

/// C.ADDI4SPN.
#[verifier::spinoff_prover]
#[verifier::rlimit(60)]
proof fn lemma_c_addi4spn(c: CpuView, d: u32, far: int)
    requires
        named(c, d, 0, 0),
        small(d),
        0 < far < 1024,
        far % 4 == 0,
    ensures
        same(c.exec(ciw(d, far as u32)), shorter(c, c.exec(i_format(0x13, 0, d, 2, far)))),
{
    lemma_short_fields(0, 0, 0, d, 8, 0, far as u32);
    lemma_dispatch_short0(c, ciw(d, far as u32));
    lemma_op_imm(c, 0, d, 2, far);
}

/// C.ADDI16SP.
#[verifier::spinoff_prover]
#[verifier::rlimit(60)]
proof fn lemma_c_addi16sp(c: CpuView, wide: int)
    requires
        named(c, 0, 0, 0),
        -512 <= wide < 512,
        wide % 16 == 0,
    ensures
        same(c.exec(ci_sp(field(wide, 1024))), shorter(c, c.exec(i_format(0x13, 0, 2, 2, wide)))),
{
    let k = field(wide, 1024);
    lemma_short_fields(1, 3, 0, 8, 8, 2, k);
    lemma_dispatch_short1(c, ci_sp(k));
    lemma_op_imm(c, 0, 2, 2, wide);
    assert(sext(k as u64, 512) == wrap(wide));
}

/// C.SUB, C.XOR, C.OR, C.AND, C.SUBW, C.ADDW, C.MV and C.ADD abbreviate SUB, XOR, OR, AND,
/// SUBW, ADDW, ADD to x0 and ADD.
pub proof fn law_compressed_registers(c: CpuView, d: u32, s: u32, p: u32, q: u32)
    requires
        named(c, p, q, 0),
        small(d),
        small(s),
        q != 0,
    ensures
        same(c.exec(ca(0, 0, d, s)), shorter(c, c.exec(r_format(0x33, 0, 0x20, d, d, s)))),
        same(c.exec(ca(0, 1, d, s)), shorter(c, c.exec(r_format(0x33, 4, 0x00, d, d, s)))),
        same(c.exec(ca(0, 2, d, s)), shorter(c, c.exec(r_format(0x33, 6, 0x00, d, d, s)))),
        same(c.exec(ca(0, 3, d, s)), shorter(c, c.exec(r_format(0x33, 7, 0x00, d, d, s)))),
        same(c.exec(ca(1, 0, d, s)), shorter(c, c.exec(r_format(0x3B, 0, 0x20, d, d, s)))),
        same(c.exec(ca(1, 1, d, s)), shorter(c, c.exec(r_format(0x3B, 0, 0x00, d, d, s)))),
        same(c.exec(cr(8, p, q)), shorter(c, c.exec(r_format(0x33, 0, 0x00, p, 0, q)))),
        same(c.exec(cr(9, p, q)), shorter(c, c.exec(r_format(0x33, 0, 0x00, p, p, q)))),
{
    lemma_ca(c, 0, 0, d, s);
    lemma_ca(c, 0, 1, d, s);
    lemma_ca(c, 0, 2, d, s);
    lemma_ca(c, 0, 3, d, s);
    lemma_ca(c, 1, 0, d, s);
    lemma_ca(c, 1, 1, d, s);
    lemma_c_move(c, p, q);
}

/// The code of the 32-bit instruction for one of the CA format.
spec fn long_ca(h: u32, sub: u32, d: u32, s: u32) -> u32 {
    if h == 0 {
        if sub == 0 {
            r_format(0x33, 0, 0x20, d, d, s)
        } else if sub == 1 {
            r_format(0x33, 4, 0x00, d, d, s)
        } else if sub == 2 {
            r_format(0x33, 6, 0x00, d, d, s)
        } else {
            r_format(0x33, 7, 0x00, d, d, s)
        }
    } else if sub == 0 {
        r_format(0x3B, 0, 0x20, d, d, s)
    } else {
        r_format(0x3B, 0, 0x00, d, d, s)
    }
}

/// One instruction of the CA format.
#[verifier::spinoff_prover]
#[verifier::rlimit(60)]
proof fn lemma_ca(c: CpuView, h: u32, sub: u32, d: u32, s: u32)
    requires
        named(c, d, s, 0),
        small(d),
        small(s),
        h < 2,
        sub < 4,
        h == 1 ==> sub < 2,
    ensures
        same(c.exec(ca(h, sub, d, s)), shorter(c, c.exec(long_ca(h, sub, d, s)))),
{
    lemma_short_fields(1, sub, h, d, s, 0, 0);
    lemma_dispatch_short1(c, ca(h, sub, d, s));
    if h == 1 {
        lemma_op32(
            c,
            0,
            if sub == 0 {
                0x20
            } else {
                0
            },
            d,
            d,
            s,
        );
    } else if sub == 0 {
        lemma_op(c, 0, 0x20, d, d, s);
    } else if sub == 1 {
        lemma_op(c, 4, 0x00, d, d, s);
    } else if sub == 2 {
        lemma_op(c, 6, 0x00, d, d, s);
    } else {
        lemma_op(c, 7, 0x00, d, d, s);
    }
}

/// C.MV and C.ADD.
#[verifier::spinoff_prover]
#[verifier::rlimit(60)]
proof fn lemma_c_move(c: CpuView, p: u32, q: u32)
    requires
        named(c, p, q, 0),
        q != 0,
    ensures
        same(c.exec(cr(8, p, q)), shorter(c, c.exec(r_format(0x33, 0, 0x00, p, 0, q)))),
        same(c.exec(cr(9, p, q)), shorter(c, c.exec(r_format(0x33, 0, 0x00, p, p, q)))),
{
    lemma_stack_fields(0, p, q, 0);
    lemma_stack_fields(1, p, q, 0);
    lemma_dispatch_short2(c, cr(8, p, q));
    lemma_dispatch_short2(c, cr(9, p, q));
    lemma_op(c, 0, 0x00, p, 0, q);
    lemma_op(c, 0, 0x00, p, p, q);
}

/// C.LW, C.LD, C.FLD, C.SW, C.SD and C.FSD abbreviate LW, LD, FLD, SW, SD and FSD between
/// two of x8 to x15, with an offset that is a multiple of the size.
pub proof fn law_compressed_memory(c: CpuView, d: u32, a: u32, w: int, q: int)
    requires
        named(c, d, a, 0),
        small(d),
        small(a),
        0 <= w < 128,
        w % 4 == 0,
        0 <= q < 256,
        q % 8 == 0,
    ensures
        same(c.exec(cl_word(2, d, a, w as u32)), shorter(c, c.exec(i_format(0x03, 2, d, a, w)))),
        same(c.exec(cl_double(3, d, a, q as u32)), shorter(c, c.exec(i_format(0x03, 3, d, a, q)))),
        same(c.exec(cl_double(1, d, a, q as u32)), shorter(c, c.exec(i_format(0x07, 3, d, a, q)))),
        same(c.exec(cl_word(6, d, a, w as u32)), shorter(c, c.exec(s_format(0x23, 2, a, d, w)))),
        same(c.exec(cl_double(7, d, a, q as u32)), shorter(c, c.exec(s_format(0x23, 3, a, d, q)))),
        same(c.exec(cl_double(5, d, a, q as u32)), shorter(c, c.exec(s_format(0x27, 3, a, d, q)))),
{
    lemma_c_lw(c, d, a, w);
    lemma_c_ld(c, d, a, q);
    lemma_c_fld(c, d, a, q);
    lemma_c_sw(c, d, a, w);
    lemma_c_sd(c, d, a, q);
    lemma_c_fsd(c, d, a, q);
}

/// C.LWSP, C.LDSP, C.FLDSP, C.SWSP, C.SDSP and C.FSDSP do so relative to x2.
pub proof fn law_compressed_stack(c: CpuView, d: u32, w: int, q: int)
    requires
        named(c, d, 0, 0),
        0 <= w < 256,
        w % 4 == 0,
        0 <= q < 512,
        q % 8 == 0,
    ensures
        d != 0 ==> same(
            c.exec(ci_lwsp(d, w as u32)),
            shorter(c, c.exec(i_format(0x03, 2, d, 2, w))),
        ),
        d != 0 ==> same(
            c.exec(ci_ldsp(3, d, q as u32)),
            shorter(c, c.exec(i_format(0x03, 3, d, 2, q))),
        ),
        same(c.exec(ci_ldsp(1, d, q as u32)), shorter(c, c.exec(i_format(0x07, 3, d, 2, q)))),
        same(c.exec(css_word(d, w as u32)), shorter(c, c.exec(s_format(0x23, 2, 2, d, w)))),
        same(c.exec(css_double(7, d, q as u32)), shorter(c, c.exec(s_format(0x23, 3, 2, d, q)))),
        same(c.exec(css_double(5, d, q as u32)), shorter(c, c.exec(s_format(0x27, 3, 2, d, q)))),
{
    if d != 0 {
        lemma_c_lwsp(c, d, w);
        lemma_c_ldsp(c, d, q);
    }
    lemma_c_fldsp(c, d, q);
    lemma_c_swsp(c, d, w);
    lemma_c_sdsp(c, d, q);
    lemma_c_fsdsp(c, d, q);
}

/// C.LW.
#[verifier::spinoff_prover]
#[verifier::rlimit(60)]
proof fn lemma_c_lw(c: CpuView, d: u32, a: u32, k: int)
    requires
        named(c, d, a, 0),
        small(d),
        small(a),
        0 <= k < 128,
        k % 4 == 0,
    ensures
        same(c.exec(cl_word(2, d, a, k as u32)), shorter(c, c.exec(i_format(0x03, 2, d, a, k)))),
{
    let i = cl_word(2, d, a, k as u32);
    let j = i_format(0x03, 2, d, a, k);
    lemma_short_fields(0, 2, 0, d, a, 0, k as u32);
    lemma_words(0x03, 2, d, a, 0, k as u32);
    lemma_dispatch_short0(c, i);
    lemma_dispatch_load(c, j);
    assert(imm_i(j) == k);
}

/// C.LD.
#[verifier::spinoff_prover]
#[verifier::rlimit(60)]
proof fn lemma_c_ld(c: CpuView, d: u32, a: u32, k: int)
    requires
        named(c, d, a, 0),
        small(d),
        small(a),
        0 <= k < 256,
        k % 8 == 0,
    ensures
        same(c.exec(cl_double(3, d, a, k as u32)), shorter(c, c.exec(i_format(0x03, 3, d, a, k)))),
{
    let i = cl_double(3, d, a, k as u32);
    let j = i_format(0x03, 3, d, a, k);
    lemma_short_fields(0, 3, 0, d, a, 0, k as u32);
    lemma_words(0x03, 3, d, a, 0, k as u32);
    lemma_dispatch_short0(c, i);
    lemma_dispatch_load(c, j);
    assert(imm_i(j) == k);
}

/// C.FLD.
#[verifier::spinoff_prover]
#[verifier::rlimit(60)]
proof fn lemma_c_fld(c: CpuView, d: u32, a: u32, k: int)
    requires
        named(c, d, a, 0),
        small(d),
        small(a),
        0 <= k < 256,
        k % 8 == 0,
    ensures
        same(c.exec(cl_double(1, d, a, k as u32)), shorter(c, c.exec(i_format(0x07, 3, d, a, k)))),
{
    let i = cl_double(1, d, a, k as u32);
    let j = i_format(0x07, 3, d, a, k);
    lemma_short_fields(0, 1, 0, d, a, 0, k as u32);
    lemma_words(0x07, 3, d, a, 0, k as u32);
    lemma_dispatch_short0(c, i);
    lemma_dispatch_load_fp(c, j);
    assert(imm_i(j) == k);
}

/// C.SW.
#[verifier::spinoff_prover]
#[verifier::rlimit(60)]
proof fn lemma_c_sw(c: CpuView, d: u32, a: u32, k: int)
    requires
        named(c, d, a, 0),
        small(d),
        small(a),
        0 <= k < 128,
        k % 4 == 0,
    ensures
        same(c.exec(cl_word(6, d, a, k as u32)), shorter(c, c.exec(s_format(0x23, 2, a, d, k)))),
{
    let i = cl_word(6, d, a, k as u32);
    let j = s_format(0x23, 2, a, d, k);
    lemma_short_fields(0, 6, 0, d, a, 0, k as u32);
    lemma_words(0x23, 2, 0, a, d, k as u32);
    lemma_dispatch_short0(c, i);
    lemma_dispatch_store(c, j);
    assert(imm_s(j) == k);
}

/// C.SD.
#[verifier::spinoff_prover]
#[verifier::rlimit(60)]
proof fn lemma_c_sd(c: CpuView, d: u32, a: u32, k: int)
    requires
        named(c, d, a, 0),
        small(d),
        small(a),
        0 <= k < 256,
        k % 8 == 0,
    ensures
        same(c.exec(cl_double(7, d, a, k as u32)), shorter(c, c.exec(s_format(0x23, 3, a, d, k)))),
{
    let i = cl_double(7, d, a, k as u32);
    let j = s_format(0x23, 3, a, d, k);
    lemma_short_fields(0, 7, 0, d, a, 0, k as u32);
    lemma_words(0x23, 3, 0, a, d, k as u32);
    lemma_dispatch_short0(c, i);
    lemma_dispatch_store(c, j);
    assert(imm_s(j) == k);
}

/// C.FSD.
#[verifier::spinoff_prover]
#[verifier::rlimit(60)]
proof fn lemma_c_fsd(c: CpuView, d: u32, a: u32, k: int)
    requires
        named(c, d, a, 0),
        small(d),
        small(a),
        0 <= k < 256,
        k % 8 == 0,
    ensures
        same(c.exec(cl_double(5, d, a, k as u32)), shorter(c, c.exec(s_format(0x27, 3, a, d, k)))),
{
    let i = cl_double(5, d, a, k as u32);
    let j = s_format(0x27, 3, a, d, k);
    lemma_short_fields(0, 5, 0, d, a, 0, k as u32);
    lemma_words(0x27, 3, 0, a, d, k as u32);
    lemma_dispatch_short0(c, i);
    lemma_dispatch_store_fp(c, j);
    assert(imm_s(j) == k);
}

/// C.LWSP.
#[verifier::spinoff_prover]
#[verifier::rlimit(60)]
proof fn lemma_c_lwsp(c: CpuView, d: u32, k: int)
    requires
        named(c, d, 0, 0),
        d != 0,
        0 <= k < 256,
        k % 4 == 0,
    ensures
        same(c.exec(ci_lwsp(d, k as u32)), shorter(c, c.exec(i_format(0x03, 2, d, 2, k)))),
{
    let i = ci_lwsp(d, k as u32);
    let j = i_format(0x03, 2, d, 2, k);
    lemma_stack_fields(2, d, d, k as u32);
    lemma_words(0x03, 2, d, 2, 0, k as u32);
    lemma_dispatch_short2(c, i);
    lemma_dispatch_load(c, j);
    assert(imm_i(j) == k);
}

/// C.LDSP.
#[verifier::spinoff_prover]
#[verifier::rlimit(60)]
proof fn lemma_c_ldsp(c: CpuView, d: u32, k: int)
    requires
        named(c, d, 0, 0),
        d != 0,
        0 <= k < 512,
        k % 8 == 0,
    ensures
        same(c.exec(ci_ldsp(3, d, k as u32)), shorter(c, c.exec(i_format(0x03, 3, d, 2, k)))),
{
    let i = ci_ldsp(3, d, k as u32);
    let j = i_format(0x03, 3, d, 2, k);
    lemma_stack_fields(3, d, d, k as u32);
    lemma_words(0x03, 3, d, 2, 0, k as u32);
    lemma_dispatch_short2(c, i);
    lemma_dispatch_load(c, j);
    assert(imm_i(j) == k);
}

/// C.FLDSP.
#[verifier::spinoff_prover]
#[verifier::rlimit(60)]
proof fn lemma_c_fldsp(c: CpuView, d: u32, k: int)
    requires
        named(c, d, 0, 0),
        0 <= k < 512,
        k % 8 == 0,
    ensures
        same(c.exec(ci_ldsp(1, d, k as u32)), shorter(c, c.exec(i_format(0x07, 3, d, 2, k)))),
{
    let i = ci_ldsp(1, d, k as u32);
    let j = i_format(0x07, 3, d, 2, k);
    lemma_stack_fields(1, d, d, k as u32);
    lemma_words(0x07, 3, d, 2, 0, k as u32);
    lemma_dispatch_short2(c, i);
    lemma_dispatch_load_fp(c, j);
    assert(imm_i(j) == k);
}

/// C.SWSP.
#[verifier::spinoff_prover]
#[verifier::rlimit(60)]
proof fn lemma_c_swsp(c: CpuView, d: u32, k: int)
    requires
        named(c, d, 0, 0),
        0 <= k < 256,
        k % 4 == 0,
    ensures
        same(c.exec(css_word(d, k as u32)), shorter(c, c.exec(s_format(0x23, 2, 2, d, k)))),
{
    let i = css_word(d, k as u32);
    let j = s_format(0x23, 2, 2, d, k);
    lemma_stack_fields(6, d, d, k as u32);
    lemma_words(0x23, 2, 0, 2, d, k as u32);
    lemma_dispatch_short2(c, i);
    lemma_dispatch_store(c, j);
    assert(imm_s(j) == k);
}

/// C.SDSP.
#[verifier::spinoff_prover]
#[verifier::rlimit(60)]
proof fn lemma_c_sdsp(c: CpuView, d: u32, k: int)
    requires
        named(c, d, 0, 0),
        0 <= k < 512,
        k % 8 == 0,
    ensures
        same(c.exec(css_double(7, d, k as u32)), shorter(c, c.exec(s_format(0x23, 3, 2, d, k)))),
{
    let i = css_double(7, d, k as u32);
    let j = s_format(0x23, 3, 2, d, k);
    lemma_stack_fields(7, d, d, k as u32);
    lemma_words(0x23, 3, 0, 2, d, k as u32);
    lemma_dispatch_short2(c, i);
    lemma_dispatch_store(c, j);
    assert(imm_s(j) == k);
}

/// C.FSDSP.
#[verifier::spinoff_prover]
#[verifier::rlimit(60)]
proof fn lemma_c_fsdsp(c: CpuView, d: u32, k: int)
    requires
        named(c, d, 0, 0),
        0 <= k < 512,
        k % 8 == 0,
    ensures
        same(c.exec(css_double(5, d, k as u32)), shorter(c, c.exec(s_format(0x27, 3, 2, d, k)))),
{
    let i = css_double(5, d, k as u32);
    let j = s_format(0x27, 3, 2, d, k);
    lemma_stack_fields(5, d, d, k as u32);
    lemma_words(0x27, 3, 0, 2, d, k as u32);
    lemma_dispatch_short2(c, i);
    lemma_dispatch_store_fp(c, j);
    assert(imm_s(j) == k);
}

/// C.J abbreviates JAL without a link, C.JR and C.JALR JALR without one and with x1, and
/// C.EBREAK EBREAK; what C.JALR links is the address behind its two bytes.
pub proof fn law_compressed_jumps(c: CpuView, a: u32, far: int)
    requires
        named(c, a, 0, 0),
        a != 0,
        -2048 <= far < 2048,
        far % 2 == 0,
    ensures
        same(c.exec(cj(field(far, 4096))), goes_to(c, wrap(c.pc + far))),
        same(c.exec(cr(8, a, 0)), goes_to(c, even(reg(c, a)))),
        same(
            c.exec(cr(9, a, 0)),
            (with_reg(c, 1, wrap(c.pc + 2), even(reg(c, a))), Ok::<(), (Trap, u64)>(())),
        ),
        same(
            c.exec(cr(9, 0, 0)),
            (c, Err::<(), (Trap, u64)>((Trap::Exception(Exception::Breakpoint), c.pc))),
        ),
{
    lemma_c_j(c, far);
    lemma_c_jr(c, a);
}

/// An address without its lowest bit.
pub open spec fn even(t: u64) -> u64 {
    if t % 2 == 1 {
        (t - 1) as u64
    } else {
        t
    }
}

/// C.J.
#[verifier::spinoff_prover]
#[verifier::rlimit(60)]
proof fn lemma_c_j(c: CpuView, far: int)
    requires
        -2048 <= far < 2048,
        far % 2 == 0,
    ensures
        same(c.exec(cj(field(far, 4096))), goes_to(c, wrap(c.pc + far))),
{
    let k = field(far, 4096);
    lemma_short_fields(1, 0, 0, 8, 8, 0, k);
    lemma_dispatch_short1(c, cj(k));
    assert(sext(k as u64, 2048) == wrap(far));
    assert(c.pc.wrapping_add(wrap(far)) == wrap(c.pc + far));
}

/// C.JR, C.JALR and C.EBREAK.
#[verifier::spinoff_prover]
#[verifier::rlimit(60)]
proof fn lemma_c_jr(c: CpuView, a: u32)
    requires
        named(c, a, 0, 0),
        a != 0,
    ensures
        same(c.exec(cr(8, a, 0)), goes_to(c, even(reg(c, a)))),
        same(
            c.exec(cr(9, a, 0)),
            (with_reg(c, 1, wrap(c.pc + 2), even(reg(c, a))), Ok::<(), (Trap, u64)>(())),
        ),
        same(
            c.exec(cr(9, 0, 0)),
            (c, Err::<(), (Trap, u64)>((Trap::Exception(Exception::Breakpoint), c.pc))),
        ),
{
    lemma_stack_fields(0, a, 0, 0);
    lemma_stack_fields(1, a, 0, 0);
    lemma_stack_fields(1, 0, 0, 0);
    lemma_dispatch_short2(c, cr(8, a, 0));
    lemma_dispatch_short2(c, cr(9, a, 0));
    lemma_dispatch_short2(c, cr(9, 0, 0));
}

/// C.BEQZ and C.BNEZ abbreviate BEQ and BNE against x0.
pub proof fn law_compressed_branches(c: CpuView, a: u32, imm: int)
    requires
        named(c, a, 0, 0),
        small(a),
        -256 <= imm < 256,
        imm % 2 == 0,
    ensures
        same(
            c.exec(cb_branch(6, a, field(imm, 512))),
            goes_to(
                c,
                if reg(c, a) == 0 {
                    wrap(c.pc + imm)
                } else {
                    wrap(c.pc + 2)
                },
            ),
        ),
        same(
            c.exec(cb_branch(7, a, field(imm, 512))),
            goes_to(
                c,
                if reg(c, a) != 0 {
                    wrap(c.pc + imm)
                } else {
                    wrap(c.pc + 2)
                },
            ),
        ),
{
    lemma_c_branch(c, 6, a, imm);
    lemma_c_branch(c, 7, a, imm);
}

/// One of the branches.
#[verifier::spinoff_prover]
#[verifier::rlimit(60)]
proof fn lemma_c_branch(c: CpuView, f3: u32, a: u32, imm: int)
    requires
        named(c, a, 0, 0),
        f3 == 6 || f3 == 7,
        small(a),
        -256 <= imm < 256,
        imm % 2 == 0,
    ensures
        same(
            c.exec(cb_branch(f3, a, field(imm, 512))),
            goes_to(
                c,
                if (reg(c, a) == 0) == (f3 == 6) {
                    wrap(c.pc + imm)
                } else {
                    wrap(c.pc + 2)
                },
            ),
        ),
{
    let k = field(imm, 512);
    lemma_short_fields(1, f3, 0, 8, a, 0, k);
    lemma_dispatch_short1(c, cb_branch(f3, a, k));
    assert(sext(k as u64, 256) == wrap(imm));
    assert(c.pc.wrapping_add(wrap(imm)) == wrap(c.pc + imm));
}

/// What no 16-bit instruction stands for is illegal: C.ADDI4SPN by zero, the fifth code of
/// quadrant 0, and C.LWSP and C.LDSP to x0.
pub proof fn law_compressed_illegal(c: CpuView, d: u32, a: u32, w: int, q: int)
    requires
        named(c, d, a, 0),
        small(d),
        small(a),
        0 <= w < 256,
        w % 4 == 0,
        0 <= q < 256,
        q % 8 == 0,
    ensures
        same(c.exec(ciw(d, 0)), (c, Err(illegal_of(ciw(d, 0))))),
        same(
            c.exec(cl_double(4, d, a, q as u32)),
            (c, Err(illegal_of(cl_double(4, d, a, q as u32)))),
        ),
        same(c.exec(ci_lwsp(0, w as u32)), (c, Err(illegal_of(ci_lwsp(0, w as u32))))),
        same(c.exec(ci_ldsp(3, 0, q as u32)), (c, Err(illegal_of(ci_ldsp(3, 0, q as u32))))),
{
    lemma_c_illegal0(c, d, a, q);
    lemma_c_illegal2(c, w, q);
}

/// The illegal-instruction trap with the instruction as its value.
pub open spec fn illegal_of(inst: u32) -> (Trap, u64) {
    (Trap::Exception(Exception::IllegalInstruction), inst as u64)
}

/// In quadrant 0.
#[verifier::spinoff_prover]
#[verifier::rlimit(60)]
proof fn lemma_c_illegal0(c: CpuView, d: u32, a: u32, q: int)
    requires
        small(d),
        small(a),
        0 <= q < 256,
        q % 8 == 0,
    ensures
        same(c.exec(ciw(d, 0)), (c, Err(illegal_of(ciw(d, 0))))),
        same(
            c.exec(cl_double(4, d, a, q as u32)),
            (c, Err(illegal_of(cl_double(4, d, a, q as u32)))),
        ),
{
    lemma_short_fields(0, 0, 0, d, a, 0, 0);
    lemma_short_fields(0, 4, 0, d, a, 0, q as u32);
    lemma_dispatch_short0(c, ciw(d, 0));
    lemma_dispatch_short0(c, cl_double(4, d, a, q as u32));
}

/// In quadrant 2.
#[verifier::spinoff_prover]
#[verifier::rlimit(60)]
proof fn lemma_c_illegal2(c: CpuView, w: int, q: int)
    requires
        0 <= w < 256,
        w % 4 == 0,
        0 <= q < 256,
        q % 8 == 0,
    ensures
        same(c.exec(ci_lwsp(0, w as u32)), (c, Err(illegal_of(ci_lwsp(0, w as u32))))),
        same(c.exec(ci_ldsp(3, 0, q as u32)), (c, Err(illegal_of(ci_ldsp(3, 0, q as u32))))),
{
    lemma_stack_fields(2, 0, 0, w as u32);
    lemma_stack_fields(3, 0, 0, q as u32);
    lemma_dispatch_short2(c, ci_lwsp(0, w as u32));
    lemma_dispatch_short2(c, ci_ldsp(3, 0, q as u32));
}

} // verus!
