//! What the instructions that count bits and move bytes compute.

#[allow(unused_imports)]
use crate::alu::{
    bit_length, lemma_popcount_bound, orc_b_spec, popcount, rev8_spec, trailing_zeros, word,
};
#[allow(unused_imports)]
use crate::bytes::{
    law_le_bytes_of_value, law_le_value_of_bytes, le_bytes, le_value, lemma_byte_ranges,
    lemma_le_bytes_len, lemma_le_value_bound,
};
#[allow(unused_imports)]
use crate::cpu::formats::{gives, i_format, named, reg, wrap};
#[allow(unused_imports)]
use crate::cpu::integer_laws::{left_in, lemma_op_imm, lemma_op_imm32, only_writes};
#[allow(unused_imports)]
use crate::cpu::CpuView;
use vstd::prelude::*;

verus! {

/// CLZ on register `a` to register `d`.
pub open spec fn clz(d: u32, a: u32) -> u32 {
    i_format(0x13, 1, d, a, 0x600)
}

/// CTZ.
pub open spec fn ctz(d: u32, a: u32) -> u32 {
    i_format(0x13, 1, d, a, 0x601)
}

/// CPOP.
pub open spec fn cpop(d: u32, a: u32) -> u32 {
    i_format(0x13, 1, d, a, 0x602)
}

/// What the three counting instructions leave.
#[verifier::rlimit(60)]
proof fn lemma_counts(c: CpuView, d: u32, a: u32)
    requires
        named(c, d, a, 0),
        d != 0,
    ensures
        only_writes(c, clz(d, a), d) && only_writes(c, ctz(d, a), d) && only_writes(c, cpop(d, a), d),
        left_in(c, clz(d, a), d) == (64 - bit_length(reg(c, a) as nat)) as u64,
        left_in(c, ctz(d, a), d) == trailing_zeros(reg(c, a) as nat, 64) as u64,
        left_in(c, cpop(d, a), d) == popcount(reg(c, a) as nat) as u64,
{
    lemma_op_imm(c, 1, d, a, 0x600);
    lemma_op_imm(c, 1, d, a, 0x601);
    lemma_op_imm(c, 1, d, a, 0x602);
}

/// A count ends within the width.
#[verifier::rlimit(60)]
proof fn lemma_trailing(v: nat, w: nat)
    requires
        v > 0,
        v < vstd::arithmetic::power2::pow2(w),
    ensures
        trailing_zeros(v, w) == trailing_zeros(v, w + 1),
        trailing_zeros(v, w) < w,
    decreases w,
{
    vstd::arithmetic::power2::lemma2_to64();
    if w > 0 && v % 2 == 0 {
        vstd::arithmetic::power2::lemma_pow2_unfold(w);
        lemma_trailing(v / 2, (w - 1) as nat);
    }
}

/// How many digits a number has at most.
#[verifier::rlimit(60)]
proof fn lemma_length(v: nat, w: nat)
    requires
        v < vstd::arithmetic::power2::pow2(w),
    ensures
        bit_length(v) <= w,
        popcount(v) <= w,
    decreases w,
{
    vstd::arithmetic::power2::lemma2_to64();
    if v != 0 {
        vstd::arithmetic::power2::lemma_pow2_unfold(w);
        lemma_length(v / 2, (w - 1) as nat);
    }
}

/// The counts follow the digits: of zero there are 64 leading and 64 trailing zeros and no
/// ones. A further digit at the end takes a leading zero away; if it is a one it is one
/// more, and no zero trails; if it is a zero there is one more of those. This holds of two
/// harts whose registers `a` differ by such a digit.
#[verifier::rlimit(60)]
pub proof fn law_counts(c: CpuView, e: CpuView, d: u32, a: u32, digit: int)
    requires
        named(c, d, a, 0),
        named(e, d, a, 0),
        d != 0,
        digit == 0 || digit == 1,
        reg(e, a) == 2 * reg(c, a) + digit,
    ensures
        only_writes(c, clz(d, a), d) && only_writes(c, ctz(d, a), d) && only_writes(c, cpop(d, a), d),
        reg(c, a) == 0 ==> left_in(c, clz(d, a), d) == 64 && left_in(c, ctz(d, a), d) == 64
            && left_in(c, cpop(d, a), d) == 0,
        reg(e, a) != 0 ==> left_in(e, clz(d, a), d) == left_in(c, clz(d, a), d) - 1,
        left_in(e, cpop(d, a), d) == left_in(c, cpop(d, a), d) + digit,
        digit == 1 ==> left_in(e, ctz(d, a), d) == 0,
        digit == 0 && reg(c, a) != 0 ==> left_in(e, ctz(d, a), d) == left_in(c, ctz(d, a), d) + 1,
{
    lemma_counts(c, d, a);
    lemma_counts(e, d, a);
    let x = reg(c, a) as nat;
    let y = reg(e, a) as nat;
    assert(y / 2 == x && y % 2 == digit);
    vstd::arithmetic::power2::lemma2_to64();
    vstd::arithmetic::power2::lemma2_to64_rest();
    lemma_length(x, 63);
    lemma_length(y, 64);
    if x > 0 {
        lemma_trailing(x, 63);
    } else {
        lemma_all_zeros(64);
    }
}

/// Zero has zeros only.
#[verifier::rlimit(60)]
proof fn lemma_all_zeros(w: nat)
    ensures
        trailing_zeros(0, w) == w,
    decreases w,
{
    if w > 0 {
        lemma_all_zeros((w - 1) as nat);
    }
}

/// Beyond its highest digit a number has no trailing zeros to count.
#[verifier::rlimit(60)]
proof fn lemma_trailing_wider(v: nat, w: nat)
    requires
        v > 0,
        v < vstd::arithmetic::power2::pow2(32),
        32 <= w,
    ensures
        trailing_zeros(v, w) == trailing_zeros(v, 32),
    decreases w,
{
    if w > 32 {
        let u = (w - 1) as nat;
        if u > 32 {
            vstd::arithmetic::power2::lemma_pow2_strictly_increases(32, u);
        }
        lemma_trailing(v, u);
        lemma_trailing_wider(v, u);
    }
}

/// CLZW, CTZW and CPOPW count in the low word: they give what CLZ less 32, CTZ and CPOP give
/// on a hart that has the low word alone in its register, but for 32 trailing zeros in a low
/// word of zeros.
#[verifier::rlimit(60)]
pub proof fn law_word_counts(c: CpuView, e: CpuView, d: u32, a: u32)
    requires
        named(c, d, a, 0),
        named(e, d, a, 0),
        d != 0,
        reg(e, a) == reg(c, a) % 0x1_0000_0000,
    ensures
        ({
            let clzw = i_format(0x1B, 1, d, a, 0x600);
            let ctzw = i_format(0x1B, 1, d, a, 0x601);
            let cpopw = i_format(0x1B, 1, d, a, 0x602);
            &&& only_writes(c, clzw, d) && only_writes(c, ctzw, d) && only_writes(c, cpopw, d)
            &&& left_in(c, clzw, d) == left_in(e, clz(d, a), d) - 32
            &&& left_in(c, cpopw, d) == left_in(e, cpop(d, a), d)
            &&& reg(e, a) != 0 ==> left_in(c, ctzw, d) == left_in(e, ctz(d, a), d)
            &&& reg(e, a) == 0 ==> left_in(c, ctzw, d) == 32
        }),
{
    lemma_counts(e, d, a);
    lemma_op_imm32(c, 1, d, a, 0x600);
    lemma_op_imm32(c, 1, d, a, 0x601);
    lemma_op_imm32(c, 1, d, a, 0x602);
    vstd::arithmetic::power2::lemma2_to64();
    let w = reg(e, a) as nat;
    lemma_length(w, 32);
    if w > 0 {
        lemma_trailing(w, 32);
        lemma_trailing_wider(w, 64);
    } else {
        lemma_all_zeros(32);
    }
}

/// REV8 puts the bytes of a register in the opposite order, so that the lowest becomes the
/// highest; ORC.B makes each byte that is not zero all ones.
#[verifier::rlimit(60)]
pub proof fn law_bytes(c: CpuView, d: u32, a: u32, i: int)
    requires
        named(c, d, a, 0),
        d != 0,
        0 <= i < 8,
    ensures
        ({
            let rev = i_format(0x13, 5, d, a, 0x6B8);
            let orc = i_format(0x13, 5, d, a, 0x287);
            let x = reg(c, a);
            &&& only_writes(c, rev, d)
            &&& only_writes(c, orc, d)
            &&& le_bytes(left_in(c, rev, d) as nat, 8)[i] == le_bytes(x as nat, 8)[7 - i]
            &&& le_bytes(left_in(c, orc, d) as nat, 8)[i] == (if le_bytes(x as nat, 8)[i] == 0 {
                0u8
            } else {
                255u8
            })
            &&& le_bytes(x as nat, 8)[0] == x % 256
        }),
{
    lemma_op_imm(c, 5, d, a, 0x6B8);
    lemma_op_imm(c, 5, d, a, 0x287);
    let x = reg(c, a);
    let s = le_bytes(x as nat, 8);
    lemma_le_bytes_len(x as nat, 8);
    lemma_byte_ranges();
    let r = s.reverse();
    let o = s.map_values(|b: u8| crate::alu::or_combine(b));
    lemma_le_value_bound(r);
    lemma_le_value_bound(o);
    law_le_bytes_of_value(r);
    law_le_bytes_of_value(o);
}

} // verus!
