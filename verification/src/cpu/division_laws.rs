//! Division of words, and products without carries.

#[allow(unused_imports)]
use crate::alu::{
    abs, clmul_upto, clmulh_upto, clmulr_upto, divw_spec, remw_spec, sext32, signed32, to32,
    trunc_div, trunc_rem, word,
};
#[allow(unused_imports)]
use crate::cpu::formats::{gives, low_num, named, num, r_format, reg};
#[allow(unused_imports)]
use crate::cpu::integer_laws::{left_in, lemma_op, lemma_op32, only_writes};
#[allow(unused_imports)]
use crate::cpu::CpuView;
use vstd::prelude::*;

verus! {

/// Quotient and remainder of words as numbers.
#[verifier::rlimit(60)]
proof fn lemma_word_quotient(a: u32, b: u32)
    requires
        b != 0,
        !(signed32(a) == -0x8000_0000 && signed32(b) == -1),
    ensures
        signed32(divw_spec(a, b)) == trunc_div(signed32(a), signed32(b)),
        signed32(remw_spec(a, b)) == trunc_rem(signed32(a), signed32(b)),
        signed32(a) == trunc_div(signed32(a), signed32(b)) * signed32(b) + trunc_rem(
            signed32(a),
            signed32(b),
        ),
        abs(trunc_rem(signed32(a), signed32(b))) < abs(signed32(b)),
        trunc_rem(signed32(a), signed32(b)) == 0 || (trunc_rem(signed32(a), signed32(b)) < 0) == (
        signed32(a) < 0),
{
    let x = signed32(a);
    let y = signed32(b);
    let m = abs(x);
    let n = abs(y);
    assert(0 <= m % n < n && m == (m / n) * n + m % n && 0 <= m / n <= m && (n >= 2 ==> m / n * 2
        <= m)) by (nonlinear_arith)
        requires
            n > 0,
            m >= 0,
    ;
    assert(-0x8000_0000 <= trunc_div(x, y) < 0x8000_0000);
    let q = m / n;
    assert((-q) * y == q * (-y)) by (nonlinear_arith);
    assert(q * y == -(q * (-y))) by (nonlinear_arith);
}

/// DIVW and REMW divide the low words as signed numbers: dividend = quotient * divisor +
/// remainder, the remainder being smaller than the divisor and having the sign of the
/// dividend. A division by zero gives -1 and the dividend, and -2^31 / -1 wraps and leaves
/// nothing.
#[verifier::rlimit(60)]
pub proof fn law_word_division(c: CpuView, d: u32, a: u32, b: u32)
    requires
        named(c, d, a, b),
        d != 0,
    ensures
        ({
            let div = r_format(0x3B, 4, 0x01, d, a, b);
            let rem = r_format(0x3B, 6, 0x01, d, a, b);
            let x = low_num(reg(c, a));
            let y = low_num(reg(c, b));
            let q = num(left_in(c, div, d));
            let r = num(left_in(c, rem, d));
            &&& only_writes(c, div, d)
            &&& only_writes(c, rem, d)
            &&& y == 0 ==> q == -1 && r == x
            &&& x == -0x8000_0000 && y == -1 ==> q == x && r == 0
            &&& y != 0 && !(x == -0x8000_0000 && y == -1) ==> {
                &&& x == q * y + r
                &&& (if r < 0 {
                    -r
                } else {
                    r
                }) < (if y < 0 {
                    -y
                } else {
                    y
                })
                &&& r == 0 || (r < 0) == (x < 0)
            }
        }),
{
    lemma_op32(c, 4, 0x01, d, a, b);
    lemma_op32(c, 6, 0x01, d, a, b);
    let x = word(reg(c, a));
    let y = word(reg(c, b));
    assert(signed32(x) == low_num(reg(c, a)) && signed32(y) == low_num(reg(c, b)));
    if y != 0 && !(signed32(x) == -0x8000_0000 && signed32(y) == -1) {
        lemma_word_quotient(x, y);
    }
}

/// The product by one bit, without carries.
#[verifier::rlimit(60)]
proof fn lemma_product_by_bit(x: u64, k: u64, n: nat)
    requires
        k < 64,
        n <= 64,
    ensures
        clmul_upto(x, 1u64 << k, n) == (if k < n {
            x << k
        } else {
            0
        }),
        clmulh_upto(x, 1u64 << k, n) == (if 0 < k < n {
            x >> ((64 - k) as u64)
        } else {
            0
        }),
        clmulr_upto(x, 1u64 << k, n) == (if k < n {
            x >> ((63 - k) as u64)
        } else {
            0
        }),
    decreases n,
{
    if n > 0 {
        lemma_product_by_bit(x, k, (n - 1) as nat);
        let i = (n - 1) as u64;
        let p = x << k;
        let h = x >> ((64 - k) as u64);
        let r = x >> ((63 - k) as u64);
        assert(((1u64 << k) >> i) & 1 == (if i == k { 1u64 } else { 0u64 }) && 0 ^ p == p && 0 ^ h
            == h && 0 ^ r == r) by (bit_vector)
            requires
                k < 64,
                i < 64,
        ;
    }
}

/// CLMUL, CLMULH and CLMULR by a power of two are shifts: to the left, and to the right by
/// what is missing to 64 and to 63 bits.
#[verifier::rlimit(60)]
pub proof fn law_products_by_bits(c: CpuView, d: u32, a: u32, b: u32, k: u64)
    requires
        named(c, d, a, b),
        k < 64,
        reg(c, b) == 1u64 << k,
    ensures
        ({
            let x = reg(c, a);
            &&& c.exec(r_format(0x33, 1, 0x05, d, a, b)) == gives(c, d, x << k)
            &&& c.exec(r_format(0x33, 3, 0x05, d, a, b)) == gives(
                c,
                d,
                if k == 0 {
                    0
                } else {
                    x >> ((64 - k) as u64)
                },
            )
            &&& c.exec(r_format(0x33, 2, 0x05, d, a, b)) == gives(c, d, x >> ((63 - k) as u64))
        }),
{
    lemma_op(c, 1, 0x05, d, a, b);
    lemma_op(c, 3, 0x05, d, a, b);
    lemma_op(c, 2, 0x05, d, a, b);
    lemma_product_by_bit(reg(c, a), k, 64);
}

} // verus!
