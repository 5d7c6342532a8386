//! Integer arithmetic of the instruction set, on 64-bit and 32-bit register
//! values. Numbers are unsigned; `signed` says what a value means in two's
//! complement.

#[allow(unused_imports)]
use crate::bytes::{
    law_le_bytes_of_value, law_le_value_of_bytes, le_bytes, le_value, lemma_byte_range_grows,
    lemma_byte_ranges, lemma_le_bytes_len, lemma_le_value_bound,
};
use vstd::prelude::*;

verus! {

/// The sign bit of a 64-bit value.
pub const SIGN64: u64 = 0x8000_0000_0000_0000;

/// The sign bit of a 32-bit value.
pub const SIGN32: u32 = 0x8000_0000;

/// The number that `v` means in two's complement.
pub open spec fn signed(v: u64) -> int {
    if v >= SIGN64 {
        v - 0x1_0000_0000_0000_0000
    } else {
        v as int
    }
}

/// The number that `v` means in two's complement.
pub open spec fn signed32(v: u32) -> int {
    if v >= SIGN32 {
        v - 0x1_0000_0000
    } else {
        v as int
    }
}

/// The 64-bit value of a number, modulo 2^64.
pub open spec fn to64(n: int) -> u64 {
    (n % 0x1_0000_0000_0000_0000) as u64
}

/// The 32-bit value of a number, modulo 2^32.
pub open spec fn to32(n: int) -> u32 {
    (n % 0x1_0000_0000) as u32
}

/// The low half of `v`.
pub open spec fn word(v: u64) -> u32 {
    (v % 0x1_0000_0000) as u32
}

/// A 32-bit value sign-extended to 64 bits.
pub open spec fn sext32(v: u32) -> u64 {
    to64(signed32(v))
}

/// A value of `2 * half` possible values, `half` being a power of two,
/// sign-extended to 64 bits: those from `half` on are negative.
pub open spec fn sext(v: u64, half: u64) -> u64 {
    if v >= half {
        to64(v - 2 * half)
    } else {
        v
    }
}

/// The quotient rounded towards zero.
pub open spec fn trunc_div(x: int, y: int) -> int {
    let q = abs(x) / abs(y);
    if (x < 0) == (y < 0) {
        q
    } else {
        -q
    }
}

/// The remainder that goes with `trunc_div`: it has the sign of the dividend.
pub open spec fn trunc_rem(x: int, y: int) -> int {
    let r = abs(x) % abs(y);
    if x < 0 {
        -r
    } else {
        r
    }
}

/// The absolute value.
pub open spec fn abs(x: int) -> int {
    if x < 0 {
        -x
    } else {
        x
    }
}

/// Division: by zero it gives all ones, and the one quotient that does not fit
/// wraps to the dividend.
pub open spec fn div_spec(a: u64, b: u64) -> u64 {
    if b == 0 {
        u64::MAX
    } else {
        to64(trunc_div(signed(a), signed(b)))
    }
}

/// Remainder: by zero it gives the dividend.
pub open spec fn rem_spec(a: u64, b: u64) -> u64 {
    if b == 0 {
        a
    } else {
        to64(trunc_rem(signed(a), signed(b)))
    }
}

/// Division of 32-bit values.
pub open spec fn divw_spec(a: u32, b: u32) -> u32 {
    if b == 0 {
        u32::MAX
    } else {
        to32(trunc_div(signed32(a), signed32(b)))
    }
}

/// Remainder of 32-bit values.
pub open spec fn remw_spec(a: u32, b: u32) -> u32 {
    if b == 0 {
        a
    } else {
        to32(trunc_rem(signed32(a), signed32(b)))
    }
}

/// The high half of the unsigned product.
pub open spec fn mulhu_spec(a: u64, b: u64) -> u64 {
    to64((a * b) / 0x1_0000_0000_0000_0000)
}

/// The high half of the signed product.
pub open spec fn mulh_spec(a: u64, b: u64) -> u64 {
    to64((signed(a) * signed(b)) / 0x1_0000_0000_0000_0000)
}

/// The high half of the product of a signed and an unsigned value.
pub open spec fn mulhsu_spec(a: u64, b: u64) -> u64 {
    to64((signed(a) * b) / 0x1_0000_0000_0000_0000)
}

/// Arithmetic shift to the right: the copies of the sign bit come in.
pub open spec fn sra_spec(a: u64, n: u64) -> u64 {
    ((a as i64) >> n) as u64
}

/// Arithmetic shift of a 32-bit value to the right.
pub open spec fn sraw_spec(a: u32, n: u32) -> u32 {
    ((a as i32) >> n) as u32
}

/// The smaller of two signed values.
pub open spec fn min_spec(a: u64, b: u64) -> u64 {
    if signed(a) <= signed(b) {
        a
    } else {
        b
    }
}

/// The larger of two signed values.
pub open spec fn max_spec(a: u64, b: u64) -> u64 {
    if signed(a) <= signed(b) {
        b
    } else {
        a
    }
}

/// The smaller of two unsigned values.
pub open spec fn minu_spec(a: u64, b: u64) -> u64 {
    if a <= b {
        a
    } else {
        b
    }
}

/// The larger of two unsigned values.
pub open spec fn maxu_spec(a: u64, b: u64) -> u64 {
    if a <= b {
        b
    } else {
        a
    }
}

/// Rotation to the right.
pub open spec fn ror_spec(v: u64, n: u64) -> u64 {
    if n == 0 {
        v
    } else {
        (v >> n) | (v << ((64 - n) as u64))
    }
}

/// Rotation to the left.
pub open spec fn rol_spec(v: u64, n: u64) -> u64 {
    if n == 0 {
        v
    } else {
        (v << n) | (v >> ((64 - n) as u64))
    }
}

/// Rotation of a 32-bit value to the right.
pub open spec fn rorw_spec(v: u32, n: u32) -> u32 {
    if n == 0 {
        v
    } else {
        (v >> n) | (v << ((32 - n) as u32))
    }
}

/// Rotation of a 32-bit value to the left.
pub open spec fn rolw_spec(v: u32, n: u32) -> u32 {
    if n == 0 {
        v
    } else {
        (v << n) | (v >> ((32 - n) as u32))
    }
}

/// How many bits of `v` are set.
pub open spec fn popcount(v: nat) -> nat
    decreases v,
{
    if v == 0 {
        0
    } else {
        v % 2 + popcount(v / 2)
    }
}

/// How many binary digits `v` has, without leading zeros.
pub open spec fn bit_length(v: nat) -> nat
    decreases v,
{
    if v == 0 {
        0
    } else {
        1 + bit_length(v / 2)
    }
}

/// How many zeros the binary digits of `v`, `width` of them, end with.
pub open spec fn trailing_zeros(v: nat, width: nat) -> nat
    decreases width,
{
    if width == 0 || v % 2 == 1 {
        0
    } else {
        1 + trailing_zeros(v / 2, (width - 1) as nat)
    }
}

/// The bytes of `v` in the opposite order.
pub open spec fn rev8_spec(v: u64) -> u64 {
    le_value(le_bytes(v as nat, 8).reverse()) as u64
}

/// A byte of ones for every byte that is not zero.
pub open spec fn or_combine(b: u8) -> u8 {
    if b == 0 {
        0
    } else {
        255
    }
}

/// `or_combine` on each byte of `v`.
pub open spec fn orc_b_spec(v: u64) -> u64 {
    le_value(le_bytes(v as nat, 8).map_values(|b: u8| or_combine(b))) as u64
}

/// The carry-less product of `a` and the low `n` bits of `b`, its low half.
pub open spec fn clmul_upto(a: u64, b: u64, n: nat) -> u64
    decreases n,
{
    if n == 0 {
        0
    } else {
        let r = clmul_upto(a, b, (n - 1) as nat);
        let i = (n - 1) as u64;
        if (b >> i) & 1 == 1 {
            r ^ (a << i)
        } else {
            r
        }
    }
}

/// The carry-less product of `a` and the low `n` bits of `b`, its high half.
pub open spec fn clmulh_upto(a: u64, b: u64, n: nat) -> u64
    decreases n,
{
    if n <= 1 {
        0
    } else {
        let r = clmulh_upto(a, b, (n - 1) as nat);
        let i = (n - 1) as u64;
        if (b >> i) & 1 == 1 {
            r ^ (a >> ((64 - i) as u64))
        } else {
            r
        }
    }
}

/// The carry-less product of `a` and the low `n` bits of `b`, bits 126 to 63.
pub open spec fn clmulr_upto(a: u64, b: u64, n: nat) -> u64
    decreases n,
{
    if n == 0 {
        0
    } else {
        let r = clmulr_upto(a, b, (n - 1) as nat);
        let i = (n - 1) as u64;
        if (b >> i) & 1 == 1 {
            r ^ (a >> ((63 - i) as u64))
        } else {
            r
        }
    }
}

/// The low half of `v`.
pub fn low_word(v: u64) -> (r: u32)
    ensures
        r == word(v),
{
    (v % 0x1_0000_0000) as u32
}

/// Sign-extends a 32-bit value.
pub fn sext_word(v: u32) -> (r: u64)
    ensures
        r == sext32(v),
{
    if v >= SIGN32 {
        v as u64 + 0xFFFF_FFFF_0000_0000
    } else {
        v as u64
    }
}

/// Sign-extends a value of `2 * half` possible values.
pub fn sign_extend(v: u64, half: u64) -> (r: u64)
    requires
        0 < half <= 0x8000_0000_0000_0000,
        v < 2 * half,
    ensures
        r == sext(v, half),
{
    if v >= half {
        if half == SIGN64 {
            v
        } else {
            v + (u64::MAX - (2 * half - 1))
        }
    } else {
        v
    }
}

/// Signed less-than.
pub fn lt(a: u64, b: u64) -> (r: bool)
    ensures
        r == (signed(a) < signed(b)),
{
    a.wrapping_add(SIGN64) < b.wrapping_add(SIGN64)
}

/// Signed less-than of 32-bit values.
pub fn ltw(a: u32, b: u32) -> (r: bool)
    ensures
        r == (signed32(a) < signed32(b)),
{
    a.wrapping_add(SIGN32) < b.wrapping_add(SIGN32)
}

/// The absolute value of what `v` means.
fn magnitude(v: u64) -> (m: u64)
    ensures
        m == abs(signed(v)),
{
    if v >= SIGN64 {
        0u64.wrapping_sub(v)
    } else {
        v
    }
}

/// The absolute value of what `v` means.
fn magnitude32(v: u32) -> (m: u32)
    ensures
        m == abs(signed32(v)),
{
    if v >= SIGN32 {
        0u32.wrapping_sub(v)
    } else {
        v
    }
}

/// Signed division.
pub fn div(a: u64, b: u64) -> (r: u64)
    ensures
        r == div_spec(a, b),
{
    if b == 0 {
        return u64::MAX;
    }
    let x: u64 = magnitude(a);
    let y: u64 = magnitude(b);
    let q: u64 = x / y;
    assert(0 <= x / y <= x) by (nonlinear_arith)
        requires
            y > 0,
    ;
    if (a >= SIGN64) == (b >= SIGN64) {
        q
    } else {
        0u64.wrapping_sub(q)
    }
}

/// Signed remainder.
pub fn rem(a: u64, b: u64) -> (r: u64)
    ensures
        r == rem_spec(a, b),
{
    if b == 0 {
        return a;
    }
    let m: u64 = magnitude(a) % magnitude(b);
    if a >= SIGN64 {
        0u64.wrapping_sub(m)
    } else {
        m
    }
}

/// Unsigned division: by zero it gives all ones.
pub fn divu(a: u64, b: u64) -> (r: u64)
    ensures
        r == if b == 0 {
            u64::MAX
        } else {
            a / b
        },
{
    if b == 0 {
        u64::MAX
    } else {
        a / b
    }
}

/// Unsigned remainder: by zero it gives the dividend.
pub fn remu(a: u64, b: u64) -> (r: u64)
    ensures
        r == if b == 0 {
            a
        } else {
            a % b
        },
{
    if b == 0 {
        a
    } else {
        a % b
    }
}

/// Signed division of 32-bit values.
pub fn divw(a: u32, b: u32) -> (r: u32)
    ensures
        r == divw_spec(a, b),
{
    if b == 0 {
        return u32::MAX;
    }
    let x: u32 = magnitude32(a);
    let y: u32 = magnitude32(b);
    let q: u32 = x / y;
    assert(0 <= x / y <= x) by (nonlinear_arith)
        requires
            y > 0,
    ;
    if (a >= SIGN32) == (b >= SIGN32) {
        q
    } else {
        0u32.wrapping_sub(q)
    }
}

/// Signed remainder of 32-bit values.
pub fn remw(a: u32, b: u32) -> (r: u32)
    ensures
        r == remw_spec(a, b),
{
    if b == 0 {
        return a;
    }
    let m: u32 = magnitude32(a) % magnitude32(b);
    if a >= SIGN32 {
        0u32.wrapping_sub(m)
    } else {
        m
    }
}

/// Unsigned division of 32-bit values.
pub fn divuw(a: u32, b: u32) -> (r: u32)
    ensures
        r == if b == 0 {
            u32::MAX
        } else {
            a / b
        },
{
    if b == 0 {
        u32::MAX
    } else {
        a / b
    }
}

/// Unsigned remainder of 32-bit values.
pub fn remuw(a: u32, b: u32) -> (r: u32)
    ensures
        r == if b == 0 {
            a
        } else {
            a % b
        },
{
    if b == 0 {
        a
    } else {
        a % b
    }
}

/// The high half of the unsigned product.
pub fn mulhu(a: u64, b: u64) -> (r: u64)
    ensures
        r == mulhu_spec(a, b),
{
    assert(0 <= a * b <= 0xFFFF_FFFF_FFFF_FFFF * 0xFFFF_FFFF_FFFF_FFFF) by (nonlinear_arith);
    let p: u128 = a as u128 * b as u128;
    (p / 0x1_0000_0000_0000_0000) as u64
}

/// The high half of the signed product: what the unsigned product counts too
/// much for each negative factor is taken off.
#[verifier::rlimit(30)]
pub fn mulh(a: u64, b: u64) -> (r: u64)
    ensures
        r == mulh_spec(a, b),
{
    assert(0 <= a * b <= 0xFFFF_FFFF_FFFF_FFFF * 0xFFFF_FFFF_FFFF_FFFF) by (nonlinear_arith);
    let high: u64 = mulhu(a, b);
    assert((a - 0x1_0000_0000_0000_0000) * (b - 0x1_0000_0000_0000_0000) == a * b
        - 0x1_0000_0000_0000_0000 * (a + b - 0x1_0000_0000_0000_0000)) by (nonlinear_arith);
    assert((a - 0x1_0000_0000_0000_0000) * b == a * b - 0x1_0000_0000_0000_0000 * b)
        by (nonlinear_arith);
    assert(a * (b - 0x1_0000_0000_0000_0000) == a * b - 0x1_0000_0000_0000_0000 * a)
        by (nonlinear_arith);
    let x: u64 = if a >= SIGN64 {
        high.wrapping_sub(b)
    } else {
        high
    };
    if b >= SIGN64 {
        x.wrapping_sub(a)
    } else {
        x
    }
}

/// The high half of the product of a signed and an unsigned value.
pub fn mulhsu(a: u64, b: u64) -> (r: u64)
    ensures
        r == mulhsu_spec(a, b),
{
    assert(0 <= a * b <= 0xFFFF_FFFF_FFFF_FFFF * 0xFFFF_FFFF_FFFF_FFFF) by (nonlinear_arith);
    let high: u64 = mulhu(a, b);
    assert((a - 0x1_0000_0000_0000_0000) * b == a * b - 0x1_0000_0000_0000_0000 * b)
        by (nonlinear_arith);
    if a >= SIGN64 {
        high.wrapping_sub(b)
    } else {
        high
    }
}

/// Shifts to the right arithmetically.
pub fn sra(a: u64, n: u64) -> (r: u64)
    requires
        n < 64,
    ensures
        r == sra_spec(a, n),
{
    ((a as i64) >> n) as u64
}

/// Shifts a 32-bit value to the right arithmetically.
pub fn sraw(a: u32, n: u32) -> (r: u32)
    requires
        n < 32,
    ensures
        r == sraw_spec(a, n),
{
    ((a as i32) >> n) as u32
}

/// The smaller of two signed values.
pub fn min(a: u64, b: u64) -> (r: u64)
    ensures
        r == min_spec(a, b),
{
    if lt(b, a) {
        b
    } else {
        a
    }
}

/// The larger of two signed values.
pub fn max(a: u64, b: u64) -> (r: u64)
    ensures
        r == max_spec(a, b),
{
    if lt(b, a) {
        a
    } else {
        b
    }
}

/// The smaller of two unsigned values.
pub fn minu(a: u64, b: u64) -> (r: u64)
    ensures
        r == minu_spec(a, b),
{
    if a <= b {
        a
    } else {
        b
    }
}

/// The larger of two unsigned values.
pub fn maxu(a: u64, b: u64) -> (r: u64)
    ensures
        r == maxu_spec(a, b),
{
    if a <= b {
        b
    } else {
        a
    }
}

/// Rotates to the right.
pub fn ror(v: u64, n: u64) -> (r: u64)
    requires
        n < 64,
    ensures
        r == ror_spec(v, n),
{
    if n == 0 {
        v
    } else {
        (v >> n) | (v << (64 - n))
    }
}

/// Rotates to the left.
pub fn rol(v: u64, n: u64) -> (r: u64)
    requires
        n < 64,
    ensures
        r == rol_spec(v, n),
{
    if n == 0 {
        v
    } else {
        (v << n) | (v >> (64 - n))
    }
}

/// Rotates a 32-bit value to the right.
pub fn rorw(v: u32, n: u32) -> (r: u32)
    requires
        n < 32,
    ensures
        r == rorw_spec(v, n),
{
    if n == 0 {
        v
    } else {
        (v >> n) | (v << (32 - n))
    }
}

/// Rotates a 32-bit value to the left.
pub fn rolw(v: u32, n: u32) -> (r: u32)
    requires
        n < 32,
    ensures
        r == rolw_spec(v, n),
{
    if n == 0 {
        v
    } else {
        (v << n) | (v >> (32 - n))
    }
}

/// A number has at most as many set bits as its value.
pub proof fn lemma_popcount_bound(v: nat)
    ensures
        popcount(v) <= v,
    decreases v,
{
    if v != 0 {
        lemma_popcount_bound(v / 2);
    }
}

/// Counts the set bits.
pub fn cpop(v: u64) -> (n: u64)
    ensures
        n == popcount(v as nat),
{
    let mut x: u64 = v;
    let mut n: u64 = 0;
    while x != 0
        invariant
            n + popcount(x as nat) == popcount(v as nat),
        decreases x,
    {
        proof {
            lemma_popcount_bound(v as nat);
        }
        n = n + x % 2;
        x = x / 2;
    }
    n
}

/// `2^n`.
spec fn power(n: nat) -> nat
    decreases n,
{
    if n == 0 {
        1
    } else {
        2 * power((n - 1) as nat)
    }
}

/// A number below `2^n` has at most `n` binary digits.
proof fn lemma_bit_length(v: nat, n: nat)
    requires
        v < power(n),
    ensures
        bit_length(v) <= n,
    decreases n,
{
    if v != 0 {
        lemma_bit_length(v / 2, (n - 1) as nat);
    }
}

/// `2^64` and `2^32`.
proof fn lemma_powers()
    ensures
        power(64) == 0x1_0000_0000_0000_0000,
        power(32) == 0x1_0000_0000,
{
    reveal_with_fuel(power, 65);
}

/// Counts the leading zeros of `width` binary digits.
fn leading(v: u64, width: u64) -> (n: u64)
    requires
        bit_length(v as nat) <= width,
    ensures
        n == width - bit_length(v as nat),
{
    let mut x: u64 = v;
    let mut n: u64 = width;
    while x != 0
        invariant
            bit_length(v as nat) <= width,
            n - bit_length(x as nat) == width - bit_length(v as nat),
        decreases x,
    {
        x = x / 2;
        n = n - 1;
    }
    n
}

/// Counts the leading zeros.
pub fn clz(v: u64) -> (n: u64)
    ensures
        n == 64 - bit_length(v as nat),
{
    proof {
        lemma_powers();
        lemma_bit_length(v as nat, 64);
    }
    leading(v, 64)
}

/// Counts the leading zeros of a 32-bit value.
pub fn clzw(v: u32) -> (n: u32)
    ensures
        n == 32 - bit_length(v as nat),
{
    proof {
        lemma_powers();
        lemma_bit_length(v as nat, 32);
    }
    leading(v as u64, 32) as u32
}

/// Counts the trailing zeros of `width` binary digits.
pub fn ctz(v: u64, width: u64) -> (n: u64)
    ensures
        n == trailing_zeros(v as nat, width as nat),
        n <= width,
{
    let mut x: u64 = v;
    let mut n: u64 = 0;
    while n < width && x % 2 == 0
        invariant
            n <= width,
            n + trailing_zeros(x as nat, (width - n) as nat) == trailing_zeros(
                v as nat,
                width as nat,
            ),
        decreases width - n,
    {
        x = x / 2;
        n = n + 1;
    }
    n
}

/// What is left of the bytes of `v` after the lowest.
proof fn lemma_next_byte(v: nat, n: nat)
    requires
        n > 0,
    ensures
        le_bytes(v, n)[0] == (v % 256) as u8,
        le_bytes(v, n).skip(1) == le_bytes(v / 256, (n - 1) as nat),
{
    lemma_le_bytes_len(v / 256, (n - 1) as nat);
    assert(le_bytes(v, n).skip(1) =~= le_bytes(v / 256, (n - 1) as nat));
}

/// The number spelled by some bytes behind one more.
proof fn lemma_value_of_cons(b: u8, s: Seq<u8>)
    ensures
        le_value(seq![b] + s) == b + 256 * le_value(s),
{
    assert((seq![b] + s).drop_first() =~= s);
}

/// Reverses the order of the bytes.
pub fn rev8(v: u64) -> (r: u64)
    ensures
        r == rev8_spec(v),
{
    let ghost s = le_bytes(v as nat, 8);
    proof {
        lemma_le_bytes_len(v as nat, 8);
    }
    let mut x: u64 = v;
    let mut r: u64 = 0;
    let mut i: u64 = 0;
    while i < 8
        invariant
            i <= 8,
            s.len() == 8,
            s.skip(i as int) == le_bytes(x as nat, (8 - i) as nat),
            r == le_value(s.take(i as int).reverse()),
        decreases 8 - i,
    {
        proof {
            let b = s[i as int];
            lemma_next_byte(x as nat, (8 - i) as nat);
            assert(s.skip(i as int)[0] == b);
            assert(s.skip(i as int).skip(1) =~= s.skip(i + 1));
            assert(s.take(i + 1).reverse() =~= seq![b] + s.take(i as int).reverse());
            lemma_value_of_cons(b, s.take(i as int).reverse());
            lemma_le_value_bound(s.take(i + 1).reverse());
            lemma_byte_range_grows((i + 1) as nat, 8);
            lemma_byte_ranges();
        }
        r = r * 256 + x % 256;
        x = x / 256;
        i = i + 1;
    }
    assert(s.take(8) =~= s);
    r
}

/// Turns every byte that is not zero into ones.
pub fn orc_b(v: u64) -> (r: u64)
    ensures
        r == orc_b_spec(v),
{
    let ghost s = le_bytes(v as nat, 8);
    let ghost t = s.map_values(|b: u8| or_combine(b));
    proof {
        lemma_le_bytes_len(v as nat, 8);
    }
    let mut x: u64 = v;
    let mut r: u64 = 0;
    let mut i: u64 = 0;
    while i < 8
        invariant
            i <= 8,
            s.len() == 8,
            t == s.map_values(|b: u8| or_combine(b)),
            s.skip(i as int) == le_bytes(x as nat, (8 - i) as nat),
            r == le_value(t.take(i as int).reverse()),
        decreases 8 - i,
    {
        proof {
            let b = t[i as int];
            lemma_next_byte(x as nat, (8 - i) as nat);
            assert(s.skip(i as int)[0] == s[i as int]);
            assert(s.skip(i as int).skip(1) =~= s.skip(i + 1));
            assert(t.take(i + 1).reverse() =~= seq![b] + t.take(i as int).reverse());
            lemma_value_of_cons(b, t.take(i as int).reverse());
            lemma_le_value_bound(t.take(i + 1).reverse());
            lemma_byte_range_grows((i + 1) as nat, 8);
            lemma_byte_ranges();
        }
        let ones: u64 = if x % 256 == 0 {
            0
        } else {
            255
        };
        r = r * 256 + ones;
        x = x / 256;
        i = i + 1;
    }
    proof {
        assert(t.take(8) =~= t);
        law_le_bytes_of_value(t.reverse());
        assert(t.reverse().reverse() =~= t);
    }
    rev8(r)
}

/// The low half of the carry-less product.
pub fn clmul(a: u64, b: u64) -> (r: u64)
    ensures
        r == clmul_upto(a, b, 64),
{
    let mut r: u64 = 0;
    let mut i: u64 = 0;
    while i < 64
        invariant
            i <= 64,
            r == clmul_upto(a, b, i as nat),
        decreases 64 - i,
    {
        if (b >> i) & 1 == 1 {
            r = r ^ (a << i);
        }
        i = i + 1;
    }
    r
}

/// The high half of the carry-less product.
pub fn clmulh(a: u64, b: u64) -> (r: u64)
    ensures
        r == clmulh_upto(a, b, 64),
{
    let mut r: u64 = 0;
    let mut i: u64 = 1;
    while i < 64
        invariant
            1 <= i <= 64,
            r == clmulh_upto(a, b, i as nat),
        decreases 64 - i,
    {
        if (b >> i) & 1 == 1 {
            r = r ^ (a >> (64 - i));
        }
        i = i + 1;
    }
    r
}

/// The carry-less product without its lowest 63 bits.
pub fn clmulr(a: u64, b: u64) -> (r: u64)
    ensures
        r == clmulr_upto(a, b, 64),
{
    let mut r: u64 = 0;
    let mut i: u64 = 0;
    while i < 64
        invariant
            i <= 64,
            r == clmulr_upto(a, b, i as nat),
        decreases 64 - i,
    {
        if (b >> i) & 1 == 1 {
            r = r ^ (a >> (63 - i));
        }
        i = i + 1;
    }
    r
}

/// Sign extension keeps the number that a value means.
pub proof fn law_sext32(v: u32)
    ensures
        signed(sext32(v)) == signed32(v),
        word(sext32(v)) == v,
{
}

/// A sign-extended value means itself below `half` and `2 * half` less from
/// there on.
pub proof fn law_sext(v: u64, half: u64)
    requires
        0 < half <= 0x4000_0000_0000_0000,
        v < 2 * half,
    ensures
        signed(sext(v, half)) == if v < half {
            v as int
        } else {
            v - 2 * half
        },
{
}

/// Quotient and remainder belong together: dividend = quotient * divisor +
/// remainder, the remainder is smaller than the divisor in magnitude and has the
/// sign of the dividend. The quotient -2^63 / -1 alone does not fit.
pub proof fn law_div_rem(a: u64, b: u64)
    requires
        b != 0,
        !(signed(a) == -0x8000_0000_0000_0000 && signed(b) == -1),
    ensures
        signed(a) == signed(div_spec(a, b)) * signed(b) + signed(rem_spec(a, b)),
        abs(signed(rem_spec(a, b))) < abs(signed(b)),
        signed(rem_spec(a, b)) == 0 || (signed(rem_spec(a, b)) < 0) == (signed(a) < 0),
{
    let x = signed(a);
    let y = signed(b);
    let m = abs(x);
    let n = abs(y);
    assert(0 <= m % n < n && m == (m / n) * n + m % n && 0 <= m / n <= m && (n >= 2 ==> m / n * 2
        <= m)) by (nonlinear_arith)
        requires
            n > 0,
            m >= 0,
    ;
    assert(-0x8000_0000_0000_0000 <= trunc_div(x, y) < 0x8000_0000_0000_0000);
    assert(signed(div_spec(a, b)) == trunc_div(x, y));
    assert(signed(rem_spec(a, b)) == trunc_rem(x, y));
    let q = m / n;
    assert((-q) * y == q * (-y)) by (nonlinear_arith);
    assert(q * y == -(q * (-y))) by (nonlinear_arith);
}

/// The low and the high half together are the whole unsigned product.
pub proof fn law_mul_halves(a: u64, b: u64)
    ensures
        a * b == mulhu_spec(a, b) * 0x1_0000_0000_0000_0000 + a.wrapping_mul(b),
{
    assert(0 <= a * b <= 0xFFFF_FFFF_FFFF_FFFF * 0xFFFF_FFFF_FFFF_FFFF) by (nonlinear_arith);
}

/// Rotating to the right undoes rotating to the left.
#[verifier::rlimit(30)]
pub proof fn law_rotations_are_inverse(v: u64, w: u32, n: u64, k: u32)
    requires
        n < 64,
        k < 32,
    ensures
        ror_spec(rol_spec(v, n), n) == v,
        rorw_spec(rolw_spec(w, k), k) == w,
{
    let m = (64 - n) as u64;
    let j = (32 - k) as u32;
    assert(0 < n && n < 64 && m == 64 - n ==> ({
        let x = (v << n) | (v >> m);
        (x >> n) | (x << m)
    }) == v) by (bit_vector);
    assert(0 < k && k < 32 && j == 32 - k ==> ({
        let x = (w << k) | (w >> j);
        (x >> k) | (x << j)
    }) == w) by (bit_vector);
}

/// Reversing the bytes twice gives the value back.
pub proof fn law_rev8_involution(v: u64)
    ensures
        rev8_spec(rev8_spec(v)) == v,
{
    let s = le_bytes(v as nat, 8);
    lemma_le_bytes_len(v as nat, 8);
    lemma_le_value_bound(s.reverse());
    lemma_byte_ranges();
    law_le_bytes_of_value(s.reverse());
    assert(s.reverse().reverse() =~= s);
    law_le_value_of_bytes(v as nat, 8);
}

/// An arithmetic shift is a plain one on the values that mean a number from zero
/// on, and a plain one between two complements on the others.
pub proof fn law_sra(a: u64, n: u64)
    requires
        n < 64,
    ensures
        sra_spec(a, n) == if a < SIGN64 {
            a >> n
        } else {
            !((!a) >> n)
        },
{
    assert(((a as i64) >> n) as u64 == if a < 0x8000_0000_0000_0000 {
        a >> n
    } else {
        !((!a) >> n)
    }) by (bit_vector)
        requires
            n < 64,
    ;
}

} // verus!
