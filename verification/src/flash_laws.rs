//! What the flash answers in each of its modes, and what loading puts in it.

#[allow(unused_imports)]
use crate::bytes::{copy_at, read_at};
#[allow(unused_imports)]
use crate::flash::{FlashState, FlashView};
#[allow(unused_imports)]
use crate::queue_laws::{eight, four, law_little_endian, two};
#[allow(unused_imports)]
use vstd::arithmetic::power2::{lemma2_to64, pow2};
use vstd::prelude::*;

verus! {

/// What a read gives, if it gives anything.
pub open spec fn answer(f: FlashView, o: int, size: u8) -> int {
    match f.read(o as u64, size) {
        Ok(v) => v as int,
        Err(_) => -1,
    }
}

/// In array mode a read gives the stored bytes, the low byte first. Behind the end all bits
/// are set, and a read across the end fails.
#[verifier::rlimit(60)]
pub proof fn law_flash_array(f: FlashView, o: int)
    requires
        f.state == FlashState::ReadArray,
        0 <= o < 0x1_0000_0000,
    ensures
        o + 1 <= f.data.len() ==> answer(f, o, 1) == f.data[o],
        o + 2 <= f.data.len() ==> answer(f, o, 2) == two(f.data, o),
        o + 4 <= f.data.len() ==> answer(f, o, 4) == four(f.data, o),
        o + 8 <= f.data.len() ==> answer(f, o, 8) == eight(f.data, o),
        o >= f.data.len() ==> answer(f, o, 1) == 0xFFFF_FFFF_FFFF_FFFF,
        o >= f.data.len() ==> answer(f, o, 8) == 0xFFFF_FFFF_FFFF_FFFF,
        f.data.len() - 8 < o < f.data.len() ==> answer(f, o, 8) == -1,
        f.data.len() - 4 < o < f.data.len() ==> answer(f, o, 4) == -1,
        f.data.len() - 2 < o < f.data.len() ==> answer(f, o, 2) == -1,
{
    law_little_endian(f.data, o);
}

/// In the two table modes the four bytes of a bank give the same entry, and a read of four
/// bytes gives that entry on each of its lanes.
pub proof fn law_flash_lanes(f: FlashView, k: int, j: int)
    requires
        f.state != FlashState::ReadArray,
        0 <= k < 0x1_0000_0000,
        0 <= j < 4,
    ensures
        ({
            let b = answer(f, 4 * k, 1);
            &&& 0 <= b < 256
            &&& answer(f, 4 * k + j, 1) == b
            &&& answer(f, 4 * k, 2) == b
            &&& answer(f, 4 * k, 4) == b + 256 * b + 65536 * b + 16777216 * b
        }),
{
}

/// A command is the low byte of what is written. The four commands that are known set the
/// mode; every other value leaves the flash as it is.
pub proof fn law_flash_command_bytes(f: FlashView, v: u64)
    ensures
        f.write(v) == f.write((v % 256) as u64),
        f.write(v).data == f.data,
        v % 256 == 255 || v % 256 == 240 ==> f.write(v).state == FlashState::ReadArray,
        v % 256 == 152 ==> f.write(v).state == FlashState::CfiQuery,
        v % 256 == 144 ==> f.write(v).state == FlashState::ReadId,
        v % 256 != 255 && v % 256 != 240 && v % 256 != 152 && v % 256 != 144 ==> f.write(v).state
            == f.state,
{
}

/// The table entry at address `k`: the table is read through banks of four bytes.
pub open spec fn entry(f: FlashView, k: int) -> int {
    answer(f, 4 * k, 1)
}

/// A value written as two decimal digits.
pub open spec fn two_digits(b: int) -> int {
    10 * (b / 16) + b % 16
}

/// In query mode the table names the Intel command set, a supply of 2.7 to 3.6 volts,
/// typical times of 512 microseconds for a write and 1024 milliseconds for an erase, and
/// longest times 16 times that.
pub proof fn law_flash_query(f: FlashView, k: int)
    requires
        f.state == FlashState::CfiQuery,
        0 <= k < 0x1_0000_0000,
    ensures
        entry(f, 16) == 81 && entry(f, 17) == 82 && entry(f, 18) == 89,
        entry(f, 19) == 1 && entry(f, 20) == 0,
        two_digits(entry(f, 27)) == 27,
        two_digits(entry(f, 28)) == 36,
        pow2(entry(f, 31) as nat) == 512,
        pow2(entry(f, 33) as nat) == 1024,
        pow2(entry(f, 35) as nat) == 16,
        pow2(entry(f, 37) as nat) == 16,
        pow2(entry(f, 39) as nat) == 32 * 1024 * 1024,
        entry(f, 40) == 2,
        entry(f, 44) == 1,
        entry(f, 45) + 256 * entry(f, 46) + 1 == 128,
        entry(f, 47) + 256 * entry(f, 48) == 1024,
        k < 16 || k > 48 ==> entry(f, k) == 0,
        20 <= k <= 26 || 29 <= k <= 30 || k == 32 || k == 34 || k == 36 || k == 38 || 41 <= k <= 43
            ==> entry(f, k) == 0,
{
    lemma2_to64();
}

/// In identification mode the flash gives the codes of Intel and of the device; behind them
/// all bits are set.
pub proof fn law_flash_codes(f: FlashView, k: int)
    requires
        f.state == FlashState::ReadId,
        0 <= k < 0x1_0000_0000,
    ensures
        entry(f, 0) == 137,
        entry(f, 1) == 24,
        entry(f, 2) == 0,
        k > 2 ==> entry(f, k) == 255,
{
}

/// Copying bytes into a memory changes those bytes and no others.
pub proof fn law_copied_bytes(s: Seq<u8>, a: int, data: Seq<u8>, i: int)
    requires
        0 <= a,
        a + data.len() <= s.len(),
        0 <= i < s.len(),
    ensures
        copy_at(s, a, data).len() == s.len(),
        a <= i < a + data.len() ==> copy_at(s, a, data)[i] == data[i - a],
        !(a <= i < a + data.len()) ==> copy_at(s, a, data)[i] == s[i],
{
}

} // verus!
