//! Little-endian numbers in byte sequences.

use byteorder::{ByteOrder, LittleEndian};
use vstd::prelude::*;

verus! {

/// The number that `s` spells in little-endian order: `s[0]` is the least
/// significant byte.
pub open spec fn le_value(s: Seq<u8>) -> nat
    decreases s.len(),
{
    if s.len() == 0 {
        0
    } else {
        s[0] as nat + 256 * le_value(s.drop_first())
    }
}

/// The `n` bytes that spell `v` (modulo `256^n`) in little-endian order.
pub open spec fn le_bytes(v: nat, n: nat) -> Seq<u8>
    decreases n,
{
    if n == 0 {
        Seq::<u8>::empty()
    } else {
        seq![(v % 256) as u8] + le_bytes(v / 256, (n - 1) as nat)
    }
}

/// `256^n`: how many numbers `n` bytes can spell.
pub open spec fn byte_range(n: nat) -> nat
    decreases n,
{
    if n == 0 {
        1
    } else {
        256 * byte_range((n - 1) as nat)
    }
}

/// The number stored in the `n` bytes of `s` from index `a` on.
pub open spec fn read_at(s: Seq<u8>, a: int, n: nat) -> nat {
    le_value(s.subrange(a, a + n))
}

/// `s` with `v` stored in its `n` bytes from index `a` on.
pub open spec fn write_at(s: Seq<u8>, a: int, n: nat, v: nat) -> Seq<u8> {
    s.take(a) + le_bytes(v, n) + s.skip(a + n)
}

/// `s` with `data` copied over it from index `a` on.
pub open spec fn copy_at(s: Seq<u8>, a: int, data: Seq<u8>) -> Seq<u8> {
    s.take(a) + data + s.skip(a + data.len())
}

/// The values of `byte_range` for the access widths in use.
pub proof fn lemma_byte_ranges()
    ensures
        byte_range(1) == 0x100,
        byte_range(2) == 0x1_0000,
        byte_range(4) == 0x1_0000_0000,
        byte_range(8) == 0x1_0000_0000_0000_0000,
{
    reveal_with_fuel(byte_range, 9);
}

/// More bytes can spell at least as many numbers.
pub proof fn lemma_byte_range_grows(m: nat, n: nat)
    requires
        m <= n,
    ensures
        1 <= byte_range(m) <= byte_range(n),
    decreases n,
{
    if m < n {
        lemma_byte_range_grows(m, (n - 1) as nat);
    } else if m > 0 {
        lemma_byte_range_grows((m - 1) as nat, (n - 1) as nat);
    }
}

/// A byte sequence spells a number below `256^len`.
pub proof fn lemma_le_value_bound(s: Seq<u8>)
    ensures
        le_value(s) < byte_range(s.len()),
    decreases s.len(),
{
    if s.len() != 0 {
        lemma_le_value_bound(s.drop_first());
    }
}

/// `le_bytes` yields as many bytes as it was asked for.
pub proof fn lemma_le_bytes_len(v: nat, n: nat)
    ensures
        le_bytes(v, n).len() == n,
    decreases n,
{
    if n != 0 {
        lemma_le_bytes_len(v / 256, (n - 1) as nat);
    }
}

/// Reading back the bytes of a number gives the number, for every number that
/// fits.
pub proof fn law_le_value_of_bytes(v: nat, n: nat)
    requires
        v < byte_range(n),
    ensures
        le_value(le_bytes(v, n)) == v,
    decreases n,
{
    if n != 0 {
        let rest = le_bytes(v / 256, (n - 1) as nat);
        assert(le_bytes(v, n).drop_first() =~= rest);
        law_le_value_of_bytes(v / 256, (n - 1) as nat);
    }
}

/// Writing out the number that some bytes spell gives the same bytes.
pub proof fn law_le_bytes_of_value(s: Seq<u8>)
    ensures
        le_bytes(le_value(s), s.len()) == s,
    decreases s.len(),
{
    if s.len() != 0 {
        let v = le_value(s);
        law_le_bytes_of_value(s.drop_first());
        assert(v % 256 == s[0] as nat);
        assert(v / 256 == le_value(s.drop_first()));
        assert(seq![s[0]] + s.drop_first() =~= s);
    } else {
        assert(s =~= Seq::<u8>::empty());
    }
}

/// A store keeps the size of the memory, changes no byte outside the `n` it
/// writes, and a load of the same bytes gives the stored number back.
pub proof fn law_read_after_write(s: Seq<u8>, a: int, n: nat, v: nat)
    requires
        0 <= a,
        a + n <= s.len(),
        v < byte_range(n),
    ensures
        write_at(s, a, n, v).len() == s.len(),
        read_at(write_at(s, a, n, v), a, n) == v,
        forall|i: int|
            0 <= i < s.len() && !(a <= i < a + n) ==> #[trigger] write_at(s, a, n, v)[i] == s[i],
{
    lemma_le_bytes_len(v, n);
    law_le_value_of_bytes(v, n);
    assert(write_at(s, a, n, v).subrange(a, a + n) =~= le_bytes(v, n));
}

/// Loads that do not overlap a store are not affected by it.
pub proof fn law_disjoint_write(s: Seq<u8>, a: int, n: nat, v: nat, b: int, m: nat)
    requires
        0 <= a,
        a + n <= s.len(),
        0 <= b,
        b + m <= s.len(),
        b + m <= a || a + n <= b,
    ensures
        read_at(write_at(s, a, n, v), b, m) == read_at(s, b, m),
{
    lemma_le_bytes_len(v, n);
    assert(write_at(s, a, n, v).subrange(b, b + m) =~= s.subrange(b, b + m));
}

/// `byteorder::LittleEndian::read_u16` takes the first two bytes of the buffer
/// as a little-endian number; it panics on a shorter buffer.
#[verifier::external_body]
pub(crate) fn le_read_u16(buf: &[u8]) -> (r: u16)
    requires
        buf@.len() >= 2,
    ensures
        r as nat == le_value(buf@.subrange(0, 2)),
{
    LittleEndian::read_u16(buf)
}

/// `byteorder::LittleEndian::read_u32` takes the first four bytes of the buffer
/// as a little-endian number; it panics on a shorter buffer.
#[verifier::external_body]
pub(crate) fn le_read_u32(buf: &[u8]) -> (r: u32)
    requires
        buf@.len() >= 4,
    ensures
        r as nat == le_value(buf@.subrange(0, 4)),
{
    LittleEndian::read_u32(buf)
}

/// `byteorder::LittleEndian::read_u64` takes the first eight bytes of the buffer
/// as a little-endian number; it panics on a shorter buffer.
#[verifier::external_body]
pub(crate) fn le_read_u64(buf: &[u8]) -> (r: u64)
    requires
        buf@.len() >= 8,
    ensures
        r as nat == le_value(buf@.subrange(0, 8)),
{
    LittleEndian::read_u64(buf)
}

/// `byteorder::LittleEndian::write_u16` overwrites the first two bytes of the
/// buffer with the number's little-endian bytes and leaves the rest alone; it
/// panics on a shorter buffer.
#[verifier::external_body]
pub(crate) fn le_write_u16(buf: &mut [u8], n: u16)
    requires
        old(buf)@.len() >= 2,
    ensures
        final(buf)@ == le_bytes(n as nat, 2) + old(buf)@.skip(2),
{
    LittleEndian::write_u16(buf, n)
}

/// `byteorder::LittleEndian::write_u32` overwrites the first four bytes of the
/// buffer with the number's little-endian bytes and leaves the rest alone; it
/// panics on a shorter buffer.
#[verifier::external_body]
pub(crate) fn le_write_u32(buf: &mut [u8], n: u32)
    requires
        old(buf)@.len() >= 4,
    ensures
        final(buf)@ == le_bytes(n as nat, 4) + old(buf)@.skip(4),
{
    LittleEndian::write_u32(buf, n)
}

/// `byteorder::LittleEndian::write_u64` overwrites the first eight bytes of the
/// buffer with the number's little-endian bytes and leaves the rest alone; it
/// panics on a shorter buffer.
#[verifier::external_body]
pub(crate) fn le_write_u64(buf: &mut [u8], n: u64)
    requires
        old(buf)@.len() >= 8,
    ensures
        final(buf)@ == le_bytes(n as nat, 8) + old(buf)@.skip(8),
{
    LittleEndian::write_u64(buf, n)
}

/// Copies `data` over `buf` from index `offset` on.
pub fn copy_into(buf: &mut [u8], offset: usize, data: &[u8])
    requires
        offset + data@.len() <= old(buf)@.len(),
    ensures
        final(buf)@ == copy_at(old(buf)@, offset as int, data@),
{
    let ghost before = buf@;
    let n: usize = data.len();
    let size: usize = buf.len();
    let mut i: usize = 0;
    while i < n
        invariant
            i <= n,
            n == data@.len(),
            offset + n <= size,
            size == before.len(),
            buf@.len() == before.len(),
            forall|j: int| 0 <= j < i ==> buf@[offset + j] == data@[j],
            forall|j: int|
                0 <= j < before.len() && !(offset <= j < offset + i) ==> buf@[j] == before[j],
        decreases n - i,
    {
        buf[offset + i] = data[i];
        i = i + 1;
    }
    assert forall|j: int| 0 <= j < buf@.len() implies buf@[j] == copy_at(
        before,
        offset as int,
        data@,
    )[j] by {
        if offset <= j < offset + n {
            assert(buf@[offset + (j - offset)] == data@[j - offset]);
        }
    }
    assert(buf@ =~= copy_at(before, offset as int, data@));
}

} // verus!
