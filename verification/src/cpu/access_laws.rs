//! What loads and stores across pages do to the bytes of main memory, and what the hart
//! hands to the translation.

#[allow(unused_imports)]
use crate::bus::DRAM_BASE;
#[allow(unused_imports)]
use crate::cpu::dispatch::{lemma_dispatch_amo, same};
#[allow(unused_imports)]
use crate::cpu::formats::{lemma_r_format, named, r_format, reg};
#[allow(unused_imports)]
use crate::cpu::memory::byte_at;
#[allow(unused_imports)]
use crate::cpu::memory_laws::{lemma_load_bytes, lemma_store_bytes, low_bytes, untranslated};
#[allow(unused_imports)]
use crate::cpu::CpuView;
#[allow(unused_imports)]
use crate::csr::csr_read;
#[allow(unused_imports)]
use crate::mmu::{translated, AccessType};
#[allow(unused_imports)]
use crate::queue_laws::eight;
#[allow(unused_imports)]
use crate::trap::Trap;
use vstd::prelude::*;

verus! {

/// A number over a weight and the next weight up.
proof fn lemma_digit(v: u64, w: int)
    requires
        w > 0,
    ensures
        v as int / w == 256 * (v as int / (w * 256)) + (v as int / w) % 256,
{
    vstd::arithmetic::div_mod::lemma_div_denominator(v as int, w, 256);
}

/// The bytes of a doubleword.
#[verifier::rlimit(60)]
proof fn lemma_bytes_of(v: u64)
    ensures
        v == byte_at(v, 0) + 0x100 * byte_at(v, 1) + 0x1_0000 * byte_at(v, 2) + 0x100_0000
            * byte_at(v, 3) + 0x1_0000_0000 * byte_at(v, 4) + 0x100_0000_0000 * byte_at(v, 5)
            + 0x1_0000_0000_0000 * byte_at(v, 6) + 0x100_0000_0000_0000 * byte_at(v, 7),
{
    lemma_digit(v, 1);
    lemma_digit(v, 0x100);
    lemma_digit(v, 0x1_0000);
    lemma_digit(v, 0x100_0000);
    lemma_digit(v, 0x1_0000_0000);
    lemma_digit(v, 0x100_0000_0000);
    lemma_digit(v, 0x1_0000_0000_0000);
    lemma_digit(v, 0x100_0000_0000_0000);
}

/// The doubleword of eight bytes.
#[verifier::rlimit(60)]
proof fn lemma_spelled(d: Seq<u8>, o: int, j: int)
    requires
        0 <= o,
        o + 8 <= d.len(),
        0 <= j < 8,
    ensures
        byte_at(eight(d, o) as u64, j as nat) == d[o + j],
{
    let v = eight(d, o) as u64;
    let (b0, b1, b2, b3) = (d[o], d[o + 1], d[o + 2], d[o + 3]);
    let (b4, b5, b6, b7) = (d[o + 4], d[o + 5], d[o + 6], d[o + 7]);
    let s6 = b7 as int;
    let s5 = b6 + 256 * s6;
    let s4 = b5 + 256 * s5;
    let s3 = b4 + 256 * s4;
    let s2 = b3 + 256 * s3;
    let s1 = b2 + 256 * s2;
    let s0 = b1 + 256 * s1;
    let r1 = b0 as int;
    let r2 = r1 + 0x100 * b1;
    let r3 = r2 + 0x1_0000 * b2;
    let r4 = r3 + 0x100_0000 * b3;
    let r5 = r4 + 0x1_0000_0000 * b4;
    let r6 = r5 + 0x100_0000_0000 * b5;
    let r7 = r6 + 0x1_0000_0000_0000 * b6;
    assert(v == eight(d, o));
    assert(v / 1 == b0 + 256 * s0) by {
        assert(v == 1 * (b0 + 256 * s0));
    }
    assert(v / 0x100 == b1 + 256 * s1) by {
        assert(v == r1 + 0x100 * (b1 + 256 * s1));
    }
    assert(v / 0x1_0000 == b2 + 256 * s2) by {
        assert(v == r2 + 0x1_0000 * (b2 + 256 * s2));
    }
    assert(v / 0x100_0000 == b3 + 256 * s3) by {
        assert(v == r3 + 0x100_0000 * (b3 + 256 * s3));
    }
    assert(v / 0x1_0000_0000 == b4 + 256 * s4) by {
        assert(v == r4 + 0x1_0000_0000 * (b4 + 256 * s4));
    }
    assert(v / 0x100_0000_0000 == b5 + 256 * s5) by {
        assert(v == r5 + 0x100_0000_0000 * (b5 + 256 * s5));
    }
    assert(v / 0x1_0000_0000_0000 == b6 + 256 * s6) by {
        assert(v == r6 + 0x1_0000_0000_0000 * (b6 + 256 * s6));
    }
    assert(v / 0x100_0000_0000_0000 == b7) by {
        assert(v == r7 + 0x100_0000_0000_0000 * (b7));
    }
}

/// Untranslated, a load of a doubleword that crosses a page gives the bytes at its address,
/// the low byte first.
#[verifier::rlimit(60)]
pub proof fn law_crossing_load(c: CpuView, o: int)
    requires
        untranslated(c),
        0 <= o < 0x7FFF_FFF8,
        o % 4096 > 4088,
        o + 8 <= c.bus.dram.len(),
    ensures
        c.load((0x8000_0000 + o) as u64, 8) == (
            c,
            Ok::<u64, (Trap, u64)>(eight(c.bus.dram, o) as u64),
        ),
{
    let va = (0x8000_0000 + o) as u64;
    let v = eight(c.bus.dram, o) as u64;
    assert forall|j: int| 0 <= j < 8 implies #[trigger] c.bus.dram[va - DRAM_BASE + j] == byte_at(
        v,
        j as nat,
    ) by {
        lemma_spelled(c.bus.dram, o, j);
    }
    lemma_load_bytes(c, va, v, 8, 0);
    assert(low_bytes(v, 0) == 0);
    reveal(CpuView::load);
}

/// Untranslated, a store of a doubleword that crosses a page puts its bytes there, the low
/// byte first, and changes no other byte.
#[verifier::rlimit(60)]
pub proof fn law_crossing_store(c: CpuView, o: int, v: u64, i: int)
    requires
        untranslated(c),
        0 <= o < 0x7FFF_FFF8,
        o % 4096 > 4088,
        o + 8 <= c.bus.dram.len(),
        0 <= i < c.bus.dram.len(),
    ensures
        ({
            let (s, r) = c.store((0x8000_0000 + o) as u64, v, 8);
            &&& r is Ok
            &&& eight(s.bus.dram, o) == v
            &&& !(o <= i < o + 8) ==> s.bus.dram[i] == c.bus.dram[i]
        }),
{
    let va = (0x8000_0000 + o) as u64;
    let c0 = CpuView { store_addr: va, ..c };
    reveal(CpuView::store);
    lemma_store_bytes(c0, va, v, 8, 0);
    lemma_bytes_of(v);
    let d = c.store(va, v, 8).0.bus.dram;
    assert(d[o] == byte_at(v, 0) && d[o + 1] == byte_at(v, 1) && d[o + 2] == byte_at(v, 2) && d[o
        + 3] == byte_at(v, 3) && d[o + 4] == byte_at(v, 4) && d[o + 5] == byte_at(v, 5) && d[o + 6]
        == byte_at(v, 6) && d[o + 7] == byte_at(v, 7));
}

/// The hart translates in its mode, by the page-table register (0x180) and the status
/// register (0x300), and nothing of it but the bus changes by that.
pub proof fn law_hart_translation(c: CpuView, va: u64, access: AccessType)
    ensures
        ({
            let t = translated(
                c.bus,
                va,
                access,
                c.mode,
                csr_read(c.csr, 0x180),
                csr_read(c.csr, 0x300),
            );
            c.translate(va, access) == (CpuView { bus: t.0, ..c }, t.1)
        }),
{
}

/// An atomic instruction whose address cannot be translated faults with that address:
/// load-reserved as a load, every other as a store.
#[verifier::rlimit(60)]
pub proof fn law_atomic_faults(c: CpuView, f3: u32, f7: u32, d: u32, a: u32, b: u32)
    requires
        named(c, d, a, b),
        f3 < 8,
        f7 < 128,
    ensures
        ({
            let va = reg(c, a);
            let access = if f7 / 4 == 2 {
                AccessType::Load
            } else {
                AccessType::Store
            };
            let (s, r) = CpuView { store_addr: va, ..c }.translate(va, access);
            r matches Err(t) ==> same(
                c.exec(r_format(0x2F, f3, f7, d, a, b)),
                (s, Err::<(), (Trap, u64)>((t, va))),
            )
        }),
{
    lemma_r_format(0x2F, f3, f7, d, a, b);
    lemma_dispatch_amo(c, r_format(0x2F, f3, f7, d, a, b));
}

} // verus!
