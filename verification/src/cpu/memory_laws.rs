//! What holds of loads, stores and reservations.

#[allow(unused_imports)]
use crate::alu::word;
#[allow(unused_imports)]
use crate::bus::{in_dram, law_dram_reads_back, BusView, DRAM_BASE};
#[allow(unused_imports)]
use crate::bytes::{law_read_after_write, lemma_byte_ranges};
#[allow(unused_imports)]
use crate::cpu::memory::{bus_read, bus_write, byte_at, byte_weight};
#[allow(unused_imports)]
use crate::cpu::{CpuView, Mode};
#[allow(unused_imports)]
use crate::csr::{csr_read, MSTATUS, SATP};
#[allow(unused_imports)]
use crate::mmu::{effective_mode, law_identity, AccessType};
#[allow(unused_imports)]
use crate::mmu_laws::{
    differ_in, law_load_follows_store, paged, path_clear_of, path_steady, translation_path,
};
#[allow(unused_imports)]
use crate::trap::Trap;
#[allow(unused_imports)]
use vstd::arithmetic::div_mod::lemma_mod_breakdown;
use vstd::prelude::*;

verus! {

/// The hart accesses memory untranslated: with the rights of machine mode, or without
/// a page table.
pub open spec fn untranslated(c: CpuView) -> bool {
    effective_mode(AccessType::Store, c.mode, csr_read(c.csr, MSTATUS)) == Mode::Machine
        || csr_read(c.csr, SATP) / 0x1000_0000_0000_0000 == 0
}

/// The low `n` bytes of `v` as a number.
pub open spec fn low_bytes(v: u64, n: nat) -> u64 {
    if n >= 8 {
        v
    } else {
        v % byte_weight(n)
    }
}

/// Translation is the identity where it is switched off.
proof fn lemma_untranslated(c: CpuView, va: u64, access: AccessType)
    requires
        untranslated(c),
        access != AccessType::Instruction,
    ensures
        c.translate(va, access) == (c, Ok::<u64, Trap>(va)),
{
    law_identity(c.bus, va, access, c.mode, csr_read(c.csr, SATP), csr_read(c.csr, MSTATUS));
}

/// What a store by bytes to main memory does from byte `i` on.
pub(crate) proof fn lemma_store_bytes(c: CpuView, va: u64, value: u64, size: u64, i: nat)
    requires
        untranslated(c),
        in_dram(c.bus, va, size as nat),
        i <= size <= 8,
    ensures
        ({
            let (s, r) = c.store_bytes(va, value, size, i);
            let a = va - DRAM_BASE;
            &&& r is Ok
            &&& s == CpuView { bus: BusView { dram: s.bus.dram, ..c.bus }, ..c }
            &&& s.bus.dram.len() == c.bus.dram.len()
            &&& forall|j: int|
                0 <= j < c.bus.dram.len() ==> #[trigger] s.bus.dram[j] == if a + i <= j < a + size {
                    byte_at(value, (j - a) as nat)
                } else {
                    c.bus.dram[j]
                }
        }),
    decreases size - i,
{
    if i < size {
        let pa = va.wrapping_add(i as u64);
        lemma_untranslated(c, pa, AccessType::Store);
        reveal(BusView::write8);
        let (bus, r) = c.bus.write8(pa, byte_at(value, i));
        assert(r is Ok);
        let c2 = CpuView { bus, ..c };
        assert(c2 == CpuView { bus: BusView { dram: bus.dram, ..c.bus }, ..c });
        lemma_store_bytes(c2, va, value, size, i + 1);
    }
}

/// Adding the next byte.
pub(crate) proof fn lemma_next_byte(v: u64, i: nat)
    requires
        i < 8,
    ensures
        low_bytes(v, i) + byte_at(v, i) * byte_weight(i) == low_bytes(v, i + 1),
{
    let w = byte_weight(i) as int;
    lemma_mod_breakdown(v as int, w, 256);
    let b = byte_at(v, i) as int;
    assert(b == v as int / w % 256);
    assert(w * b == b * w) by (nonlinear_arith);
    assert(w * 256 == if i == 7 {
        0x1_0000_0000_0000_0000
    } else {
        byte_weight(i + 1) as int
    });
}

/// What a load by bytes from main memory gives, where the bytes of `value` stand.
pub(crate) proof fn lemma_load_bytes(c: CpuView, va: u64, value: u64, size: u64, i: nat)
    requires
        untranslated(c),
        in_dram(c.bus, va, size as nat),
        i <= size <= 8,
        forall|j: int|
            i <= j < size ==> #[trigger] c.bus.dram[va - DRAM_BASE + j] == byte_at(value, j as nat),
    ensures
        c.load_bytes(va, size, i, low_bytes(value, i)) == (
            c,
            Ok::<u64, (Trap, u64)>(low_bytes(value, size as nat)),
        ),
    decreases size - i,
{
    if i < size {
        let pa = va.wrapping_add(i as u64);
        lemma_untranslated(c, pa, AccessType::Load);
        reveal(BusView::read8);
        assert(c.bus.dram[va - DRAM_BASE + i] == byte_at(value, i));
        assert(c.bus.read8(pa) == (c.bus, Ok::<u8, Seq<char>>(byte_at(value, i))));
        lemma_next_byte(value, i);
        assert(c == CpuView { bus: c.bus, ..c });
        lemma_load_bytes(c, va, value, size, i + 1);
    }
}

/// Without translation main memory loads what was stored to it, for every width
/// and every alignment, across pages too: the low `size` bytes of the value. The
/// load changes nothing, and the store nothing but main memory.
pub proof fn law_load_after_store(c: CpuView, va: u64, value: u64, size: u64)
    requires
        untranslated(c),
        size == 1 || size == 2 || size == 4 || size == 8,
        in_dram(c.bus, va, size as nat),
    ensures
        ({
            let (s, r) = c.store(va, value, size);
            &&& r is Ok
            &&& s == CpuView { bus: BusView { dram: s.bus.dram, ..c.bus }, store_addr: va, ..c }
            &&& s.load(va, size) == (s, Ok::<u64, (Trap, u64)>(low_bytes(value, size as nat)))
        }),
{
    reveal(CpuView::store);
    reveal(CpuView::load);
    let c0 = CpuView { store_addr: va, ..c };
    let (s, r) = c.store(va, value, size);
    if va % 4096 + size <= 4096 {
        lemma_untranslated(c0, va, AccessType::Store);
        law_dram_reads_back(c.bus, va, value);
        assert(r is Ok);
        assert(s == CpuView { bus: BusView { dram: s.bus.dram, ..c.bus }, store_addr: va, ..c });
        assert(untranslated(s));
        lemma_untranslated(s, va, AccessType::Load);
        assert(s == CpuView { bus: s.bus, ..s });
    } else {
        lemma_store_bytes(c0, va, value, size, 0);
        assert forall|j: int| 0 <= j < size implies #[trigger] s.bus.dram[va - DRAM_BASE + j]
            == byte_at(value, j as nat) by {
            let k = va - DRAM_BASE + j;
            assert(0 <= k < c.bus.dram.len());
        }
        lemma_load_bytes(s, va, value, size, 0);
    }
}

/// The hart's data accesses are translated through a page table.
pub open spec fn translates(c: CpuView) -> bool {
    paged(c.mode, csr_read(c.csr, SATP), csr_read(c.csr, MSTATUS))
}

/// The page-table entries that a store to byte `j` from `va` on goes through.
pub open spec fn byte_path(c: CpuView, va: u64, j: u64) -> Seq<u64> {
    translation_path(c.bus, csr_read(c.csr, SATP), va.wrapping_add(j))
}

/// A write to main memory changes the bytes written and nothing else.
proof fn lemma_write_differs(b: BusView, pa: u64, value: u64, size: u64)
    requires
        size == 1 || size == 2 || size == 4 || size == 8,
        in_dram(b, pa, size as nat),
    ensures
        bus_write(b, pa, value, size).1,
        differ_in(b, bus_write(b, pa, value, size).0, pa, size as nat),
        bus_read(bus_write(b, pa, value, size).0, pa, size) == (
            bus_write(b, pa, value, size).0,
            Some(low_bytes(value, size as nat)),
        ),
{
    law_dram_reads_back(b, pa, value);
    reveal(BusView::write64);
    reveal(BusView::write32);
    reveal(BusView::write16);
    reveal(BusView::write8);
    lemma_byte_ranges();
    let a = pa - DRAM_BASE;
    if size == 8 {
        law_read_after_write(b.dram, a, 8, value as nat);
    } else if size == 4 {
        law_read_after_write(b.dram, a, 4, word(value) as nat);
    } else if size == 2 {
        law_read_after_write(b.dram, a, 2, ((value % 0x1_0000) as u16) as nat);
    }
}

/// With translation too, an access within a page loads what was stored before it:
/// where the page is in main memory, the entries that map it are there too or read the
/// same each time wherever they are, and the store did not overwrite them. The load
/// changes nothing, and the store nothing but main memory.
pub proof fn law_load_after_translated_store(c: CpuView, va: u64, value: u64, size: u64)
    requires
        size == 1 || size == 2 || size == 4 || size == 8,
        va % 4096 + size <= 4096,
        c.translate(va, AccessType::Store).1 is Ok,
        in_dram(
            c.translate(va, AccessType::Store).0.bus,
            c.translate(va, AccessType::Store).1->Ok_0,
            size as nat,
        ),
        translates(c) ==> path_steady(c.bus, byte_path(c, va, 0)) && path_clear_of(
            byte_path(c, va, 0),
            c.translate(va, AccessType::Store).1->Ok_0,
            size as nat,
        ),
    ensures
        ({
            let (s, r) = c.store(va, value, size);
            &&& r is Ok
            &&& s == CpuView { bus: BusView { dram: s.bus.dram, ..c.bus }, store_addr: va, ..c }
            &&& s.load(va, size) == (s, Ok::<u64, (Trap, u64)>(low_bytes(value, size as nat)))
        }),
{
    reveal(CpuView::store);
    reveal(CpuView::load);
    let satp = csr_read(c.csr, SATP);
    let mstatus = csr_read(c.csr, MSTATUS);
    let c0 = CpuView { store_addr: va, ..c };
    let (t, r) = c0.translate(va, AccessType::Store);
    assert(t.bus == c.translate(va, AccessType::Store).0.bus);
    let pa = r->Ok_0;
    lemma_write_differs(t.bus, pa, value, size);
    let s = c.store(va, value, size).0;
    assert(s.bus == bus_write(t.bus, pa, value, size).0);
    law_load_follows_store(c.bus, s.bus, va, c.mode, satp, mstatus, pa, size as nat);
    assert(s.translate(va, AccessType::Load) == (s, Ok::<u64, Trap>(pa)));
    assert(s == CpuView { bus: s.bus, ..s });
}

/// A load-reserved that completes reserves its doubleword, so that a
/// store-conditional there stores and writes zero; one without the reservation
/// writes one and leaves the bus alone. Either way the reservation is used up.
pub proof fn law_reservation(c: CpuView, d: int, value: u64, va: u64, pa: u64, size: u64, pc: u64)
    requires
        c.wf(),
        0 < d < 32,
    ensures
        c.load_reserved(d, va, pa, size, pc).1 is Ok ==> c.load_reserved(
            d,
            va,
            pa,
            size,
            pc,
        ).0.reserved(pa),
        ({
            let (s, r) = c.store_conditional(d, value, va, pa, size, pc);
            &&& c.reserved(pa) ==> s.bus == bus_write(c.bus, pa, value, size).0
            &&& c.reserved(pa) && r is Ok ==> s.x(d) == 0
            &&& !c.reserved(pa) ==> r is Ok && s.x(d) == 1 && s.bus == c.bus
            &&& r is Ok ==> s.reservation is None
        }),
{
}

/// Everything that ends a reservation: a store, an atomic operation, a return
/// from a trap, and a trap.
pub proof fn law_reservation_dropped(
    c: CpuView,
    f5: u32,
    d: int,
    value: u64,
    va: u64,
    pa: u64,
    size: u64,
    pc: u64,
    trap: Trap,
    tval: u64,
)
    ensures
        c.store_op(va, value, size, pc).1 is Ok ==> c.store_op(
            va,
            value,
            size,
            pc,
        ).0.reservation is None,
        c.amo(f5, d, value, va, pa, size, pc).1 is Ok ==> c.amo(
            f5,
            d,
            value,
            va,
            pa,
            size,
            pc,
        ).0.reservation is None,
        c.mret().reservation is None,
        c.sret().reservation is None,
        c.trap(trap, tval).reservation is None,
{
    reveal(CpuView::trap);
}

} // verus!
