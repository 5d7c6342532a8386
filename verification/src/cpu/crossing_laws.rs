//! What holds of translated accesses that cross a page.

#[allow(unused_imports)]
use crate::bus::{in_dram, BusView, DRAM_BASE};
#[allow(unused_imports)]
use crate::cpu::memory::byte_at;
#[allow(unused_imports)]
use crate::cpu::memory_laws::{byte_path, lemma_next_byte, low_bytes, translates};
#[allow(unused_imports)]
use crate::cpu::CpuView;
#[allow(unused_imports)]
use crate::csr::{csr_read, MSTATUS, SATP};
#[allow(unused_imports)]
use crate::mmu::{law_translation_outcome, AccessType};
#[allow(unused_imports)]
use crate::mmu_laws::{
    differ_in, lemma_change_keeps_mapping, lemma_load_of_marked, lemma_store_keeps_mapping,
    maps_store, path_clear_of, path_steady, same_but_dram, store_marked,
};
#[allow(unused_imports)]
use crate::trap::Trap;
use vstd::prelude::*;

verus! {

/// Where a store to byte `j` from `va` on goes.
pub open spec fn byte_target(c: CpuView, va: u64, j: u64) -> Result<u64, Trap> {
    c.translate(va.wrapping_add(j), AccessType::Store).1
}

/// The bytes from `va` on are mapped for a store: byte `j` to `pas[j]`, through the
/// entries of `ps[j]`; the bytes are in main memory, the entries are steady, and all are
/// apart.
spec fn bytes_mapped(c: CpuView, va: u64, ps: Seq<Seq<u64>>, pas: Seq<u64>) -> bool {
    &&& translates(c)
    &&& ps.len() == pas.len()
    &&& forall|j: int|
        #![trigger ps[j]]
        #![trigger pas[j]]
        0 <= j < pas.len() ==> maps_store(
            c.bus,
            va.wrapping_add(j as u64),
            c.mode,
            csr_read(c.csr, SATP),
            csr_read(c.csr, MSTATUS),
            ps[j],
            pas[j],
        ) && in_dram(c.bus, pas[j], 1) && ps[j].len() > 0
    &&& forall|j: int, k: int|
        #![trigger ps[j], pas[k]]
        0 <= j < pas.len() && 0 <= k < pas.len() ==> path_clear_of(ps[j], pas[k], 1)
    &&& forall|j: int, k: int|
        0 <= j < pas.len() && 0 <= k < pas.len() && j != k ==> #[trigger] pas[j]
            != #[trigger] pas[k]
}

/// The first `n` bytes of `value` were stored.
spec fn bytes_stored(c: CpuView, value: u64, n: nat, ps: Seq<Seq<u64>>, pas: Seq<u64>) -> bool {
    forall|j: int|
        #![trigger ps[j]]
        #![trigger pas[j]]
        0 <= j < n ==> store_marked(c.bus, ps[j]) && c.bus.dram[pas[j] - DRAM_BASE] == byte_at(
            value,
            j as nat,
        )
}

/// One byte of a store.
proof fn lemma_store_byte(c: CpuView, va: u64, value: u64, i: nat, ps: Seq<Seq<u64>>, pas: Seq<u64>)
    requires
        i < pas.len() <= 8,
        bytes_mapped(c, va, ps, pas),
        bytes_stored(c, value, i, ps, pas),
    ensures
        ({
            let (t, r) = c.translate(va.wrapping_add(i as u64), AccessType::Store);
            let (bus, w) = t.bus.write8(pas[i as int], byte_at(value, i));
            let s = CpuView { bus, ..t };
            &&& r == Ok::<u64, Trap>(pas[i as int])
            &&& w is Ok
            &&& s == CpuView { bus, ..c }
            &&& same_but_dram(c.bus, bus)
            &&& bytes_mapped(s, va, ps, pas)
            &&& bytes_stored(s, value, i + 1, ps, pas)
        }),
{
    let satp = csr_read(c.csr, SATP);
    let mstatus = csr_read(c.csr, MSTATUS);
    let v = va.wrapping_add(i as u64);
    let p = ps[i as int];
    let pa = pas[i as int];
    let t = c.translate(v, AccessType::Store).0;
    let (bus, w) = t.bus.write8(pa, byte_at(value, i));
    lemma_store_keeps_mapping(c.bus, v, p, pa, v, p, pa, c.mode, satp, mstatus);
    reveal(BusView::write8);
    assert(w is Ok);
    assert(differ_in(t.bus, bus, pa, 1));
    assert(bus.dram[pa - DRAM_BASE] == byte_at(value, i));
    let s = CpuView { bus, ..t };
    assert(s == CpuView { bus, ..c });
    assert(store_marked(t.bus, p));
    assert forall|j: int|
        #![trigger ps[j]]
        #![trigger pas[j]]
        0 <= j < pas.len() implies maps_store(
        bus,
        va.wrapping_add(j as u64),
        c.mode,
        satp,
        mstatus,
        ps[j],
        pas[j],
    ) && in_dram(bus, pas[j], 1) && ps[j].len() > 0 && (j <= i ==> store_marked(bus, ps[j])
        && bus.dram[pas[j] - DRAM_BASE] == byte_at(value, j as nat)) by {
        let u = va.wrapping_add(j as u64);
        let q = ps[j];
        let qa = pas[j];
        lemma_store_keeps_mapping(c.bus, v, p, pa, u, q, qa, c.mode, satp, mstatus);
        assert(path_clear_of(ps[j], pas[i as int], 1));
        lemma_change_keeps_mapping(t.bus, bus, u, c.mode, satp, mstatus, q, qa, pa, 1);
        if j < i {
            assert(path_clear_of(ps[i as int], pas[j], 1));
            assert(p[p.len() - 1] == p.last());
            assert(t.bus.dram[qa - DRAM_BASE] == c.bus.dram[qa - DRAM_BASE]);
            assert(bus.dram[qa - DRAM_BASE] == t.bus.dram[qa - DRAM_BASE]);
        }
    }
}

/// A store by bytes, from byte `i` on.
proof fn lemma_store_all(
    c: CpuView,
    va: u64,
    value: u64,
    size: u64,
    i: nat,
    ps: Seq<Seq<u64>>,
    pas: Seq<u64>,
)
    requires
        i <= pas.len() == size <= 8,
        bytes_mapped(c, va, ps, pas),
        bytes_stored(c, value, i, ps, pas),
    ensures
        ({
            let (s, r) = c.store_bytes(va, value, size, i);
            &&& r is Ok
            &&& s == CpuView { bus: s.bus, ..c }
            &&& same_but_dram(c.bus, s.bus)
            &&& bytes_mapped(s, va, ps, pas)
            &&& bytes_stored(s, value, size as nat, ps, pas)
        }),
    decreases size - i,
{
    if i < size {
        lemma_store_byte(c, va, value, i, ps, pas);
        let t = c.translate(va.wrapping_add(i as u64), AccessType::Store).0;
        let bus = t.bus.write8(pas[i as int], byte_at(value, i)).0;
        lemma_store_all(CpuView { bus, ..t }, va, value, size, i + 1, ps, pas);
    }
}

/// A load by bytes of what was stored, from byte `i` on.
proof fn lemma_load_all(
    c: CpuView,
    va: u64,
    value: u64,
    size: u64,
    i: nat,
    ps: Seq<Seq<u64>>,
    pas: Seq<u64>,
)
    requires
        i <= pas.len() == size <= 8,
        bytes_mapped(c, va, ps, pas),
        bytes_stored(c, value, size as nat, ps, pas),
    ensures
        c.load_bytes(va, size, i, low_bytes(value, i)) == (
            c,
            Ok::<u64, (Trap, u64)>(low_bytes(value, size as nat)),
        ),
    decreases size - i,
{
    if i < size {
        let satp = csr_read(c.csr, SATP);
        let mstatus = csr_read(c.csr, MSTATUS);
        let v = va.wrapping_add(i as u64);
        let pa = pas[i as int];
        lemma_load_of_marked(c.bus, v, c.mode, satp, mstatus, ps[i as int], pa);
        reveal(BusView::read8);
        assert(c.bus.read8(pa) == (c.bus, Ok::<u8, Seq<char>>(byte_at(value, i))));
        assert(c.translate(v, AccessType::Load) == (c, Ok::<u64, Trap>(pa)));
        lemma_next_byte(value, i);
        assert(c == CpuView { bus: c.bus, ..c });
        lemma_load_all(c, va, value, size, i + 1, ps, pas);
    }
}

/// Each byte of a store of `size` bytes to `va` goes to main memory, through entries
/// that are there too or read the same each time wherever they are, and none overwrites
/// an entry that maps one of them.
pub open spec fn store_fits(c: CpuView, va: u64, size: u64) -> bool {
    &&& forall|j: u64|
        j < size ==> (#[trigger] byte_target(c, va, j)) is Ok && in_dram(
            c.bus,
            byte_target(c, va, j)->Ok_0,
            1,
        )
    &&& forall|j: u64| j < size ==> path_steady(c.bus, #[trigger] byte_path(c, va, j))
    &&& forall|j: u64, k: u64|
        j < size && k < size ==> path_clear_of(
            #[trigger] byte_path(c, va, j),
            (#[trigger] byte_target(c, va, k))->Ok_0,
            1,
        )
}

/// One byte of a store that fits.
proof fn lemma_byte_mapped(c: CpuView, va: u64, size: u64, j: u64)
    requires
        store_fits(c, va, size),
        j < size <= 8,
    ensures
        maps_store(
            c.bus,
            va.wrapping_add(j),
            c.mode,
            csr_read(c.csr, SATP),
            csr_read(c.csr, MSTATUS),
            byte_path(c, va, j),
            byte_target(c, va, j)->Ok_0,
        ),
        byte_path(c, va, j).len() > 0,
        byte_target(c, va, j)->Ok_0 % 4096 == (va + j) % 4096,
{
    let satp = csr_read(c.csr, SATP);
    let mstatus = csr_read(c.csr, MSTATUS);
    let v = va.wrapping_add(j);
    assert(byte_target(c, va, j) is Ok);
    assert(path_steady(c.bus, byte_path(c, va, j)));
    law_translation_outcome(c.bus, v, AccessType::Store, c.mode, satp, mstatus);
    assert(v % 4096 == (va + j) % 4096);
}

/// The bytes of a store that fits.
proof fn lemma_bytes_mapped(c: CpuView, va: u64, size: u64, ps: Seq<Seq<u64>>, pas: Seq<u64>)
    requires
        translates(c),
        store_fits(c, va, size),
        size <= 8,
        ps == Seq::new(size as nat, |j: int| byte_path(c, va, j as u64)),
        pas == Seq::new(size as nat, |j: int| byte_target(c, va, j as u64)->Ok_0),
    ensures
        bytes_mapped(c, va, ps, pas),
{
    assert forall|j: int|
        #![trigger ps[j]]
        #![trigger pas[j]]
        0 <= j < pas.len() implies maps_store(
        c.bus,
        va.wrapping_add(j as u64),
        c.mode,
        csr_read(c.csr, SATP),
        csr_read(c.csr, MSTATUS),
        ps[j],
        pas[j],
    ) && in_dram(c.bus, pas[j], 1) && ps[j].len() > 0 by {
        lemma_byte_mapped(c, va, size, j as u64);
        assert(byte_target(c, va, j as u64) is Ok);
    }
    assert forall|j: int, k: int|
        0 <= j < pas.len() && 0 <= k < pas.len() && j != k implies #[trigger] pas[j]
        != #[trigger] pas[k] by {
        lemma_byte_mapped(c, va, size, j as u64);
        lemma_byte_mapped(c, va, size, k as u64);
    }
    assert forall|j: int, k: int|
        #![trigger ps[j], pas[k]]
        0 <= j < pas.len() && 0 <= k < pas.len() implies path_clear_of(ps[j], pas[k], 1) by {
        assert(path_clear_of(
            byte_path(c, va, j as u64),
            byte_target(c, va, k as u64)->Ok_0,
            1,
        ));
    }
}

/// A translated access that crosses a page, too, loads what was stored before it:
/// where each byte goes to main memory through steady entries, and no byte of the
/// store overwrote an entry that maps one of them. The load changes nothing, and the
/// store nothing but main memory.
pub proof fn law_load_after_crossing_store(c: CpuView, va: u64, value: u64, size: u64)
    requires
        translates(c),
        size == 2 || size == 4 || size == 8,
        va % 4096 + size > 4096,
        store_fits(c, va, size),
    ensures
        ({
            let (s, r) = c.store(va, value, size);
            &&& r is Ok
            &&& s == CpuView { bus: BusView { dram: s.bus.dram, ..c.bus }, store_addr: va, ..c }
            &&& s.load(va, size) == (s, Ok::<u64, (Trap, u64)>(low_bytes(value, size as nat)))
        }),
{
    let ps = Seq::new(size as nat, |j: int| byte_path(c, va, j as u64));
    let pas = Seq::new(size as nat, |j: int| byte_target(c, va, j as u64)->Ok_0);
    lemma_bytes_mapped(c, va, size, ps, pas);
    let c0 = CpuView { store_addr: va, ..c };
    assert(bytes_mapped(c0, va, ps, pas));
    lemma_store_all(c0, va, value, size, 0, ps, pas);
    assert(c.store(va, value, size) == c0.store_bytes(va, value, size, 0)) by {
        reveal(CpuView::store);
    }
    let s = c.store(va, value, size).0;
    assert(s.load(va, size) == s.load_bytes(va, size, 0, 0)) by {
        reveal(CpuView::load);
    }
    assert(low_bytes(value, 0) == 0);
    lemma_load_all(s, va, value, size, 0, ps, pas);
}

} // verus!
