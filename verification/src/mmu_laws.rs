//! What holds of translation through page tables whose entries read the same each
//! time.

#[allow(unused_imports)]
use crate::bus::{in_dram, region_of, BusView, Region, DRAM_BASE};
#[allow(unused_imports)]
use crate::bytes::{law_disjoint_write, law_read_after_write, lemma_byte_ranges, read_at, write_at};
#[allow(unused_imports)]
use crate::cpu::Mode;
#[allow(unused_imports)]
use crate::flash::FlashState;
#[allow(unused_imports)]
use crate::mmu::{
    effective_mode, entry_addr, flag, law_marks, leaf, lemma_walk, marked, needs_mark,
    page_fault_of, permitted, span, target, translate_paged, translated, walk, AccessType, PTE_A,
    PTE_D, PTE_R, PTE_U, PTE_V, PTE_W, PTE_X,
};
#[allow(unused_imports)]
use crate::trap::Trap;
use vstd::prelude::*;

verus! {

/// The doubleword that a read of `addr` gives.
pub open spec fn word_at(bus: BusView, addr: u64) -> u64 {
    match bus.read64(addr).1 {
        Ok(v) => v,
        Err(_) => 0,
    }
}

/// An entry that points to another table.
pub open spec fn is_pointer(pte: u64) -> bool {
    flag(pte, PTE_V) && !flag(pte, PTE_R) && !flag(pte, PTE_W) && !flag(pte, PTE_X)
}

/// The addresses of the entries that a walk looks at, in this order.
pub open spec fn path(bus: BusView, table: u64, level: nat, va: u64) -> Seq<u64>
    decreases level,
{
    let addr = entry_addr(table, va, level);
    let pte = word_at(bus, addr);
    if level > 0 && is_pointer(pte) {
        seq![addr] + path(bus, target(pte), (level - 1) as nat, va)
    } else {
        seq![addr]
    }
}

/// Marking the entry at `addr` for an access would leave the bus as it is.
pub open spec fn mark_is_lost(bus: BusView, addr: u64, access: AccessType) -> bool {
    let pte = word_at(bus, addr);
    needs_mark(pte, access) ==> bus.write64(addr, marked(pte, access)).0 == bus
}

/// An entry reads the same each time: it is in main memory, or elsewhere but such that
/// neither reading nor marking it changes anything. The latter holds of the boot ROM,
/// and of a flash unless the mark is a command to it.
pub open spec fn steady(bus: BusView, addr: u64) -> bool {
    in_dram(bus, addr, 8) || {
        &&& region_of(addr) != Region::Dram
        &&& bus.read64(addr).1 is Ok
        &&& bus.read64(addr).0 == bus
        &&& is_pointer(word_at(bus, addr)) || {
            &&& mark_is_lost(bus, addr, AccessType::Instruction)
            &&& mark_is_lost(bus, addr, AccessType::Load)
            &&& mark_is_lost(bus, addr, AccessType::Store)
        }
    }
}

/// All entries of a path are in main memory.
pub open spec fn path_in_dram(bus: BusView, p: Seq<u64>) -> bool {
    forall|i: int| 0 <= i < p.len() ==> in_dram(bus, #[trigger] p[i], 8)
}

/// All entries of a path read the same each time.
pub open spec fn path_steady(bus: BusView, p: Seq<u64>) -> bool {
    forall|i: int| 0 <= i < p.len() ==> steady(bus, #[trigger] p[i])
}

/// The table that a translation starts at, and its level.
pub open spec fn root_of(satp: u64) -> (u64, nat) {
    let scheme = satp / 0x1000_0000_0000_0000;
    (
        (satp % 0x1000_0000_0000 * 4096) as u64,
        if scheme == 8 {
            2
        } else if scheme == 9 {
            3
        } else {
            4
        },
    )
}

/// The addresses of the entries that a translation looks at.
pub open spec fn translation_path(bus: BusView, satp: u64, va: u64) -> Seq<u64> {
    let (table, level) = root_of(satp);
    path(bus, table, level, va)
}

/// `a` and `b` differ in main memory at most, and there only in the `n` bytes from
/// `at` on.
pub open spec fn differ_in(a: BusView, b: BusView, at: u64, n: nat) -> bool {
    &&& b == BusView { dram: b.dram, ..a }
    &&& b.dram.len() == a.dram.len()
    &&& forall|j: int|
        0 <= j < a.dram.len() && !(at - DRAM_BASE <= j < at - DRAM_BASE + n)
            ==> #[trigger] b.dram[j] == a.dram[j]
}

/// The doubleword at `addr` in main memory.
pub(crate) proof fn lemma_dram_word(bus: BusView, addr: u64)
    requires
        in_dram(bus, addr, 8),
    ensures
        bus.read64(addr) == (bus, Ok::<u64, Seq<char>>(word_at(bus, addr))),
        word_at(bus, addr) == read_at(bus.dram, addr - DRAM_BASE, 8) as u64,
{
    reveal(BusView::read64);
}

/// A steady entry can be read, and reading it changes nothing.
proof fn lemma_read_steady(bus: BusView, addr: u64)
    requires
        steady(bus, addr),
    ensures
        bus.read64(addr) == (bus, Ok::<u64, Seq<char>>(word_at(bus, addr))),
{
    if in_dram(bus, addr, 8) {
        lemma_dram_word(bus, addr);
    }
}

/// A write to main memory.
pub(crate) proof fn lemma_write_dram(bus: BusView, addr: u64, v: u64)
    requires
        in_dram(bus, addr, 8),
    ensures
        bus.write64(addr, v) == (
            BusView { dram: write_at(bus.dram, addr - DRAM_BASE, 8, v as nat), ..bus },
            Ok::<(), Seq<char>>(()),
        ),
        bus.write64(addr, v).0.dram.len() == bus.dram.len(),
        word_at(bus.write64(addr, v).0, addr) == v,
{
    reveal(BusView::write64);
    lemma_byte_ranges();
    law_read_after_write(bus.dram, addr - DRAM_BASE, 8, v as nat);
    lemma_dram_word(bus.write64(addr, v).0, addr);
}

/// What answers outside of main memory does not depend on it.
proof fn lemma_elsewhere(bus: BusView, dram: Seq<u8>, addr: u64, v: u64)
    requires
        region_of(addr) != Region::Dram,
    ensures
        ({
            let b = BusView { dram, ..bus };
            &&& b.read64(addr) == (
                BusView { dram, ..bus.read64(addr).0 },
                bus.read64(addr).1,
            )
            &&& b.write64(addr, v) == (
                BusView { dram, ..bus.write64(addr, v).0 },
                bus.write64(addr, v).1,
            )
        }),
{
    reveal(BusView::read64);
    reveal(BusView::write64);
}

/// Whether something outside of main memory takes a write does not depend on what is
/// written.
proof fn lemma_taken_elsewhere(bus: BusView, addr: u64, v: u64, w: u64)
    requires
        region_of(addr) != Region::Dram,
    ensures
        bus.write64(addr, v).1 is Ok <==> bus.write64(addr, w).1 is Ok,
{
    reveal(BusView::write64);
}

/// Two buses differ in the bytes of main memory at most.
pub open spec fn same_but_dram(a: BusView, b: BusView) -> bool {
    b == BusView { dram: b.dram, ..a } && b.dram.len() == a.dram.len()
}

/// A change of main memory changes a steady entry only if that is there, and leaves it
/// steady.
proof fn lemma_still_steady(a: BusView, b: BusView, addr: u64)
    requires
        same_but_dram(a, b),
        steady(a, addr),
    ensures
        steady(b, addr),
        !in_dram(a, addr, 8) ==> !in_dram(b, addr, 8) && word_at(b, addr) == word_at(a, addr),
{
    if !in_dram(a, addr, 8) {
        let pte = word_at(a, addr);
        lemma_elsewhere(a, b.dram, addr, marked(pte, AccessType::Instruction));
        lemma_elsewhere(a, b.dram, addr, marked(pte, AccessType::Load));
        lemma_elsewhere(a, b.dram, addr, marked(pte, AccessType::Store));
    }
}

/// The entries of a page table in the boot ROM are steady, and so are those in a flash
/// that is read as memory: no mark is a command to it.
pub proof fn law_boot_rom_and_flash_are_steady(bus: BusView, addr: u64)
    requires
        region_of(addr) == Region::Mrom || (region_of(addr) == Region::Flash
            && bus.flash.state == FlashState::ReadArray),
        bus.read64(addr).1 is Ok,
    ensures
        steady(bus, addr),
{
    reveal(BusView::read64);
    reveal(BusView::write64);
    let v = word_at(bus, addr);
    assert((v | 0x40) % 256 != 0x98 && (v | 0x40) % 256 != 0x90 && (v | 0xC0) % 256 != 0x98
        && (v | 0xC0) % 256 != 0x90) by (bit_vector);
}

/// The last entry of the walk decides: nothing before it changes the bus.
pub(crate) proof fn lemma_walk_by_path(
    bus: BusView,
    table: u64,
    level: nat,
    va: u64,
    access: AccessType,
    mode: Mode,
    mstatus: u64,
)
    requires
        path_steady(bus, path(bus, table, level, va)),
    ensures
        ({
            let p = path(bus, table, level, va);
            let addr = p.last();
            let l = (level - (p.len() - 1)) as nat;
            let pte = word_at(bus, addr);
            &&& 1 <= p.len() <= level + 1
            &&& walk(bus, table, level, va, access, mode, mstatus) == (if !flag(pte, PTE_V) || (
            !flag(pte, PTE_R) && flag(pte, PTE_W)) || is_pointer(pte) {
                (bus, Err::<u64, Trap>(page_fault_of(access)))
            } else {
                leaf(bus, addr, pte, l, va, access, mode, mstatus)
            })
        }),
    decreases level,
{
    let addr = entry_addr(table, va, level);
    let p = path(bus, table, level, va);
    assert(p[0] == addr);
    assert(steady(bus, p[0]));
    lemma_read_steady(bus, addr);
    let pte = word_at(bus, addr);
    if level > 0 && is_pointer(pte) {
        let rest = path(bus, target(pte), (level - 1) as nat, va);
        assert forall|i: int| 0 <= i < rest.len() implies steady(bus, #[trigger] rest[i]) by {
            assert(p[i + 1] == rest[i]);
        }
        lemma_walk_by_path(bus, target(pte), (level - 1) as nat, va, access, mode, mstatus);
        assert(p.last() == rest.last());
    }
}

/// The entries of a path but the last are pointers, and all stand at multiples of
/// eight.
proof fn lemma_path_entries(bus: BusView, table: u64, level: nat, va: u64, i: int)
    requires
        table % 4096 == 0,
        table <= 0xFF_FFFF_FFFF_F000,
        0 <= i < path(bus, table, level, va).len(),
    ensures
        path(bus, table, level, va)[i] % 8 == 0,
        i < path(bus, table, level, va).len() - 1 ==> is_pointer(
            word_at(bus, path(bus, table, level, va)[i]),
        ),
    decreases level,
{
    let addr = entry_addr(table, va, level);
    assert(addr % 8 == 0) by {
        let k = va / span(level) % 512;
        assert(addr == table + k * 8);
    }
    let pte = word_at(bus, addr);
    if level > 0 && is_pointer(pte) {
        let rest = path(bus, target(pte), (level - 1) as nat, va);
        assert(path(bus, table, level, va) == seq![addr] + rest);
        if i > 0 {
            assert(target(pte) % 4096 == 0 && target(pte) <= 0xFF_FFFF_FFFF_F000);
            lemma_path_entries(bus, target(pte), (level - 1) as nat, va, i - 1);
            assert(path(bus, table, level, va)[i] == rest[i - 1]);
        }
    }
}

/// A bus on which the pointers of a path are the same, and the last entry is a
/// pointer on neither, has the same path.
proof fn lemma_path_frame(a: BusView, b: BusView, table: u64, level: nat, va: u64)
    requires
        ({
            let p = path(a, table, level, va);
            &&& forall|i: int|
                0 <= i < p.len() - 1 ==> word_at(b, #[trigger] p[i]) == word_at(a, p[i])
            &&& !is_pointer(word_at(a, p.last())) && !is_pointer(word_at(b, p.last()))
        }),
    ensures
        path(b, table, level, va) == path(a, table, level, va),
    decreases level,
{
    let addr = entry_addr(table, va, level);
    let p = path(a, table, level, va);
    let pte = word_at(a, addr);
    assert(p[0] == addr);
    if level > 0 && is_pointer(pte) {
        let rest = path(a, target(pte), (level - 1) as nat, va);
        assert(p == seq![addr] + rest);
        assert(rest.len() > 0);
        assert(word_at(b, p[0]) == pte);
        assert(p.last() == rest.last());
        assert forall|i: int| 0 <= i < rest.len() - 1 implies word_at(b, #[trigger] rest[i])
            == word_at(a, rest[i]) by {
            assert(p[i + 1] == rest[i]);
        }
        lemma_path_frame(a, b, target(pte), (level - 1) as nat, va);
    }
}

/// Marking an entry changes nothing that a walk looks at but the marks.
proof fn lemma_marked(pte: u64, access: AccessType)
    ensures
        flag(marked(pte, access), PTE_V) == flag(pte, PTE_V),
        flag(marked(pte, access), PTE_R) == flag(pte, PTE_R),
        flag(marked(pte, access), PTE_W) == flag(pte, PTE_W),
        flag(marked(pte, access), PTE_X) == flag(pte, PTE_X),
        flag(marked(pte, access), PTE_U) == flag(pte, PTE_U),
        target(marked(pte, access)) == target(pte),
{
    assert({
        let a = pte | 0x40;
        let s = pte | 0xC0;
        &&& a & 0x01 == pte & 0x01 && s & 0x01 == pte & 0x01
        &&& a & 0x02 == pte & 0x02 && s & 0x02 == pte & 0x02
        &&& a & 0x04 == pte & 0x04 && s & 0x04 == pte & 0x04
        &&& a & 0x08 == pte & 0x08 && s & 0x08 == pte & 0x08
        &&& a & 0x10 == pte & 0x10 && s & 0x10 == pte & 0x10
        &&& a / 1024 == pte / 1024 && s / 1024 == pte / 1024
    }) by (bit_vector);
}

/// `b` is `bus` with the entry at `addr` marked, if that is in main memory, and else
/// `bus` itself.
pub open spec fn marks(bus: BusView, b: BusView, addr: u64, access: AccessType) -> bool {
    let v = marked(word_at(bus, addr), access);
    if in_dram(bus, addr, 8) {
        &&& word_at(b, addr) == v
        &&& b == bus || b == BusView {
            dram: write_at(bus.dram, addr - DRAM_BASE, 8, v as nat),
            ..bus
        }
    } else {
        b == bus
    }
}

/// What a walk through steady entries does when it succeeds: it marks the entry at the
/// end of its path.
proof fn lemma_walk_effect(
    bus: BusView,
    table: u64,
    level: nat,
    va: u64,
    access: AccessType,
    mode: Mode,
    mstatus: u64,
)
    requires
        table % 4096 == 0,
        table <= 0xFF_FFFF_FFFF_F000,
        path_steady(bus, path(bus, table, level, va)),
        walk(bus, table, level, va, access, mode, mstatus).1 is Ok,
    ensures
        ({
            let p = path(bus, table, level, va);
            let b = walk(bus, table, level, va, access, mode, mstatus).0;
            let pte = word_at(bus, p.last());
            &&& p.len() > 0 && p.last() % 8 == 0 && steady(bus, p.last())
            &&& !is_pointer(pte) && flag(pte, PTE_V) && (flag(pte, PTE_W) ==> flag(pte, PTE_R))
            &&& marks(bus, b, p.last(), access)
        }),
{
    let p = path(bus, table, level, va);
    let last = p.last();
    let pte = word_at(bus, last);
    lemma_walk_by_path(bus, table, level, va, access, mode, mstatus);
    lemma_path_entries(bus, table, level, va, p.len() - 1);
    law_marks(pte, access);
    assert(steady(bus, p[p.len() - 1]));
    if needs_mark(pte, access) && in_dram(bus, last, 8) {
        lemma_write_dram(bus, last, marked(pte, access));
    }
}

/// What marking one entry does to an entry at a multiple of eight.
proof fn lemma_marks_entry(bus: BusView, b: BusView, last: u64, access: AccessType, addr: u64)
    requires
        marks(bus, b, last, access),
        last % 8 == 0,
        addr % 8 == 0,
        steady(bus, addr),
    ensures
        same_but_dram(bus, b),
        differ_in(bus, b, last, 8),
        steady(b, addr),
        addr != last ==> word_at(b, addr) == word_at(bus, addr),
{
    let v = marked(word_at(bus, last), access);
    if in_dram(bus, last, 8) {
        lemma_byte_ranges();
        law_read_after_write(bus.dram, last - DRAM_BASE, 8, v as nat);
    }
    assert(differ_in(bus, b, last, 8));
    lemma_still_steady(bus, b, addr);
    if addr != last && in_dram(bus, addr, 8) {
        lemma_dram_word(bus, addr);
        lemma_dram_word(b, addr);
        if b != bus {
            law_disjoint_write(bus.dram, last - DRAM_BASE, 8, v as nat, addr - DRAM_BASE, 8);
        }
    }
}

/// What a walk that succeeds leaves of any path: its entries are the same and steady,
/// its pointers hold the same, and its end too unless it is the entry that was marked.
proof fn lemma_marks_path(
    bus: BusView,
    b: BusView,
    last: u64,
    access: AccessType,
    table: u64,
    level: nat,
    va: u64,
)
    requires
        table % 4096 == 0,
        table <= 0xFF_FFFF_FFFF_F000,
        path_steady(bus, path(bus, table, level, va)),
        !is_pointer(word_at(bus, path(bus, table, level, va).last())),
        marks(bus, b, last, access),
        last % 8 == 0,
        !is_pointer(word_at(bus, last)),
    ensures
        ({
            let p = path(bus, table, level, va);
            &&& path(b, table, level, va) == p
            &&& path_steady(b, p)
            &&& forall|i: int|
                0 <= i < p.len() - 1 ==> word_at(b, #[trigger] p[i]) == word_at(bus, p[i])
            &&& word_at(b, p.last()) == word_at(bus, p.last()) || (p.last() == last && word_at(
                b,
                last,
            ) == marked(word_at(bus, last), access))
            &&& same_but_dram(bus, b)
            &&& differ_in(bus, b, last, 8)
        }),
{
    let p = path(bus, table, level, va);
    assert(p.len() > 0) by {
        lemma_path_nonempty(bus, table, level, va);
    }
    assert forall|i: int| 0 <= i < p.len() implies steady(b, #[trigger] p[i]) && (p[i] != last
        ==> word_at(b, p[i]) == word_at(bus, p[i])) by {
        lemma_path_entries(bus, table, level, va, i);
        lemma_marks_entry(bus, b, last, access, p[i]);
    }
    assert forall|i: int| 0 <= i < p.len() - 1 implies word_at(b, #[trigger] p[i]) == word_at(
        bus,
        p[i],
    ) by {
        lemma_path_entries(bus, table, level, va, i);
    }
    assert(p.last() == p[p.len() - 1]);
    lemma_path_entries(bus, table, level, va, p.len() - 1);
    lemma_marks_entry(bus, b, last, access, p.last());
    lemma_marked(word_at(bus, last), access);
    lemma_path_frame(bus, b, table, level, va);
}

/// A path has an entry at least.
proof fn lemma_path_nonempty(bus: BusView, table: u64, level: nat, va: u64)
    ensures
        path(bus, table, level, va).len() > 0,
{
}

/// A walk through steady entries that succeeded can be repeated: it comes to the same
/// and changes nothing more.
proof fn lemma_walk_again(
    bus: BusView,
    table: u64,
    level: nat,
    va: u64,
    access: AccessType,
    mode: Mode,
    mstatus: u64,
)
    requires
        table % 4096 == 0,
        table <= 0xFF_FFFF_FFFF_F000,
        path_steady(bus, path(bus, table, level, va)),
        walk(bus, table, level, va, access, mode, mstatus).1 is Ok,
    ensures
        ({
            let (b, r) = walk(bus, table, level, va, access, mode, mstatus);
            &&& walk(b, table, level, va, access, mode, mstatus) == (b, r)
            &&& path(b, table, level, va) == path(bus, table, level, va)
        }),
{
    let p = path(bus, table, level, va);
    let last = p.last();
    let pte = word_at(bus, last);
    let b = walk(bus, table, level, va, access, mode, mstatus).0;
    lemma_walk_effect(bus, table, level, va, access, mode, mstatus);
    lemma_marks_path(bus, b, last, access, table, level, va);
    if in_dram(bus, last, 8) {
        lemma_walk_by_path(bus, table, level, va, access, mode, mstatus);
        lemma_walk_by_path(b, table, level, va, access, mode, mstatus);
        lemma_marked(pte, access);
        law_marks(pte, access);
        assert(permitted(marked(pte, access), access, mode, mstatus) == permitted(
            pte,
            access,
            mode,
            mstatus,
        ));
    }
}

/// A translation through steady entries can be repeated: the second time it gives the
/// same address and changes nothing more.
pub proof fn law_translation_is_stable(
    bus: BusView,
    va: u64,
    access: AccessType,
    mode: Mode,
    satp: u64,
    mstatus: u64,
)
    requires
        effective_mode(access, mode, mstatus) != Mode::Machine && satp / 0x1000_0000_0000_0000
            != 0 ==> path_steady(bus, translation_path(bus, satp, va)),
        translated(bus, va, access, mode, satp, mstatus).1 is Ok,
    ensures
        ({
            let (b, r) = translated(bus, va, access, mode, satp, mstatus);
            translated(b, va, access, mode, satp, mstatus) == (b, r)
        }),
{
    reveal(translated);
    let m = effective_mode(access, mode, mstatus);
    if m != Mode::Machine && satp / 0x1000_0000_0000_0000 != 0 {
        let (root, level) = root_of(satp);
        lemma_walk_again(bus, root, level, va, access, m, mstatus);
    }
}

/// A translation by a page table of `level + 1` levels, with its entries in main
/// memory, that succeeds marks the entry at the end of its path, as accessed and by a
/// store as written, and changes nothing else: no other bit of that entry, no other
/// byte of memory, no device. It keeps the offset within the page; made again it goes
/// through the same entries, gives the same and changes nothing.
pub proof fn law_paged_translation_marks(
    bus: BusView,
    half: u64,
    level: nat,
    va: u64,
    access: AccessType,
    mode: Mode,
    satp: u64,
    mstatus: u64,
)
    requires
        path_in_dram(bus, path(bus, root_of(satp).0, level, va)),
        translate_paged(bus, half, level, va, access, mode, satp, mstatus).1 is Ok,
    ensures
        ({
            let (b, r) = translate_paged(bus, half, level, va, access, mode, satp, mstatus);
            let p = path(bus, root_of(satp).0, level, va);
            let pte = word_at(bus, p.last());
            &&& p.len() > 0 && in_dram(bus, p.last(), 8)
            &&& word_at(b, p.last()) == pte | PTE_A | if access == AccessType::Store {
                PTE_D
            } else {
                0
            }
            &&& differ_in(bus, b, p.last(), 8)
            &&& r->Ok_0 % 4096 == va % 4096
            &&& path(b, root_of(satp).0, level, va) == p
            &&& translate_paged(b, half, level, va, access, mode, satp, mstatus) == (b, r)
        }),
{
    let root = root_of(satp).0;
    let p = path(bus, root, level, va);
    let last = p.last();
    let pte = word_at(bus, last);
    let b = walk(bus, root, level, va, access, mode, mstatus).0;
    assert forall|i: int| 0 <= i < p.len() implies steady(bus, #[trigger] p[i]) by {
        assert(in_dram(bus, p[i], 8));
    }
    lemma_walk_effect(bus, root, level, va, access, mode, mstatus);
    lemma_walk_again(bus, root, level, va, access, mode, mstatus);
    lemma_marks_entry(bus, b, last, access, last);
    lemma_walk(bus, root, level, va, access, mode, mstatus);
    assert(in_dram(bus, p[p.len() - 1], 8));
    assert(pte | 0xC0 == pte | 0x40 | 0x80 && pte | 0x40 == pte | 0x40 | 0) by (bit_vector);
}

/// The same of a translation by the page table that `SATP` says.
pub proof fn law_translation_marks(
    bus: BusView,
    va: u64,
    access: AccessType,
    mode: Mode,
    satp: u64,
    mstatus: u64,
)
    requires
        effective_mode(access, mode, mstatus) != Mode::Machine,
        satp / 0x1000_0000_0000_0000 != 0,
        path_in_dram(bus, translation_path(bus, satp, va)),
        translated(bus, va, access, mode, satp, mstatus).1 is Ok,
    ensures
        ({
            let (b, r) = translated(bus, va, access, mode, satp, mstatus);
            let p = translation_path(bus, satp, va);
            let pte = word_at(bus, p.last());
            &&& p.len() > 0 && in_dram(bus, p.last(), 8)
            &&& word_at(b, p.last()) == pte | PTE_A | if access == AccessType::Store {
                PTE_D
            } else {
                0
            }
            &&& differ_in(bus, b, p.last(), 8)
            &&& r->Ok_0 % 4096 == va % 4096
            &&& translation_path(b, satp, va) == p
            &&& translated(b, va, access, mode, satp, mstatus) == (b, r)
        }),
{
    reveal(translated);
    let m = effective_mode(access, mode, mstatus);
    let scheme = satp / 0x1000_0000_0000_0000;
    let half: u64 = if scheme == 8 {
        0x40_0000_0000
    } else if scheme == 9 {
        0x8000_0000_0000
    } else {
        0x100_0000_0000_0000
    };
    law_paged_translation_marks(bus, half, root_of(satp).1, va, access, m, satp, mstatus);
}

/// None of the entries of a path has a byte in common with the `n` bytes from `at`
/// on.
pub open spec fn path_clear_of(p: Seq<u64>, at: u64, n: nat) -> bool {
    forall|i: int| 0 <= i < p.len() ==> (#[trigger] p[i] + 8 <= at || at + n <= p[i])
}

/// Data accesses are translated through a page table.
pub open spec fn paged(mode: Mode, satp: u64, mstatus: u64) -> bool {
    effective_mode(AccessType::Store, mode, mstatus) != Mode::Machine && satp
        / 0x1000_0000_0000_0000 != 0
}

/// A store to `va` is translated to `pa` by the steady entries of `p`.
pub open spec fn maps_store(
    bus: BusView,
    va: u64,
    mode: Mode,
    satp: u64,
    mstatus: u64,
    p: Seq<u64>,
    pa: u64,
) -> bool {
    &&& translation_path(bus, satp, va) == p
    &&& path_steady(bus, p)
    &&& translated(bus, va, AccessType::Store, mode, satp, mstatus).1 == Ok::<u64, Trap>(pa)
}

/// The entry at the end of `p` has the marks of a store, if it can be marked.
pub open spec fn store_marked(bus: BusView, p: Seq<u64>) -> bool {
    in_dram(bus, p.last(), 8) ==> !needs_mark(word_at(bus, p.last()), AccessType::Store)
}

/// A translated store is a walk.
proof fn lemma_store_walk(bus: BusView, va: u64, mode: Mode, satp: u64, mstatus: u64)
    requires
        paged(mode, satp, mstatus),
        translated(bus, va, AccessType::Store, mode, satp, mstatus).1 is Ok,
    ensures
        ({
            let m = effective_mode(AccessType::Store, mode, mstatus);
            let (root, level) = root_of(satp);
            &&& translated(bus, va, AccessType::Store, mode, satp, mstatus) == walk(
                bus,
                root,
                level,
                va,
                AccessType::Store,
                m,
                mstatus,
            )
            &&& root % 4096 == 0 && root <= 0xFF_FFFF_FFFF_F000
        }),
{
    reveal(translated);
}

/// A mapping outlasts what changes main memory only, leaves its pointers alone and
/// does no more to its last entry than mark it.
proof fn lemma_mapping_survives(
    bus: BusView,
    b: BusView,
    va: u64,
    mode: Mode,
    satp: u64,
    mstatus: u64,
    p: Seq<u64>,
    pa: u64,
)
    requires
        paged(mode, satp, mstatus),
        maps_store(bus, va, mode, satp, mstatus, p, pa),
        same_but_dram(bus, b),
        forall|i: int| 0 <= i < p.len() - 1 ==> word_at(b, #[trigger] p[i]) == word_at(bus, p[i]),
        word_at(b, p.last()) == word_at(bus, p.last()) || (in_dram(bus, p.last(), 8) && word_at(
            b,
            p.last(),
        ) == marked(word_at(bus, p.last()), AccessType::Store)),
    ensures
        maps_store(b, va, mode, satp, mstatus, p, pa),
        store_marked(bus, p) ==> store_marked(b, p),
{
    let m = effective_mode(AccessType::Store, mode, mstatus);
    let last = p.last();
    let pte = word_at(bus, last);
    let (root, level) = root_of(satp);
    let store = AccessType::Store;
    law_marks(pte, store);
    lemma_marked(pte, store);
    lemma_store_walk(bus, va, mode, satp, mstatus);
    lemma_walk_by_path(bus, root, level, va, store, m, mstatus);
    lemma_path_frame(bus, b, root, level, va);
    assert forall|i: int| 0 <= i < p.len() implies steady(b, #[trigger] p[i]) by {
        lemma_still_steady(bus, b, p[i]);
    }
    assert(last == p[p.len() - 1]);
    lemma_still_steady(bus, b, last);
    lemma_walk_by_path(b, root, level, va, store, m, mstatus);
    let found = word_at(b, last);
    assert(walk(b, root, level, va, store, m, mstatus).1 == Ok::<u64, Trap>(pa)) by {
        if in_dram(b, last, 8) {
            lemma_write_dram(b, last, marked(found, store));
        } else {
            lemma_elsewhere(bus, b.dram, last, marked(pte, store));
        }
        assert(permitted(found, store, m, mstatus) == permitted(pte, store, m, mstatus));
        assert(target(found) == target(pte));
    }
    assert(translated(b, va, store, mode, satp, mstatus).1 == Ok::<u64, Trap>(pa)) by {
        reveal(translated);
    }
}

/// The translation of one store marks its last entry, and leaves the mapping of
/// every other store as it was.
pub(crate) proof fn lemma_store_keeps_mapping(
    bus: BusView,
    va: u64,
    p: Seq<u64>,
    pa: u64,
    other: u64,
    q: Seq<u64>,
    qa: u64,
    mode: Mode,
    satp: u64,
    mstatus: u64,
)
    requires
        paged(mode, satp, mstatus),
        maps_store(bus, va, mode, satp, mstatus, p, pa),
        maps_store(bus, other, mode, satp, mstatus, q, qa),
    ensures
        ({
            let b = translated(bus, va, AccessType::Store, mode, satp, mstatus).0;
            &&& maps_store(b, other, mode, satp, mstatus, q, qa)
            &&& store_marked(bus, q) ==> store_marked(b, q)
            &&& store_marked(b, p)
            &&& differ_in(bus, b, p.last(), 8)
            &&& p.len() > 0
        }),
{
    let store = AccessType::Store;
    let b = translated(bus, va, store, mode, satp, mstatus).0;
    let m = effective_mode(store, mode, mstatus);
    let (root, level) = root_of(satp);
    let last = p.last();
    lemma_store_walk(bus, va, mode, satp, mstatus);
    lemma_store_walk(bus, other, mode, satp, mstatus);
    lemma_walk_effect(bus, root, level, va, store, m, mstatus);
    lemma_walk_effect(bus, root, level, other, store, m, mstatus);
    lemma_marks_path(bus, b, last, store, root, level, other);
    law_marks(word_at(bus, last), store);
    lemma_mapping_survives(bus, b, other, mode, satp, mstatus, q, qa);
}

/// A change of bytes that no entry of the path holds leaves a mapping as it was.
pub(crate) proof fn lemma_change_keeps_mapping(
    bus: BusView,
    b: BusView,
    va: u64,
    mode: Mode,
    satp: u64,
    mstatus: u64,
    p: Seq<u64>,
    pa: u64,
    at: u64,
    n: nat,
)
    requires
        paged(mode, satp, mstatus),
        maps_store(bus, va, mode, satp, mstatus, p, pa),
        differ_in(bus, b, at, n),
        path_clear_of(p, at, n),
        p.len() > 0,
    ensures
        maps_store(b, va, mode, satp, mstatus, p, pa),
        store_marked(b, p) == store_marked(bus, p),
{
    assert forall|i: int| 0 <= i < p.len() implies word_at(b, #[trigger] p[i]) == word_at(
        bus,
        p[i],
    ) by {
        assert(steady(bus, p[i]));
        lemma_still_steady(bus, b, p[i]);
        if in_dram(bus, p[i], 8) {
            lemma_dram_word(bus, p[i]);
            lemma_dram_word(b, p[i]);
            let a = p[i] - DRAM_BASE;
            assert(p[i] + 8 <= at || at + n <= p[i]);
            assert(b.dram.subrange(a, a + 8) =~= bus.dram.subrange(a, a + 8));
        }
    }
    assert(p.last() == p[p.len() - 1]);
    lemma_mapping_survives(bus, b, va, mode, satp, mstatus, p, pa);
}

/// Where a store was translated before, a load is translated to the same place, and
/// changes nothing.
pub(crate) proof fn lemma_load_of_marked(
    bus: BusView,
    va: u64,
    mode: Mode,
    satp: u64,
    mstatus: u64,
    p: Seq<u64>,
    pa: u64,
)
    requires
        paged(mode, satp, mstatus),
        maps_store(bus, va, mode, satp, mstatus, p, pa),
        store_marked(bus, p),
    ensures
        translated(bus, va, AccessType::Load, mode, satp, mstatus) == (bus, Ok::<u64, Trap>(pa)),
{
    reveal(translated);
    let m = effective_mode(AccessType::Store, mode, mstatus);
    let (root, level) = root_of(satp);
    let last = p.last();
    let pte = word_at(bus, last);
    lemma_walk_by_path(bus, root, level, va, AccessType::Store, m, mstatus);
    lemma_walk_by_path(bus, root, level, va, AccessType::Load, m, mstatus);
    assert(permitted(pte, AccessType::Load, m, mstatus));
    assert(steady(bus, p[p.len() - 1]));
    if needs_mark(pte, AccessType::Load) {
        assert(!in_dram(bus, last, 8));
        lemma_taken_elsewhere(
            bus,
            last,
            marked(pte, AccessType::Store),
            marked(pte, AccessType::Load),
        );
    }
}

/// After a store was translated through steady entries, and then changed bytes that
/// are not part of them, a load of the same address is translated to the same place,
/// and changes nothing. Both together changed main memory at most.
pub proof fn law_load_follows_store(
    bus: BusView,
    after: BusView,
    va: u64,
    mode: Mode,
    satp: u64,
    mstatus: u64,
    at: u64,
    n: nat,
)
    requires
        paged(mode, satp, mstatus) ==> path_steady(bus, translation_path(bus, satp, va))
            && path_clear_of(translation_path(bus, satp, va), at, n),
        translated(bus, va, AccessType::Store, mode, satp, mstatus).1 is Ok,
        differ_in(translated(bus, va, AccessType::Store, mode, satp, mstatus).0, after, at, n),
    ensures
        translated(after, va, AccessType::Load, mode, satp, mstatus) == (
            after,
            translated(bus, va, AccessType::Store, mode, satp, mstatus).1,
        ),
        same_but_dram(bus, after),
{
    let (b, r) = translated(bus, va, AccessType::Store, mode, satp, mstatus);
    let p = translation_path(bus, satp, va);
    let pa = r->Ok_0;
    if paged(mode, satp, mstatus) {
        lemma_store_keeps_mapping(bus, va, p, pa, va, p, pa, mode, satp, mstatus);
        lemma_change_keeps_mapping(b, after, va, mode, satp, mstatus, p, pa, at, n);
        lemma_load_of_marked(after, va, mode, satp, mstatus, p, pa);
    } else {
        reveal(translated);
    }
}

} // verus!
