//! What a translation through page tables comes to, in terms of the bit fields of the
//! address and of the entries.

#[allow(unused_imports)]
use crate::bus::{in_dram, BusView};
#[allow(unused_imports)]
use crate::cpu::Mode;
#[allow(unused_imports)]
use crate::mmu::{
    entry_addr, flag, leaf, marked, needs_mark, permitted, span, target, translate_paged,
    translated, walk, AccessType, PTE_A, PTE_D, PTE_R, PTE_U, PTE_V, PTE_W, PTE_X,
};
#[allow(unused_imports)]
use crate::mmu_laws::{
    differ_in, is_pointer, lemma_dram_word, lemma_walk_by_path, lemma_write_dram, path,
    path_in_dram, path_steady, steady, word_at,
};
#[allow(unused_imports)]
use crate::trap::{Exception, Trap};
use vstd::prelude::*;

verus! {

/// The nine bits of `va` that select an entry of a table of level `i`: bits 12 to 20 for
/// level 0, and nine bits further up for each level.
pub open spec fn index_field(va: u64, i: int) -> u64 {
    if i == 0 {
        (va >> 12) & 0x1FF
    } else if i == 1 {
        (va >> 21) & 0x1FF
    } else if i == 2 {
        (va >> 30) & 0x1FF
    } else if i == 3 {
        (va >> 39) & 0x1FF
    } else {
        (va >> 48) & 0x1FF
    }
}

/// The offset of `va` in a page that an entry of level `i` maps: all bits below the
/// field of that level.
pub open spec fn offset_field(va: u64, i: int) -> u64 {
    if i == 0 {
        va & 0xFFF
    } else if i == 1 {
        va & 0x1F_FFFF
    } else if i == 2 {
        va & 0x3FFF_FFFF
    } else if i == 3 {
        va & 0x7F_FFFF_FFFF
    } else {
        va & 0xFFFF_FFFF_FFFF
    }
}

/// The page number in an entry: bits 10 to 53.
pub open spec fn page_number(pte: u64) -> u64 {
    (pte >> 10) & 0xFFF_FFFF_FFFF
}

/// Bit `n` of `v`.
pub open spec fn bit_of(v: u64, n: u64) -> bool {
    (v >> n) & 1 == 1
}

/// Valid, and none of readable, writable and executable: the entry points to a table.
pub open spec fn points(pte: u64) -> bool {
    bit_of(pte, 0) && !bit_of(pte, 1) && !bit_of(pte, 2) && !bit_of(pte, 3)
}

/// The entry lets `mode` make this access. User pages (bit 4) are for user mode, and for
/// data accesses of supervisor mode under SUM; the others are not for user mode. A fetch
/// needs bit 3, a store bit 2, a load bit 1 or, under MXR, bit 3.
pub open spec fn grants(pte: u64, access: AccessType, mode: Mode, mstatus: u64) -> bool {
    &&& match mode {
        Mode::User => bit_of(pte, 4),
        Mode::Supervisor => !bit_of(pte, 4) || (bit_of(mstatus, 18) && access
            != AccessType::Instruction),
        _ => true,
    }
    &&& match access {
        AccessType::Instruction => bit_of(pte, 3),
        AccessType::Store => bit_of(pte, 2),
        AccessType::Load => bit_of(pte, 1) || (bit_of(mstatus, 19) && bit_of(pte, 3)),
    }
}

/// An entry of level `i` maps a page for this access: it is valid, not writable without
/// being readable, grants the access, and its page is aligned to its size.
pub open spec fn maps(pte: u64, i: int, access: AccessType, mode: Mode, mstatus: u64) -> bool {
    &&& bit_of(pte, 0)
    &&& bit_of(pte, 2) ==> bit_of(pte, 1)
    &&& bit_of(pte, 1) || bit_of(pte, 2) || bit_of(pte, 3)
    &&& grants(pte, access, mode, mstatus)
    &&& offset_field((page_number(pte) * 4096) as u64, i) == 0
}

/// The page fault of each access.
pub open spec fn fault_for(access: AccessType) -> Trap {
    match access {
        AccessType::Instruction => Trap::Exception(Exception::InstructionPageFault),
        AccessType::Load => Trap::Exception(Exception::LoadPageFault),
        AccessType::Store => Trap::Exception(Exception::StoreAMOPageFault),
    }
}

/// `e` are the entries on the way of `va` from the table at `table`, of level `top`, on:
/// in each table the one that the field of `va` for its level says, and each table where
/// the entry before points. The way ends at the first entry that points nowhere, or at
/// level 0.
pub open spec fn way(bus: BusView, table: int, top: int, va: u64, e: Seq<u64>) -> bool {
    &&& 1 <= e.len() <= top + 1
    &&& path_in_dram(bus, e)
    &&& e[0] == table + 8 * index_field(va, top)
    &&& forall|i: int|
        #![trigger e[i]]
        0 < i < e.len() ==> points(word_at(bus, e[i - 1])) && e[i] == page_number(
            word_at(bus, e[i - 1]),
        ) * 4096 + 8 * index_field(va, top - i)
    &&& e.len() == top + 1 || !points(word_at(bus, e.last()))
}

/// Fields of bits as quotients and remainders.
#[verifier::rlimit(60)]
proof fn lemma_fields(va: u64, pte: u64)
    ensures
        forall|i: nat| i <= 4 ==> #[trigger] index_field(va, i as int) == va / span(i) % 512,
        forall|i: nat| i <= 4 ==> #[trigger] offset_field(va, i as int) == va % span(i),
        index_field(va, 0) < 512 && index_field(va, 1) < 512 && index_field(va, 2) < 512
            && index_field(va, 3) < 512 && index_field(va, 4) < 512,
        page_number(pte) == pte / 1024 % 0x1000_0000_0000,
        page_number(pte) < 0x1000_0000_0000,
        bit_of(pte, 0) == flag(pte, PTE_V),
        bit_of(pte, 1) == flag(pte, PTE_R),
        bit_of(pte, 2) == flag(pte, PTE_W),
        bit_of(pte, 3) == flag(pte, PTE_X),
        bit_of(pte, 4) == flag(pte, PTE_U),
        bit_of(va, 18) == (va / 0x4_0000 % 2 == 1),
        bit_of(va, 19) == (va / 0x8_0000 % 2 == 1),
{
    assert({
        &&& (va >> 12) & 0x1FF == va / 0x1000 % 512
        &&& (va >> 21) & 0x1FF == va / 0x20_0000 % 512
        &&& (va >> 30) & 0x1FF == va / 0x4000_0000 % 512
        &&& (va >> 39) & 0x1FF == va / 0x80_0000_0000 % 512
        &&& (va >> 48) & 0x1FF == va / 0x1_0000_0000_0000 % 512
        &&& va & 0xFFF == va % 0x1000
        &&& va & 0x1F_FFFF == va % 0x20_0000
        &&& va & 0x3FFF_FFFF == va % 0x4000_0000
        &&& va & 0x7F_FFFF_FFFF == va % 0x80_0000_0000
        &&& va & 0xFFFF_FFFF_FFFF == va % 0x1_0000_0000_0000
        &&& (pte >> 10) & 0xFFF_FFFF_FFFF == pte / 1024 % 0x1000_0000_0000
        &&& ((pte >> 0) & 1 == 1) == (pte & 1 != 0)
        &&& ((pte >> 1) & 1 == 1) == (pte & 2 != 0)
        &&& ((pte >> 2) & 1 == 1) == (pte & 4 != 0)
        &&& ((pte >> 3) & 1 == 1) == (pte & 8 != 0)
        &&& ((pte >> 4) & 1 == 1) == (pte & 0x10 != 0)
        &&& ((va >> 18) & 1 == 1) == (va / 0x4_0000 % 2 == 1)
        &&& ((va >> 19) & 1 == 1) == (va / 0x8_0000 % 2 == 1)
    }) by (bit_vector);
}

/// The way of an address is the path of the walk.
#[verifier::rlimit(60)]
proof fn lemma_way_is_path(bus: BusView, table: u64, top: nat, va: u64, e: Seq<u64>)
    requires
        way(bus, table as int, top as int, va, e),
        top <= 4,
    ensures
        path(bus, table, top, va) == e,
    decreases top,
{
    let pte = word_at(bus, e[0]);
    lemma_fields(va, pte);
    assert(in_dram(bus, e[0], 8));
    assert(e[0] == entry_addr(table, va, top)) by {
        assert(index_field(va, top as int) == va / span(top) % 512);
    }
    if e.len() > 1 {
        let rest = e.skip(1);
        let k: int = 1;
        let second = e[k];
        assert(points(word_at(bus, e[k - 1])));
        assert(second == page_number(word_at(bus, e[0])) * 4096 + 8 * index_field(va, top - 1));
        assert(target(pte) == page_number(pte) * 4096);
        assert forall|i: int| 0 <= i < rest.len() implies in_dram(bus, #[trigger] rest[i], 8) by {
            assert(rest[i] == e[i + 1]);
        }
        assert forall|i: int| #![trigger rest[i]] 0 < i < rest.len() implies points(
            word_at(bus, rest[i - 1]),
        ) && rest[i] == page_number(word_at(bus, rest[i - 1])) * 4096 + 8 * index_field(
            va,
            top - 1 - i,
        ) by {
            assert(rest[i] == e[i + 1] && rest[i - 1] == e[i]);
        }
        assert(rest.last() == e.last());
        lemma_way_is_path(bus, target(pte), (top - 1) as nat, va, rest);
        assert(e =~= seq![e[0]] + rest);
    } else {
        assert(e =~= seq![e[0]]);
        assert(e.last() == e[0]);
    }
}

/// The scheme that `satp` selects has `levels` levels: 8 stands for three, 9 for four and
/// 10 for five.
pub open spec fn levels_of(satp: u64, levels: int) -> bool {
    satp >> 60 == levels + 5 && 3 <= levels <= 5
}

/// `va` is sign-extended: all bits from the top one of its fields on are equal.
pub open spec fn sign_extended(va: u64, levels: int) -> bool {
    if levels == 3 {
        va >> 38 == 0 || va >> 38 == 0x3FF_FFFF
    } else if levels == 4 {
        va >> 47 == 0 || va >> 47 == 0x1_FFFF
    } else {
        va >> 56 == 0 || va >> 56 == 0xFF
    }
}

/// In user and in supervisor mode a translation goes by the entries on the way of the
/// address. If the last of them maps a page for the access, the result is the page's
/// address and the offset, the entry is marked as accessed and by a store as written, and
/// no other byte changes. If not, the access faults and nothing changes; nor is the way
/// looked at for an address that is not sign-extended.
#[verifier::rlimit(60)]
pub proof fn law_translation_by_fields(
    bus: BusView,
    va: u64,
    access: AccessType,
    mode: Mode,
    satp: u64,
    mstatus: u64,
    levels: int,
    e: Seq<u64>,
)
    requires
        mode == Mode::User || mode == Mode::Supervisor,
        levels_of(satp, levels),
        way(bus, (satp & 0xFFF_FFFF_FFFF) * 4096, levels - 1, va, e),
    ensures
        ({
            let (b, r) = translated(bus, va, access, mode, satp, mstatus);
            let pte = word_at(bus, e.last());
            let level = levels - e.len();
            if sign_extended(va, levels) && maps(pte, level, access, mode, mstatus) {
                &&& r == Ok::<u64, Trap>(
                    (page_number(pte) * 4096 + offset_field(va, level)) as u64,
                )
                &&& word_at(b, e.last()) == (if access == AccessType::Store {
                    pte | 0xC0
                } else {
                    pte | 0x40
                })
                &&& differ_in(bus, b, e.last(), 8)
            } else {
                r == Err::<u64, Trap>(fault_for(access)) && b == bus
            }
        }),
{
    reveal(translated);
    let top = (levels - 1) as nat;
    let root = (satp % 0x1000_0000_0000 * 4096) as u64;
    assert(satp & 0xFFF_FFFF_FFFF == satp % 0x1000_0000_0000 && satp >> 60 == satp
        / 0x1000_0000_0000_0000 && (va >> 38 == 0 || va >> 38 == 0x3FF_FFFF) == (va
        < 0x40_0000_0000 || va >= 0xFFFF_FFC0_0000_0000) && (va >> 47 == 0 || va >> 47 == 0x1_FFFF)
        == (va < 0x8000_0000_0000 || va >= 0xFFFF_8000_0000_0000) && (va >> 56 == 0 || va >> 56
        == 0xFF) == (va < 0x100_0000_0000_0000 || va >= 0xFF00_0000_0000_0000)) by (bit_vector);
    lemma_way_is_path(bus, root, top, va, e);
    assert(path_steady(bus, e)) by {
        assert forall|i: int| 0 <= i < e.len() implies steady(bus, #[trigger] e[i]) by {
            assert(in_dram(bus, e[i], 8));
        }
    }
    lemma_walk_by_path(bus, root, top, va, access, mode, mstatus);
    let last = e.last();
    assert(last == e[e.len() - 1]);
    let pte = word_at(bus, last);
    let level = (levels - e.len()) as nat;
    let page = (page_number(pte) * 4096) as u64;
    lemma_fields(va, pte);
    lemma_fields(page, pte);
    lemma_fields(mstatus, pte);
    assert(target(pte) == page);
    assert(offset_field(page, level as int) == page % span(level));
    assert(offset_field(va, level as int) == va % span(level));
    lemma_dram_word(bus, last);
    lemma_write_dram(bus, last, marked(pte, access));
    crate::mmu::law_marks(pte, access);
    crate::bytes::lemma_byte_ranges();
    crate::bytes::law_read_after_write(
        bus.dram,
        last - crate::bus::DRAM_BASE,
        8,
        marked(pte, access) as nat,
    );
}

/// A table has 512 entries, one for each value of its field: addresses that differ in the
/// field of a level select different entries of a table of that level.
#[verifier::rlimit(60)]
pub proof fn law_tables_have_512_entries(table: u64, va: u64, vb: u64, level: nat)
    requires
        level <= 4,
        table <= 0xFF_FFFF_FFFF_F000,
        index_field(va, level as int) != index_field(vb, level as int),
    ensures
        entry_addr(table, va, level) != entry_addr(table, vb, level),
        entry_addr(table, va, level) == table + 8 * index_field(va, level as int),
        table <= entry_addr(table, va, level) <= table + 4088,
{
    lemma_fields(va, 0);
    lemma_fields(vb, 0);
    assert(index_field(va, level as int) == va / span(level) % 512);
    assert(index_field(vb, level as int) == vb / span(level) % 512);
}

/// In machine mode bit 17 of `MSTATUS` lends data accesses the rights of the mode in bits 11
/// and 12; without it, and for fetches, addresses are physical. They are so in every mode
/// while the upper four bits of `satp` are zero. With other numbers there than 8 to 10
/// every access faults.
#[verifier::rlimit(60)]
pub proof fn law_rights(
    bus: BusView,
    va: u64,
    access: AccessType,
    mode: Mode,
    satp: u64,
    mstatus: u64,
)
    ensures
        ({
            let lent = bit_of(mstatus, 17) && access != AccessType::Instruction;
            let r = translated(bus, va, access, Mode::Machine, satp, mstatus);
            &&& !lent ==> r == (bus, Ok::<u64, Trap>(va))
            &&& lent && (mstatus >> 11) & 3 == 0 ==> r == translated(
                bus,
                va,
                access,
                Mode::User,
                satp,
                mstatus,
            )
            &&& lent && (mstatus >> 11) & 3 == 1 ==> r == translated(
                bus,
                va,
                access,
                Mode::Supervisor,
                satp,
                mstatus,
            )
            &&& lent && (mstatus >> 11) & 3 == 3 ==> r == (bus, Ok::<u64, Trap>(va))
        }),
        satp >> 60 == 0 ==> translated(bus, va, access, mode, satp, mstatus) == (
            bus,
            Ok::<u64, Trap>(va),
        ),
        (mode == Mode::User || mode == Mode::Supervisor) && satp >> 60 != 0 && satp >> 60 != 8
            && satp >> 60 != 9 && satp >> 60 != 10 ==> translated(
            bus,
            va,
            access,
            mode,
            satp,
            mstatus,
        ) == (bus, Err::<u64, Trap>(fault_for(access))),
{
    reveal(translated);
    assert(satp >> 60 == satp / 0x1000_0000_0000_0000 && ((mstatus >> 17) & 1 == 1) == (mstatus
        / 0x2_0000 % 2 == 1) && (mstatus >> 11) & 3 == mstatus / 0x800 % 4) by (bit_vector);
}

} // verus!
