//! Address translation: Sv39, Sv48 and Sv57 page tables.

use crate::bus::Bus;
#[allow(unused_imports)]
use crate::bus::BusView;
#[allow(unused_imports)]
use crate::cpu::mode_of;
use crate::cpu::Mode;
use crate::trap::{Exception, Trap};
#[allow(unused_imports)]
use vstd::arithmetic::div_mod::{lemma_fundamental_div_mod, lemma_mod_mod};
use vstd::prelude::*;

verus! {

/// Page table entry: it is valid.
pub const PTE_V: u64 = 0x01;

/// Page table entry: the page can be read.
pub const PTE_R: u64 = 0x02;

/// Page table entry: the page can be written.
pub const PTE_W: u64 = 0x04;

/// Page table entry: the page can be executed.
pub const PTE_X: u64 = 0x08;

/// Page table entry: the page belongs to user mode.
pub const PTE_U: u64 = 0x10;

/// Page table entry: the page was accessed.
pub const PTE_A: u64 = 0x40;

/// Page table entry: the page was written.
pub const PTE_D: u64 = 0x80;

/// The translation modes of `SATP`.
#[derive(Debug, Clone, Copy, PartialEq, Eq, Structural)]
pub enum SatpMode {
    /// No translation.
    Bare,
    /// Three levels.
    Sv39,
    /// Four levels.
    Sv48,
    /// Five levels.
    Sv57,
}

/// What memory is accessed for.
#[derive(Debug, Clone, Copy, PartialEq, Eq, Structural)]
pub enum AccessType {
    Instruction,
    Load,
    Store,
}

/// The translation unit. It holds no state: every translation walks the page
/// table.
pub struct Mmu;

/// The page fault of an access.
pub open spec fn page_fault_of(access: AccessType) -> Trap {
    match access {
        AccessType::Instruction => Trap::Exception(Exception::InstructionPageFault),
        AccessType::Load => Trap::Exception(Exception::LoadPageFault),
        AccessType::Store => Trap::Exception(Exception::StoreAMOPageFault),
    }
}

/// Some bit of `flags` is set in `pte`.
pub open spec fn flag(pte: u64, flags: u64) -> bool {
    pte & flags != 0
}

/// How many bytes an entry of the given level maps.
pub open spec fn span(level: nat) -> u64 {
    if level == 0 {
        0x1000
    } else if level == 1 {
        0x20_0000
    } else if level == 2 {
        0x4000_0000
    } else if level == 3 {
        0x80_0000_0000
    } else {
        0x1_0000_0000_0000
    }
}

/// The address of the page or table that an entry points to.
pub open spec fn target(pte: u64) -> u64 {
    ((pte / 1024) % 0x1000_0000_0000 * 4096) as u64
}

/// The address of the entry for `va` in the table at `table`.
pub open spec fn entry_addr(table: u64, va: u64, level: nat) -> u64 {
    (table + va / span(level) % 512 * 8) as u64
}

/// The page that `pte` maps may be accessed in this way from `mode`.
pub open spec fn permitted(pte: u64, access: AccessType, mode: Mode, mstatus: u64) -> bool {
    let mxr = mstatus / 0x8_0000 % 2 == 1;
    let sum = mstatus / 0x4_0000 % 2 == 1;
    &&& if flag(pte, PTE_U) {
        mode == Mode::Supervisor ==> sum && access != AccessType::Instruction
    } else {
        mode != Mode::User
    }
    &&& match access {
        AccessType::Instruction => flag(pte, PTE_X),
        AccessType::Load => flag(pte, PTE_R) || (mxr && flag(pte, PTE_X)),
        AccessType::Store => flag(pte, PTE_W),
    }
}

/// `pte` after an access: it is marked as accessed, and by a store as written.
pub open spec fn marked(pte: u64, access: AccessType) -> u64 {
    if access == AccessType::Store {
        pte | 0xC0
    } else {
        pte | 0x40
    }
}

/// `pte` lacks a mark that an access sets.
pub open spec fn needs_mark(pte: u64, access: AccessType) -> bool {
    !flag(pte, PTE_A) || (access == AccessType::Store && !flag(pte, PTE_D))
}

/// The walk has reached the entry `pte` at `addr`, which maps a page.
pub open spec fn leaf(
    bus: BusView,
    addr: u64,
    pte: u64,
    level: nat,
    va: u64,
    access: AccessType,
    mode: Mode,
    mstatus: u64,
) -> (BusView, Result<u64, Trap>) {
    let fault = page_fault_of(access);
    if !permitted(pte, access, mode, mstatus) || target(pte) % span(level) != 0 {
        (bus, Err(fault))
    } else {
        let pa = (target(pte) + va % span(level)) as u64;
        if needs_mark(pte, access) {
            match bus.write64(addr, marked(pte, access)) {
                (b2, Ok(())) => (b2, Ok(pa)),
                (b2, Err(e)) => (b2, Err(fault)),
            }
        } else {
            (bus, Ok(pa))
        }
    }
}

/// Walking the table of the given level at `table`: the bus after it, and the
/// physical address or the fault.
pub open spec fn walk(
    bus: BusView,
    table: u64,
    level: nat,
    va: u64,
    access: AccessType,
    mode: Mode,
    mstatus: u64,
) -> (BusView, Result<u64, Trap>)
    decreases level,
{
    let fault = page_fault_of(access);
    let addr = entry_addr(table, va, level);
    match bus.read64(addr) {
        (b, Err(e)) => (b, Err(fault)),
        (b, Ok(pte)) => if !flag(pte, PTE_V) || (!flag(pte, PTE_R) && flag(pte, PTE_W)) {
            (b, Err(fault))
        } else if flag(pte, PTE_R) || flag(pte, PTE_W) || flag(pte, PTE_X) {
            leaf(b, addr, pte, level, va, access, mode, mstatus)
        } else if level == 0 {
            (b, Err(fault))
        } else {
            walk(b, target(pte), (level - 1) as nat, va, access, mode, mstatus)
        },
    }
}

/// `va` is sign-extended from an address whose two halves have `half` values
/// each.
pub open spec fn canonical(va: u64, half: u64) -> bool {
    va < half || va >= 0x1_0000_0000_0000_0000 - half
}

/// Translation by a page table of `level + 1` levels.
pub open spec fn translate_paged(
    bus: BusView,
    half: u64,
    level: nat,
    va: u64,
    access: AccessType,
    mode: Mode,
    satp: u64,
    mstatus: u64,
) -> (BusView, Result<u64, Trap>) {
    if canonical(va, half) {
        let root = (satp % 0x1000_0000_0000 * 4096) as u64;
        walk(bus, root, level, va, access, mode, mstatus)
    } else {
        (bus, Err(page_fault_of(access)))
    }
}

/// The mode whose rights an access has: in machine mode MPRV lets data accesses
/// have those of MPP.
pub open spec fn effective_mode(access: AccessType, mode: Mode, mstatus: u64) -> Mode {
    if mode == Mode::Machine && access != AccessType::Instruction && mstatus / 0x2_0000 % 2 == 1 {
        mode_of(mstatus / 0x800 % 4)
    } else {
        mode
    }
}

/// Translation: the bus after it, and the physical address or the fault.
#[verifier::opaque]
pub open spec fn translated(
    bus: BusView,
    va: u64,
    access: AccessType,
    mode: Mode,
    satp: u64,
    mstatus: u64,
) -> (BusView, Result<u64, Trap>) {
    let m = effective_mode(access, mode, mstatus);
    let scheme = satp / 0x1000_0000_0000_0000;
    if m == Mode::Machine || scheme == 0 {
        (bus, Ok(va))
    } else if scheme == 8 {
        translate_paged(bus, 0x40_0000_0000, 2, va, access, m, satp, mstatus)
    } else if scheme == 9 {
        translate_paged(bus, 0x8000_0000_0000, 3, va, access, m, satp, mstatus)
    } else if scheme == 10 {
        translate_paged(bus, 0x100_0000_0000_0000, 4, va, access, m, satp, mstatus)
    } else {
        (bus, Err(page_fault_of(access)))
    }
}

impl Mmu {
    /// Translates a virtual address for an access from `mode`, given `SATP` and
    /// `MSTATUS`. The walk reads the page table over the bus and marks the entry
    /// that it uses.
    pub fn translate(
        va: u64,
        access_type: AccessType,
        mode: Mode,
        satp: u64,
        mstatus: u64,
        bus: &mut Bus,
    ) -> (r: Result<u64, Trap>)
        ensures
            (final(bus)@, r) == translated(old(bus)@, va, access_type, mode, satp, mstatus),
    {
        proof {
            reveal(translated);
        }
        if mode == Mode::Machine && access_type == AccessType::Instruction {
            return Ok(va);
        }
        let effective: Mode = if mode == Mode::Machine {
            if mstatus / 0x2_0000 % 2 == 1 {
                Mode::from_number(mstatus / 0x800 % 4)
            } else {
                Mode::Machine
            }
        } else {
            mode
        };
        if effective == Mode::Machine {
            return Ok(va);
        }
        match Self::satp_mode(satp) {
            Some(SatpMode::Bare) => Ok(va),
            Some(SatpMode::Sv39) => Self::translate_sv39(
                va,
                access_type,
                effective,
                satp,
                mstatus,
                bus,
            ),
            Some(SatpMode::Sv48) => Self::translate_sv48(
                va,
                access_type,
                effective,
                satp,
                mstatus,
                bus,
            ),
            Some(SatpMode::Sv57) => Self::translate_sv57(
                va,
                access_type,
                effective,
                satp,
                mstatus,
                bus,
            ),
            None => Err(Self::page_fault(access_type)),
        }
    }

    /// The translation mode that `satp` selects, if it exists.
    fn satp_mode(satp: u64) -> (m: Option<SatpMode>)
        ensures
            m == match satp / 0x1000_0000_0000_0000 {
                0 => Some(SatpMode::Bare),
                8 => Some(SatpMode::Sv39),
                9 => Some(SatpMode::Sv48),
                10 => Some(SatpMode::Sv57),
                _ => None,
            },
    {
        match satp / 0x1000_0000_0000_0000 {
            0 => Some(SatpMode::Bare),
            8 => Some(SatpMode::Sv39),
            9 => Some(SatpMode::Sv48),
            10 => Some(SatpMode::Sv57),
            _ => None,
        }
    }

    /// Translates by a three-level page table.
    pub fn translate_sv39(
        va: u64,
        access_type: AccessType,
        mode: Mode,
        satp: u64,
        mstatus: u64,
        bus: &mut Bus,
    ) -> (r: Result<u64, Trap>)
        ensures
            (final(bus)@, r) == translate_paged(
                old(bus)@,
                0x40_0000_0000,
                2,
                va,
                access_type,
                mode,
                satp,
                mstatus,
            ),
    {
        if va >= 0x40_0000_0000 && va < 0xFFFF_FFC0_0000_0000 {
            return Err(Self::page_fault(access_type));
        }
        Self::walk_table(satp % 0x1000_0000_0000 * 4096, 2, va, access_type, mode, mstatus, bus)
    }

    /// Translates by a four-level page table.
    pub fn translate_sv48(
        va: u64,
        access_type: AccessType,
        mode: Mode,
        satp: u64,
        mstatus: u64,
        bus: &mut Bus,
    ) -> (r: Result<u64, Trap>)
        ensures
            (final(bus)@, r) == translate_paged(
                old(bus)@,
                0x8000_0000_0000,
                3,
                va,
                access_type,
                mode,
                satp,
                mstatus,
            ),
    {
        if va >= 0x8000_0000_0000 && va < 0xFFFF_8000_0000_0000 {
            return Err(Self::page_fault(access_type));
        }
        Self::walk_table(satp % 0x1000_0000_0000 * 4096, 3, va, access_type, mode, mstatus, bus)
    }

    /// Translates by a five-level page table.
    pub fn translate_sv57(
        va: u64,
        access_type: AccessType,
        mode: Mode,
        satp: u64,
        mstatus: u64,
        bus: &mut Bus,
    ) -> (r: Result<u64, Trap>)
        ensures
            (final(bus)@, r) == translate_paged(
                old(bus)@,
                0x100_0000_0000_0000,
                4,
                va,
                access_type,
                mode,
                satp,
                mstatus,
            ),
    {
        if va >= 0x100_0000_0000_0000 && va < 0xFF00_0000_0000_0000 {
            return Err(Self::page_fault(access_type));
        }
        Self::walk_table(satp % 0x1000_0000_0000 * 4096, 4, va, access_type, mode, mstatus, bus)
    }

    /// How many bytes an entry of the given level maps.
    fn level_span(level: u64) -> (s: u64)
        ensures
            s == span(level as nat),
            s > 0,
    {
        match level {
            0 => 0x1000,
            1 => 0x20_0000,
            2 => 0x4000_0000,
            3 => 0x80_0000_0000,
            _ => 0x1_0000_0000_0000,
        }
    }

    /// Walks the page table from the root at `root` on.
    fn walk_table(
        root: u64,
        top: u64,
        va: u64,
        access_type: AccessType,
        mode: Mode,
        mstatus: u64,
        bus: &mut Bus,
    ) -> (r: Result<u64, Trap>)
        requires
            root <= 0xFF_FFFF_FFFF_F000,
        ensures
            (final(bus)@, r) == walk(
                old(bus)@,
                root,
                top as nat,
                va,
                access_type,
                mode,
                mstatus,
            ),
    {
        let mut table: u64 = root;
        let mut level: u64 = top;
        loop
            invariant
                table <= 0xFF_FFFF_FFFF_F000,
                walk(old(bus)@, root, top as nat, va, access_type, mode, mstatus) == walk(
                    bus@,
                    table,
                    level as nat,
                    va,
                    access_type,
                    mode,
                    mstatus,
                ),
            decreases level,
        {
            let size: u64 = Self::level_span(level);
            let addr: u64 = table + va / size % 512 * 8;
            let pte: u64 = match bus.read64(addr) {
                Ok(v) => v,
                Err(_) => return Err(Self::page_fault(access_type)),
            };
            if pte & PTE_V == 0 {
                return Err(Self::page_fault(access_type));
            }
            let readable = pte & PTE_R != 0;
            let writable = pte & PTE_W != 0;
            let executable = pte & PTE_X != 0;
            if !readable && writable {
                return Err(Self::page_fault(access_type));
            }
            let page: u64 = pte / 1024 % 0x1000_0000_0000 * 4096;
            if readable || writable || executable {
                match Self::check_permissions(pte, access_type, mode, mstatus) {
                    Ok(()) => {},
                    Err(t) => return Err(t),
                }
                // A larger page has to be aligned to its size.
                if page % size != 0 {
                    return Err(Self::page_fault(access_type));
                }
                let store = access_type == AccessType::Store;
                if pte & PTE_A == 0 || (store && pte & PTE_D == 0) {
                    let new: u64 = if store {
                        pte | 0xC0
                    } else {
                        pte | 0x40
                    };
                    match bus.write64(addr, new) {
                        Ok(()) => {},
                        Err(_) => return Err(Self::page_fault(access_type)),
                    }
                }
                return Ok(page + va % size);
            }
            if level == 0 {
                return Err(Self::page_fault(access_type));
            }
            table = page;
            level = level - 1;
        }
    }

    /// Checks whether the page that `pte` maps may be accessed in this way.
    fn check_permissions(pte: u64, access_type: AccessType, mode: Mode, mstatus: u64) -> (r: Result<
        (),
        Trap,
    >)
        ensures
            r == if permitted(pte, access_type, mode, mstatus) {
                Ok(())
            } else {
                Err(page_fault_of(access_type))
            },
    {
        let user = pte & PTE_U != 0;
        let mxr = mstatus / 0x8_0000 % 2 == 1;
        let sum = mstatus / 0x4_0000 % 2 == 1;
        if user {
            if mode == Mode::Supervisor && !sum {
                return Err(Self::page_fault(access_type));
            }
        } else if mode == Mode::User {
            return Err(Self::page_fault(access_type));
        }
        match access_type {
            AccessType::Instruction => {
                // Supervisor mode never executes user pages.
                if user && mode == Mode::Supervisor {
                    return Err(Trap::Exception(Exception::InstructionPageFault));
                }
                if pte & PTE_X == 0 {
                    return Err(Trap::Exception(Exception::InstructionPageFault));
                }
            },
            AccessType::Load => {
                if pte & PTE_R == 0 && !(mxr && pte & PTE_X != 0) {
                    return Err(Trap::Exception(Exception::LoadPageFault));
                }
            },
            AccessType::Store => {
                if pte & PTE_W == 0 {
                    return Err(Trap::Exception(Exception::StoreAMOPageFault));
                }
            },
        }
        Ok(())
    }

    /// The page fault of an access.
    fn page_fault(access_type: AccessType) -> (t: Trap)
        ensures
            t == page_fault_of(access_type),
    {
        match access_type {
            AccessType::Instruction => Trap::Exception(Exception::InstructionPageFault),
            AccessType::Load => Trap::Exception(Exception::LoadPageFault),
            AccessType::Store => Trap::Exception(Exception::StoreAMOPageFault),
        }
    }
}

/// An entry points to a multiple of 4096 below 2^56.
proof fn lemma_target(pte: u64)
    ensures
        target(pte) % 4096 == 0,
        target(pte) < 0x100_0000_0000_0000,
{
    let p = (pte / 1024) % 0x1000_0000_0000;
    assert(0 <= p < 0x1000_0000_0000);
    assert(target(pte) == p * 4096);
}

/// The size of a page is a multiple of 4096, and divides 2^56.
proof fn lemma_span(level: nat)
    ensures
        span(level) > 0,
        span(level) as int == 4096 * (span(level) as int / 4096),
        0x100_0000_0000_0000int % (span(level) as int) == 0,
{
}

/// The offset within a page of any size ends in the offset within its smallest
/// part.
proof fn lemma_page_offset(page: int, va: int, size: int)
    requires
        page % 4096 == 0,
        size > 0,
        size == 4096 * (size / 4096),
    ensures
        (page + va % size) % 4096 == va % 4096,
{
    lemma_mod_mod(va, 4096, size / 4096);
    let off = va % size;
    assert((page + off) % 4096 == off % 4096);
}

/// A page that starts below a multiple of its size ends there at the latest.
proof fn lemma_page_end(page: int, size: int, top: int)
    requires
        size > 0,
        page % size == 0,
        top % size == 0,
        page < top,
    ensures
        page + size <= top,
{
    lemma_fundamental_div_mod(page, size);
    lemma_fundamental_div_mod(top, size);
    let m = page / size;
    let n = top / size;
    assert(m < n) by (nonlinear_arith)
        requires
            size * m < size * n,
            size > 0,
    ;
    assert(size * m + size <= size * n) by (nonlinear_arith)
        requires
            m + 1 <= n,
            size > 0,
    ;
}

/// An address in a page: it has the offset of `va` and is below 2^56.
proof fn lemma_page_address(pte: u64, va: u64, level: nat)
    requires
        target(pte) % span(level) == 0,
    ensures
        target(pte) + va % span(level) < 0x100_0000_0000_0000,
        (target(pte) + va % span(level)) % 4096 == va % 4096,
{
    let size = span(level) as int;
    let page = target(pte) as int;
    lemma_target(pte);
    lemma_span(level);
    lemma_page_offset(page, va as int, size);
    lemma_page_end(page, size, 0x100_0000_0000_0000);
    assert(0 <= va as int % size < size);
}

/// What a walk can come to: the fault of the access, or an address in the page
/// that has the same offset as `va`.
pub(crate) proof fn lemma_walk(
    bus: BusView,
    table: u64,
    level: nat,
    va: u64,
    access: AccessType,
    mode: Mode,
    mstatus: u64,
)
    ensures
        match walk(bus, table, level, va, access, mode, mstatus).1 {
            Ok(pa) => pa % 4096 == va % 4096 && pa < 0x100_0000_0000_0000,
            Err(t) => t == page_fault_of(access),
        },
    decreases level,
{
    let addr = entry_addr(table, va, level);
    if let (b, Ok(pte)) = bus.read64(addr) {
        if level > 0 {
            lemma_walk(b, target(pte), (level - 1) as nat, va, access, mode, mstatus);
        }
        if target(pte) % span(level) == 0 {
            lemma_page_address(pte, va, level);
        }
    }
}

/// A translation keeps the offset within the page, and where it fails it fails
/// with the page fault of the access.
pub proof fn law_translation_outcome(
    bus: BusView,
    va: u64,
    access: AccessType,
    mode: Mode,
    satp: u64,
    mstatus: u64,
)
    ensures
        match translated(bus, va, access, mode, satp, mstatus).1 {
            Ok(pa) => pa % 4096 == va % 4096,
            Err(t) => t == page_fault_of(access),
        },
{
    reveal(translated);
    let m = effective_mode(access, mode, mstatus);
    let root = (satp % 0x1000_0000_0000 * 4096) as u64;
    lemma_walk(bus, root, 2, va, access, m, mstatus);
    lemma_walk(bus, root, 3, va, access, m, mstatus);
    lemma_walk(bus, root, 4, va, access, m, mstatus);
}

/// An access with the rights of machine mode is untranslated: a fetch in that mode
/// whatever MPRV says, and a data access unless MPRV lends it those of another mode.
/// Without a page table no mode translates. The bus is not touched.
pub proof fn law_identity(
    bus: BusView,
    va: u64,
    access: AccessType,
    mode: Mode,
    satp: u64,
    mstatus: u64,
)
    requires
        effective_mode(access, mode, mstatus) == Mode::Machine || satp / 0x1000_0000_0000_0000 == 0,
    ensures
        translated(bus, va, access, mode, satp, mstatus) == (bus, Ok::<u64, Trap>(va)),
        mode == Mode::Machine && access == AccessType::Instruction ==> effective_mode(
            access,
            mode,
            mstatus,
        ) == Mode::Machine,
{
    reveal(translated);
}

/// An address that is not sign-extended faults before the page table is looked
/// at.
pub proof fn law_non_canonical_faults(
    bus: BusView,
    va: u64,
    access: AccessType,
    mode: Mode,
    satp: u64,
    mstatus: u64,
)
    requires
        effective_mode(access, mode, mstatus) != Mode::Machine,
        ({
            let scheme = satp / 0x1000_0000_0000_0000;
            ||| scheme == 8 && !canonical(va, 0x40_0000_0000)
            ||| scheme == 9 && !canonical(va, 0x8000_0000_0000)
            ||| scheme == 10 && !canonical(va, 0x100_0000_0000_0000)
        }),
    ensures
        translated(bus, va, access, mode, satp, mstatus) == (
            bus,
            Err::<u64, Trap>(page_fault_of(access)),
        ),
{
    reveal(translated);
}

/// The entry that a translation uses ends up marked as accessed, by a store as
/// written too, and is otherwise as it was. An entry that has the marks is not
/// written again.
pub proof fn law_marks(pte: u64, access: AccessType)
    ensures
        flag(marked(pte, access), PTE_A),
        access == AccessType::Store ==> flag(marked(pte, access), PTE_D),
        !needs_mark(marked(pte, access), access),
        marked(pte, access) & !0xC0u64 == pte & !0xC0u64,
        !needs_mark(pte, access) ==> marked(pte, access) == pte,
{
    assert({
        let a = pte | 0x40;
        let s = pte | 0xC0;
        &&& a & 0x40 != 0
        &&& s & 0x40 != 0
        &&& s & 0x80 != 0
        &&& a & !0xC0u64 == pte & !0xC0u64
        &&& s & !0xC0u64 == pte & !0xC0u64
        &&& pte & 0x40 != 0 ==> a == pte
        &&& pte & 0x40 != 0 && pte & 0x80 != 0 ==> s == pte
    }) by (bit_vector);
}

/// User mode reaches only user pages; supervisor mode never executes them, and
/// reads and writes them only under SUM; nobody writes a page without the write
/// permission.
pub proof fn law_permissions(pte: u64, access: AccessType, mode: Mode, mstatus: u64)
    ensures
        permitted(pte, access, mode, mstatus) && mode == Mode::User ==> flag(pte, PTE_U),
        permitted(pte, access, mode, mstatus) && mode == Mode::Supervisor && flag(pte, PTE_U)
            ==> access != AccessType::Instruction && mstatus / 0x4_0000 % 2 == 1,
        permitted(pte, access, mode, mstatus) && access == AccessType::Store ==> flag(pte, PTE_W),
        permitted(pte, access, mode, mstatus) && access == AccessType::Instruction ==> flag(
            pte,
            PTE_X,
        ),
{
}

} // verus!
