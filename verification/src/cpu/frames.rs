//! What the parts of an instruction leave alone.

#[allow(unused_imports)]
use crate::alu::word;
#[allow(unused_imports)]
use crate::bus::{
    deadline_kept, law_accesses_keep_deadline, law_reads, law_who_rings, law_writes_keep_rom,
    rom_kept, BusView,
};
#[allow(unused_imports)]
use crate::cpu::memory::{bus_read, bus_write, byte_at, byte_weight};
#[allow(unused_imports)]
use crate::cpu::{CpuView, Mode};
#[allow(unused_imports)]
use crate::csr::{csr_read, MSTATUS, SATP, STIMECMP};
#[allow(unused_imports)]
use crate::mmu::{effective_mode, entry_addr, marked, target, translated, walk, AccessType};
use vstd::prelude::*;

verus! {

/// The read-only memories, the bells and the supervisor timer's deadline are as
/// before.
pub open spec fn quiet_bus(a: BusView, b: BusView) -> bool {
    rom_kept(a, b) && b.bell == a.bell && deadline_kept(a, b)
}

/// The bus has the deadline that the supervisor timer's register says.
pub open spec fn deadlines_agree(c: CpuView) -> bool {
    c.bus.stimecmp == csr_read(c.csr, STIMECMP)
}

/// `b` differs from `a` in the bus at most, and there in none of the read-only
/// memories, the bells and the deadline.
pub open spec fn quiet(a: CpuView, b: CpuView) -> bool {
    b == CpuView { bus: b.bus, ..a } && quiet_bus(a.bus, b.bus)
}

/// `b` is a state that an instruction may lead to from `a`: the register files
/// have kept their size, x0 its contents, the read-only memories theirs, and the
/// instruction counter its value; and the deadlines agree if they did before.
pub open spec fn kept(a: CpuView, b: CpuView) -> bool {
    &&& b.regs.len() == a.regs.len()
    &&& b.f_regs.len() == a.f_regs.len()
    &&& b.regs[0] == a.regs[0]
    &&& b.inst_count == a.inst_count
    &&& rom_kept(a.bus, b.bus)
    &&& deadlines_agree(a) ==> deadlines_agree(b)
}

/// A walk through the page table leaves the read-only memories, the bells and the
/// deadline alone.
proof fn lemma_walk_quiet(
    bus: BusView,
    table: u64,
    level: nat,
    va: u64,
    access: AccessType,
    mode: Mode,
    mstatus: u64,
)
    ensures
        quiet_bus(bus, walk(bus, table, level, va, access, mode, mstatus).0),
    decreases level,
{
    let addr = entry_addr(table, va, level);
    law_reads(bus, addr);
    law_accesses_keep_deadline(bus, addr, 0, 0);
    if let (b, Ok(pte)) = bus.read64(addr) {
        law_accesses_keep_deadline(b, addr, marked(pte, access), 0);
        law_writes_keep_rom(b, addr, marked(pte, access));
        law_who_rings(b, addr, marked(pte, access), 0);
        if level > 0 {
            lemma_walk_quiet(b, target(pte), (level - 1) as nat, va, access, mode, mstatus);
        }
    }
}

/// A translation changes nothing but the page table.
pub proof fn lemma_translate_quiet(c: CpuView, va: u64, access: AccessType)
    ensures
        quiet(c, c.translate(va, access).0),
{
    reveal(translated);
    let satp = csr_read(c.csr, SATP);
    let mstatus = csr_read(c.csr, MSTATUS);
    let m = effective_mode(access, c.mode, mstatus);
    let root = (satp % 0x1000_0000_0000 * 4096) as u64;
    lemma_walk_quiet(c.bus, root, 2, va, access, m, mstatus);
    lemma_walk_quiet(c.bus, root, 3, va, access, m, mstatus);
    lemma_walk_quiet(c.bus, root, 4, va, access, m, mstatus);
}

/// A load by bytes changes nothing but the bus.
proof fn lemma_load_bytes_quiet(c: CpuView, va: u64, size: u64, i: nat, acc: u64)
    ensures
        quiet(c, c.load_bytes(va, size, i, acc).0),
    decreases size - i,
{
    if i < size {
        lemma_translate_quiet(c, va.wrapping_add(i as u64), AccessType::Load);
        if let (s, Ok(pa)) = c.translate(va.wrapping_add(i as u64), AccessType::Load) {
            law_reads(s.bus, pa);
            law_accesses_keep_deadline(s.bus, pa, 0, 0);
            if let (bus, Ok(b)) = s.bus.read8(pa) {
                lemma_load_bytes_quiet(
                    CpuView { bus, ..s },
                    va,
                    size,
                    i + 1,
                    acc.wrapping_add((b * byte_weight(i)) as u64),
                );
            }
        }
    }
}

/// A load changes nothing but the bus.
pub proof fn lemma_load_quiet(c: CpuView, va: u64, size: u64)
    ensures
        quiet(c, c.load(va, size).0),
{
    reveal(CpuView::load);
    lemma_load_bytes_quiet(c, va, size, 0, 0);
    lemma_translate_quiet(c, va, AccessType::Load);
    if let (s, Ok(pa)) = c.translate(va, AccessType::Load) {
        law_reads(s.bus, pa);
        law_accesses_keep_deadline(s.bus, pa, 0, 0);
    }
}

/// Fetching changes nothing but the bus.
pub proof fn lemma_fetch_quiet(c: CpuView)
    ensures
        quiet(c, c.fetch().0),
{
    reveal(CpuView::fetch);
    lemma_translate_quiet(c, c.pc, AccessType::Instruction);
    if let (s, Ok(pa)) = c.translate(c.pc, AccessType::Instruction) {
        law_reads(s.bus, pa);
        law_accesses_keep_deadline(s.bus, pa, 0, 0);
        if let (bus, Ok(low)) = s.bus.read16(pa) {
            let s2 = CpuView { bus, ..s };
            lemma_translate_quiet(s2, c.pc.wrapping_add(2), AccessType::Instruction);
            law_reads(s2.bus, pa.wrapping_add(2));
            law_accesses_keep_deadline(s2.bus, pa.wrapping_add(2), 0, 0);
            if let (s3, Ok(pa2)) = s2.translate(c.pc.wrapping_add(2), AccessType::Instruction) {
                law_reads(s3.bus, pa2);
                law_accesses_keep_deadline(s3.bus, pa2, 0, 0);
            }
        }
    }
}

/// A store by bytes changes nothing but the bus, and rings no bell.
proof fn lemma_store_bytes_quiet(c: CpuView, va: u64, value: u64, size: u64, i: nat)
    ensures
        quiet(c, c.store_bytes(va, value, size, i).0),
    decreases size - i,
{
    if i < size {
        lemma_translate_quiet(c, va.wrapping_add(i as u64), AccessType::Store);
        if let (s, Ok(pa)) = c.translate(va.wrapping_add(i as u64), AccessType::Store) {
            let b = byte_at(value, i);
            law_writes_keep_rom(s.bus, pa, b as u64);
            law_who_rings(s.bus, pa, b as u64, 0);
            law_accesses_keep_deadline(s.bus, pa, b as u64, 0);
            if let (bus, Ok(())) = s.bus.write8(pa, b) {
                lemma_store_bytes_quiet(CpuView { bus, ..s }, va, value, size, i + 1);
            }
        }
    }
}

/// A write to a physical address leaves the read-only memories and the deadline
/// alone, and unless it is four bytes wide and is taken the bells too.
pub proof fn lemma_bus_write(bus: BusView, pa: u64, value: u64, size: u64)
    ensures
        rom_kept(bus, bus_write(bus, pa, value, size).0),
        deadline_kept(bus, bus_write(bus, pa, value, size).0),
        size != 4 || !bus_write(bus, pa, value, size).1 ==> bus_write(bus, pa, value, size).0.bell
            == bus.bell,
{
    law_writes_keep_rom(bus, pa, value);
    law_who_rings(bus, pa, value, word(value));
    law_accesses_keep_deadline(bus, pa, value, word(value));
}

/// A read of a physical address leaves the read-only memories, the bells and the
/// deadline alone.
pub proof fn lemma_bus_read(bus: BusView, pa: u64, size: u64)
    ensures
        quiet_bus(bus, bus_read(bus, pa, size).0),
{
    law_reads(bus, pa);
    law_accesses_keep_deadline(bus, pa, 0, 0);
}

/// A store changes nothing but the bus and the note of its address.
pub proof fn lemma_store_frame(c: CpuView, va: u64, value: u64, size: u64)
    ensures
        ({
            let s = c.store(va, value, size).0;
            &&& s == CpuView { bus: s.bus, store_addr: va, ..c }
            &&& rom_kept(c.bus, s.bus)
            &&& deadline_kept(c.bus, s.bus)
            &&& size != 4 || c.store(va, value, size).1 is Err ==> s.bus.bell == c.bus.bell
        }),
{
    reveal(CpuView::store);
    let s0 = CpuView { store_addr: va, ..c };
    lemma_store_bytes_quiet(s0, va, value, size, 0);
    lemma_translate_quiet(s0, va, AccessType::Store);
    if let (s, Ok(pa)) = s0.translate(va, AccessType::Store) {
        lemma_bus_write(s.bus, pa, value, size);
    }
}

} // verus!
