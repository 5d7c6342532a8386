use riscv64_emulator::bus::{Bus, DRAM_BASE, FLASH_BASE, UART_BASE};
use riscv64_emulator::cpu::{Cpu, Mode};
use riscv64_emulator::csr::{MCAUSE, MEDELEG, MSTATUS, MTVAL, SATP};
use riscv64_emulator::dram::Dram;
use riscv64_emulator::flash::Flash;
use riscv64_emulator::mmu::{AccessType, Mmu};
use riscv64_emulator::mrom::Mrom;
use riscv64_emulator::trap::{Exception, Trap};

const V: u64 = 1;
const R: u64 = 2;
const W: u64 = 4;
const X: u64 = 8;
const U: u64 = 0x10;
const A: u64 = 0x40;
const D: u64 = 0x80;

const SUM: u64 = 1 << 18;
const MXR: u64 = 1 << 19;

fn bus() -> Bus {
    Bus::new(Mrom::new(0x1000).unwrap(), Dram::new(0x10_0000).unwrap(), Flash::new(0), None)
}

/// The entry that points to the physical address `pa`.
fn pte(pa: u64, flags: u64) -> u64 {
    pa >> 12 << 10 | flags
}

/// Puts an entry into the table number `table` of the pages from DRAM_BASE on.
fn put(b: &mut Bus, table: u64, index: u64, entry: u64) {
    b.dram.write64(table * 0x1000 + index * 8, entry).unwrap();
}

fn entry(b: &Bus, table: u64, index: u64) -> u64 {
    b.dram.read64(table * 0x1000 + index * 8).unwrap()
}

fn satp(mode: u64) -> u64 {
    mode << 60 | DRAM_BASE >> 12
}

fn table(n: u64) -> u64 {
    DRAM_BASE + n * 0x1000
}

/// Maps the page 0x40_3000 in a three-level table by an entry with these flags.
fn sv39(flags: u64) -> Bus {
    let mut b = bus();
    put(&mut b, 0, 0, pte(table(1), V));
    put(&mut b, 1, 2, pte(table(2), V));
    put(&mut b, 2, 3, pte(0x8000_5000, flags));
    b
}

fn walk(b: &mut Bus, access: AccessType, mode: Mode, mstatus: u64) -> Result<u64, Trap> {
    Mmu::translate(0x40_3123, access, mode, satp(8), mstatus, b)
}

fn fault(access: AccessType) -> Trap {
    Trap::Exception(match access {
        AccessType::Instruction => Exception::InstructionPageFault,
        AccessType::Load => Exception::LoadPageFault,
        AccessType::Store => Exception::StoreAMOPageFault,
    })
}

const ALL: [AccessType; 3] = [AccessType::Instruction, AccessType::Load, AccessType::Store];

#[test]
fn no_translation() {
    let mut b = bus();
    for access in ALL {
        assert_eq!(Mmu::translate(0xABC, access, Mode::Machine, satp(8), 0, &mut b), Ok(0xABC));
        assert_eq!(Mmu::translate(0xABC, access, Mode::User, 0, 0, &mut b), Ok(0xABC));
        assert_eq!(Mmu::translate(0xABC, access, Mode::Supervisor, 0, 0, &mut b), Ok(0xABC));
    }
}

#[test]
fn three_levels() {
    let mut b = sv39(V | R | W | X | A | D);
    for access in ALL {
        assert_eq!(walk(&mut b, access, Mode::Supervisor, 0), Ok(0x8000_5123));
    }
    // Nothing was marked anew.
    assert_eq!(entry(&b, 2, 3), pte(0x8000_5000, V | R | W | X | A | D));
    // Other addresses are not mapped.
    for access in ALL {
        let r = Mmu::translate(0x40_4000, access, Mode::Supervisor, satp(8), 0, &mut b);
        assert_eq!(r, Err(fault(access)));
    }
}

#[test]
fn access_is_marked() {
    let mut b = sv39(V | R | W);
    assert_eq!(walk(&mut b, AccessType::Load, Mode::Supervisor, 0), Ok(0x8000_5123));
    assert_eq!(entry(&b, 2, 3), pte(0x8000_5000, V | R | W | A));
    assert_eq!(walk(&mut b, AccessType::Store, Mode::Supervisor, 0), Ok(0x8000_5123));
    assert_eq!(entry(&b, 2, 3), pte(0x8000_5000, V | R | W | A | D));
}

#[test]
fn a_translation_can_be_repeated() {
    for access in ALL {
        let mut b = sv39(V | R | W | X);
        let first = walk(&mut b, access, Mode::Supervisor, 0);
        let marked = entry(&b, 2, 3);
        assert_eq!(first, Ok(0x8000_5123));
        assert_eq!(walk(&mut b, access, Mode::Supervisor, 0), first);
        assert_eq!(entry(&b, 2, 3), marked);
    }
    // The marks of a store do for a load too.
    let mut b = sv39(V | R | W);
    assert_eq!(walk(&mut b, AccessType::Store, Mode::Supervisor, 0), Ok(0x8000_5123));
    assert_eq!(entry(&b, 2, 3), pte(0x8000_5000, V | R | W | A | D));
    assert_eq!(walk(&mut b, AccessType::Load, Mode::Supervisor, 0), Ok(0x8000_5123));
    assert_eq!(entry(&b, 2, 3), pte(0x8000_5000, V | R | W | A | D));
}

#[test]
fn a_translation_changes_nothing_but_the_marks() {
    let marks = [(AccessType::Instruction, A), (AccessType::Load, A), (AccessType::Store, A | D)];
    for (access, mark) in marks {
        let mut b = sv39(V | R | W | X);
        let before: Vec<u8> = (0..0x8000).map(|i| b.dram.read8(i).unwrap()).collect();
        assert_eq!(walk(&mut b, access, Mode::Supervisor, 0), Ok(0x8000_5123));
        assert_eq!(entry(&b, 2, 3), pte(0x8000_5000, V | R | W | X | mark));
        for i in 0..0x8000 {
            if i / 8 != 0x2018 / 8 {
                assert_eq!(b.dram.read8(i).unwrap(), before[i as usize]);
            }
        }
    }
}

#[test]
fn permissions() {
    let user = Mode::User;
    let sup = Mode::Supervisor;
    let cases = [
        (V | R, sup, 0, [false, true, false]),
        (V | X, sup, 0, [true, false, false]),
        (V | X, sup, MXR, [true, true, false]),
        (V | R | W, sup, 0, [false, true, true]),
        (V | R | W | X, user, 0, [false, false, false]),
        (V | R | W | X | U, user, 0, [true, true, true]),
        (V | R | W | X | U, sup, 0, [false, false, false]),
        (V | R | W | X | U, sup, SUM, [false, true, true]),
        (V | R | X | U, user, 0, [true, true, false]),
        // Writable but not readable, and not valid.
        (V | W, sup, 0, [false, false, false]),
        (V | W | X, sup, 0, [false, false, false]),
        (R | W | X, sup, 0, [false, false, false]),
        // A pointer at the last level.
        (V, sup, 0, [false, false, false]),
    ];
    for (flags, mode, mstatus, allowed) in cases {
        for (access, ok) in ALL.into_iter().zip(allowed) {
            let mut b = sv39(flags);
            let want = if ok { Ok(0x8000_5123) } else { Err(fault(access)) };
            assert_eq!(walk(&mut b, access, mode, mstatus), want, "{flags:#x} {access:?}");
        }
    }
}

#[test]
fn large_pages() {
    let mut b = bus();
    put(&mut b, 0, 0, pte(table(1), V));
    put(&mut b, 1, 2, pte(0x8020_0000, V | R | A));
    put(&mut b, 0, 3, pte(0xC000_0000, V | R | A));
    put(&mut b, 1, 4, pte(0x8020_1000, V | R | A));
    put(&mut b, 0, 5, pte(0xC020_0000, V | R | A));
    let load = |b: &mut Bus, va| {
        Mmu::translate(va, AccessType::Load, Mode::Supervisor, satp(8), 0, b)
    };
    assert_eq!(load(&mut b, 0x40_0000 + 0x12_3456), Ok(0x8032_3456));
    assert_eq!(load(&mut b, 3 * 0x4000_0000 + 0x1234_5678), Ok(0xD234_5678));
    // Not aligned to their size.
    assert_eq!(load(&mut b, 0x80_0000), Err(fault(AccessType::Load)));
    assert_eq!(load(&mut b, 5 * 0x4000_0000), Err(fault(AccessType::Load)));
}

#[test]
fn four_and_five_levels() {
    let mut b = bus();
    // Five levels: tables 0 to 4. Four levels start at table 1.
    for n in 0..4 {
        put(&mut b, n, 1 + n, pte(table(n + 1), V));
    }
    put(&mut b, 4, 5, pte(0x8000_9000, V | R | A));
    let va = 1 << 48 | 2 << 39 | 3 << 30 | 4 << 21 | 5 << 12 | 0xABC;
    let r = Mmu::translate(va, AccessType::Load, Mode::User, satp(10), 0, &mut b);
    assert_eq!(r, Err(fault(AccessType::Load)));
    let r = Mmu::translate(va, AccessType::Load, Mode::Supervisor, satp(10), 0, &mut b);
    assert_eq!(r, Ok(0x8000_9ABC));
    let root = 9 << 60 | table(1) >> 12;
    let va4 = va & ((1 << 48) - 1);
    let r = Mmu::translate(va4, AccessType::Load, Mode::Supervisor, root, 0, &mut b);
    assert_eq!(r, Ok(0x8000_9ABC));
}

#[test]
fn sign_extension_is_required() {
    let mut b = bus();
    let cases = [
        (8, 0x40_0000_0000u64),
        (8, 0xFFFF_FFBF_FFFF_FFFF),
        (8, 0x8000_0000_0000_0000),
        (9, 0x8000_0000_0000),
        (9, 0xFFFF_7FFF_FFFF_FFFF),
        (10, 0x100_0000_0000_0000),
        (10, 0xFEFF_FFFF_FFFF_FFFF),
    ];
    // Entries that would map everything, if they were looked at.
    for i in 0..512 {
        put(&mut b, 0, i, pte(0, V | R | W | X | A | D));
    }
    for (mode, va) in cases {
        for access in ALL {
            let r = Mmu::translate(va, access, Mode::Supervisor, satp(mode), 0, &mut b);
            assert_eq!(r, Err(fault(access)));
        }
    }
    let top = [(8, 0x3F_FFFF_FFFFu64), (8, 0xFFFF_FFC0_0000_0000), (9, 0x7FFF_FFFF_FFFF)];
    for (mode, va) in top {
        let r = Mmu::translate(va, AccessType::Load, Mode::Supervisor, satp(mode), 0, &mut b);
        assert!(r.is_ok());
    }
}

#[test]
fn unknown_schemes_fault() {
    let mut b = bus();
    let r = Mmu::translate(0, AccessType::Load, Mode::User, 7 << 60, 0, &mut b);
    assert_eq!(r, Err(fault(AccessType::Load)));
}

#[test]
fn tables_outside_of_memory_fault() {
    let mut b = bus();
    let root = 8 << 60 | 0x4000_0000 >> 12;
    let r = Mmu::translate(0, AccessType::Store, Mode::Supervisor, root, 0, &mut b);
    assert_eq!(r, Err(fault(AccessType::Store)));
}

#[test]
fn a_page_table_in_rom_cannot_be_marked() {
    let mut mrom = Mrom::new(0xF000).unwrap();
    let unmarked = pte(0, V | R).to_le_bytes();
    let marked = pte(0, V | R | A).to_le_bytes();
    mrom.load(0, &unmarked).unwrap();
    mrom.load(8, &marked).unwrap();
    let mut b = Bus::new(mrom, Dram::new(0x1000).unwrap(), Flash::new(0), None);
    let root = 8 << 60 | 1;
    let r = Mmu::translate(5, AccessType::Load, Mode::Supervisor, root, 0, &mut b);
    assert_eq!(r, Err(fault(AccessType::Load)));
    let r = Mmu::translate(0x4000_0005, AccessType::Load, Mode::Supervisor, root, 0, &mut b);
    assert_eq!(r, Ok(5));
}

#[test]
fn modified_privilege() {
    // MPRV with MPP = supervisor: data accesses of machine mode are translated.
    let mstatus = 1 << 17 | 1 << 11;
    let mut b = sv39(V | R | A);
    assert_eq!(walk(&mut b, AccessType::Load, Mode::Machine, mstatus), Ok(0x8000_5123));
    assert_eq!(
        walk(&mut b, AccessType::Store, Mode::Machine, mstatus),
        Err(fault(AccessType::Store))
    );
    assert_eq!(walk(&mut b, AccessType::Instruction, Mode::Machine, mstatus), Ok(0x40_3123));
    // MPP = machine.
    let mstatus = 1 << 17 | 3 << 11;
    assert_eq!(walk(&mut b, AccessType::Load, Mode::Machine, mstatus), Ok(0x40_3123));
    // Other modes do not look at it.
    let mstatus = 1 << 17 | 3 << 11;
    assert_eq!(walk(&mut b, AccessType::Load, Mode::Supervisor, mstatus), Ok(0x8000_5123));
}

#[test]
fn machine_rights_under_mprv_are_not_translated() {
    let mut c = Cpu::new(sv39(V | R | W));
    c.csr.write(SATP, satp(8));
    c.csr.write(MSTATUS, 1 << 17 | 3 << 11);
    c.write_reg(6, 0x1122_3344_5566_7788);
    // Across a page: sd x6, 0(x7), then ld x8, 0(x7).
    c.write_reg(7, DRAM_BASE + 0x5FFD);
    c.execute(0x0063_B023).unwrap();
    assert_eq!(c.bus.dram.read64(0x5FFD), Ok(0x1122_3344_5566_7788));
    c.execute(0x0003_B403).unwrap();
    assert_eq!(c.read_reg(8), 0x1122_3344_5566_7788);
}

#[test]
fn the_hart_translates() {
    let b = sv39(V | R | W | X | U);
    let mut c = Cpu::new(b);
    // The next virtual page lies elsewhere.
    c.bus.dram.write64(0x2000 + 4 * 8, pte(0x8000_7000, V | R | W | X | U)).unwrap();
    c.csr.write(SATP, satp(8));
    c.mode = Mode::User;
    // An instruction that crosses both pages: addi x5, x0, 0x7FF.
    c.bus.dram.write16(0x5FFE, 0x0293).unwrap();
    c.bus.dram.write16(0x7000, 0x7FF0).unwrap();
    c.pc = 0x40_3FFE;
    c.step().unwrap();
    assert_eq!(c.read_reg(5), 0x7FF);
    assert_eq!(c.pc, 0x40_4002);
    // A doubleword that crosses both pages: sd x6, 0(x7), then ld x8, 0(x7).
    c.write_reg(6, 0x1122_3344_5566_7788);
    c.write_reg(7, 0x40_3FFD);
    c.bus.dram.write32(0x7002, 0x0063_B023).unwrap();
    c.bus.dram.write32(0x7006, 0x0003_B403).unwrap();
    c.step().unwrap();
    assert_eq!(c.bus.dram.read32(0x5FFC), Ok(0x6677_8800));
    c.step().unwrap();
    assert_eq!(c.read_reg(8), 0x1122_3344_5566_7788);
    // A page fault with the address of the access.
    c.csr.write(MEDELEG, 0);
    c.write_reg(7, 0x40_4FFC);
    c.bus.dram.write32(0x700A, 0x0003_B403).unwrap();
    c.step().unwrap();
    assert_eq!(c.csr.read(MCAUSE), 13);
    assert_eq!(c.csr.read(MTVAL), 0x40_4FFC);
    assert_eq!(c.csr.read(MSTATUS) >> 11 & 3, 0);
}

#[test]
fn translated_accesses_reach_devices() {
    let mut b = bus();
    put(&mut b, 0, 0, pte(table(1), V));
    put(&mut b, 1, 2, pte(table(2), V));
    put(&mut b, 2, 3, pte(UART_BASE, V | R | W | A | D));
    let mut c = Cpu::new(b);
    c.csr.write(SATP, satp(8));
    c.mode = Mode::Supervisor;
    c.write_reg(7, 0x40_3000);
    c.write_reg(6, b'!' as u64);
    // sb x6, 0(x7)
    c.execute(0x0063_8023).unwrap();
    assert_eq!(c.bus.take_output(), vec![b'!']);
}

/// A hart in supervisor mode, whose three-level table starts at `root`.
fn under(root: u64, mrom: Mrom, flash: Flash) -> Cpu {
    let mut c = Cpu::new(Bus::new(mrom, Dram::new(0x10_0000).unwrap(), flash, None));
    c.csr.write(SATP, 8 << 60 | root >> 12);
    c.mode = Mode::Supervisor;
    c
}

/// Stores and loads within a page and across pages, of every width.
fn stores_are_loaded(c: &mut Cpu, base: u64) {
    for (at, size) in [(0x5008, 8), (0x5FFF, 1), (0x5FFF, 2), (0x6FFE, 4), (0x7FFD, 8)] {
        let value = 0x1122_3344_5566_7788 + at;
        let kept = if size == 8 { value } else { value & ((1 << (8 * size)) - 1) };
        assert_eq!(c.store_va(base + at, value, size), Ok(()));
        assert_eq!(c.load_va(base + at, size), Ok(kept));
        assert_eq!(c.bus.dram.read64(at).unwrap() & (u64::MAX >> (64 - 8 * size)), kept);
    }
}

#[test]
fn a_load_follows_a_store_through_a_table_in_rom() {
    let mut mrom = Mrom::new(0xF000).unwrap();
    mrom.load(8, &pte(DRAM_BASE, V | R | W | A | D).to_le_bytes()).unwrap();
    mrom.load(16, &pte(DRAM_BASE, V | R | W | A).to_le_bytes()).unwrap();
    let mut c = under(0x1000, mrom, Flash::new(0));
    stores_are_loaded(&mut c, 0x4000_0000);
    // The third page cannot be marked as written.
    let at = 0x8000_5000;
    assert_eq!(c.store_va(at, 1, 8), Err((fault(AccessType::Store), at)));
    assert_eq!(c.load_va(at, 8), Ok(c.bus.dram.read64(0x5000).unwrap()));
}

#[test]
fn a_load_follows_a_store_through_a_table_in_flash() {
    let mut flash = Flash::new(0x1000);
    let unmarked = pte(DRAM_BASE, V | R | W);
    flash.load(8, &unmarked.to_le_bytes()).unwrap();
    let mut c = under(FLASH_BASE, Mrom::new(0x1000).unwrap(), flash);
    stores_are_loaded(&mut c, 0x4000_0000);
    // The mark is no command to the flash, and lost on it.
    assert_eq!(c.bus.read64(FLASH_BASE + 8), Ok(unmarked));
}

#[test]
fn each_scheme_by_itself() {
    let mut b = bus();
    for n in 0..4 {
        put(&mut b, n, 1 + n, pte(table(n + 1), V));
    }
    put(&mut b, 4, 5, pte(0x8000_9000, V | R | W));
    let va = 1 << 48 | 2 << 39 | 3 << 30 | 4 << 21 | 5 << 12 | 0xABC;
    let (load, store, mode) = (AccessType::Load, AccessType::Store, Mode::Supervisor);
    let at = |n: u64| table(n) >> 12;
    assert_eq!(Mmu::translate_sv57(va, load, mode, at(0), 0, &mut b), Ok(0x8000_9ABC));
    assert_eq!(entry(&b, 4, 5), pte(0x8000_9000, V | R | W | A));
    let va = va & ((1 << 48) - 1);
    assert_eq!(Mmu::translate_sv48(va, store, mode, at(1), 0, &mut b), Ok(0x8000_9ABC));
    assert_eq!(entry(&b, 4, 5), pte(0x8000_9000, V | R | W | A | D));
    let va = va & ((1 << 39) - 1);
    assert_eq!(Mmu::translate_sv39(va, store, mode, at(2), 0, &mut b), Ok(0x8000_9ABC));
    assert_eq!(Mmu::translate_sv39(1 << 39, store, mode, at(2), 0, &mut b), Err(fault(store)));
}
