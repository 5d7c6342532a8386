//! What the atomic instructions and the system instructions do, instruction by instruction.

#[allow(unused_imports)]
use crate::bus::{in_dram, BusView};
#[allow(unused_imports)]
use crate::cpu::decode::{csr_address, funct3, funct7, imm_i, rd, rs1, rs2};
#[allow(unused_imports)]
use crate::cpu::dispatch::{
    lemma_dispatch_amo, lemma_dispatch_misc_mem, lemma_dispatch_system, same,
};
#[allow(unused_imports)]
use crate::cpu::formats::{
    gives, i_word, lemma_r_format, lemma_words, low_num, named, num, r_format, reg, with_reg, wrap,
};
#[allow(unused_imports)]
use crate::cpu::integer_laws::goes_to;
#[allow(unused_imports)]
use crate::cpu::memory_laws::untranslated;
#[allow(unused_imports)]
use crate::cpu::{CpuView, Mode, Outcome};
#[allow(unused_imports)]
use crate::csr::{
    csr_privilege, csr_read, csr_readonly, csr_write, valid_csr, MEDELEG, MEPC, MIDELEG, MSTATUS,
    MTVEC, SATP, SEPC, STIMECMP, STVEC, TIME,
};
#[allow(unused_imports)]
use crate::mmu::{law_identity, AccessType};
#[allow(unused_imports)]
use crate::trap::{plain_code, Exception, Interrupt, Trap};
use vstd::prelude::*;

verus! {

/// The number of a mode: user 0, supervisor 1, machine 3.
pub open spec fn level_of(m: Mode) -> u16 {
    match m {
        Mode::User => 0,
        Mode::Supervisor => 1,
        Mode::Hypervisor => 2,
        Mode::Machine => 3,
    }
}

/// The hart may read register `k`: it exists, and bits 8 and 9 of its number are not above
/// the mode.
pub open spec fn readable(c: CpuView, k: u16) -> bool {
    valid_csr(k) && (k / 256) % 4 <= level_of(c.mode)
}

/// The hart may also write it: bits 10 and 11 are not both ones.
pub open spec fn writable(c: CpuView, k: u16) -> bool {
    readable(c, k) && k / 1024 != 3
}

/// The fields of a register's number.
#[verifier::rlimit(60)]
pub(crate) proof fn lemma_csr_number(k: u16)
    requires
        k < 0x1000,
    ensures
        csr_privilege(k) == (k / 256) % 4,
        csr_readonly(k) == (k / 1024 == 3),
{
    assert((k >> 8) & 3 == (k / 256) % 4 && ((k >> 10) & 3 == 3) == (k / 1024 == 3) && (k >> 8) & 3
        <= 3) by (bit_vector)
        requires
            k < 0x1000,
    ;
}

/// The instruction leaves the old value of register `k` in `d`, and `v` in register `k`.
pub open spec fn swaps(c: CpuView, d: u32, k: u16, v: u64) -> Outcome {
    gives(CpuView { csr: csr_write(c.csr, k, v), ..c }, d, csr_read(c.csr, k))
}

/// The instruction is illegal: nothing changes, and the trap value is the instruction.
pub open spec fn illegal_here(c: CpuView, inst: u32) -> Outcome {
    (c, Err((Trap::Exception(Exception::IllegalInstruction), inst as u64)))
}

/// A register instruction belongs to its group.
#[verifier::rlimit(60)]
proof fn lemma_csr(c: CpuView, f3: u32, d: u32, a: u32, k: u16)
    requires
        named(c, d, a, 0),
        1 <= f3 < 8,
        k < 0x1000,
    ensures
        ({
            let i = i_word(0x73, f3, d, a, k as u32);
            &&& same(c.exec(i), c.exec_csr(i))
            &&& funct3(i) == f3
            &&& rd(i) == d
            &&& rs1(i) == a
            &&& csr_address(i) == k
        }),
{
    lemma_words(0x73, f3, d, a, 0, k as u32);
    lemma_dispatch_system(c, i_word(0x73, f3, d, a, k as u32));
}

/// CSRRW replaces a register by a register, CSRRS sets the bits that are set there, CSRRC
/// clears them; the immediate forms take the number in the source field. All leave the old
/// value. With x0 or zero the latter two do not write. Without the right to it the
/// instruction is illegal. The two registers that are kept on the bus are left out.
#[verifier::rlimit(60)]
pub proof fn law_register_instructions(c: CpuView, d: u32, a: u32, k: u16)
    requires
        named(c, d, a, 0),
        k < 0x1000,
        k != STIMECMP,
        k != TIME,
    ensures
        ({
            let x = reg(c, a);
            let n = a as u64;
            let v = csr_read(c.csr, k);
            let i = |f3: u32| i_word(0x73, f3, d, a, k as u32);
            &&& writable(c, k) ==> same(c.exec(i(1)), swaps(c, d, k, x))
            &&& writable(c, k) ==> same(c.exec(i(5)), swaps(c, d, k, n))
            &&& writable(c, k) && x != 0 ==> same(c.exec(i(2)), swaps(c, d, k, v | x))
            &&& writable(c, k) && x != 0 ==> same(c.exec(i(3)), swaps(c, d, k, v & !x))
            &&& writable(c, k) && a != 0 ==> same(c.exec(i(6)), swaps(c, d, k, v | n))
            &&& writable(c, k) && a != 0 ==> same(c.exec(i(7)), swaps(c, d, k, v & !n))
            &&& readable(c, k) && a == 0 ==> {
                &&& same(c.exec(i(2)), gives(c, d, v))
                &&& same(c.exec(i(3)), gives(c, d, v))
                &&& same(c.exec(i(6)), gives(c, d, v))
                &&& same(c.exec(i(7)), gives(c, d, v))
            }
            &&& !writable(c, k) ==> same(c.exec(i(1)), illegal_here(c, i(1)))
            &&& !writable(c, k) ==> same(c.exec(i(5)), illegal_here(c, i(5)))
            &&& !writable(c, k) && a != 0 ==> same(c.exec(i(2)), illegal_here(c, i(2)))
            &&& !writable(c, k) && a != 0 ==> same(c.exec(i(7)), illegal_here(c, i(7)))
            &&& !readable(c, k) ==> same(c.exec(i(2)), illegal_here(c, i(2)))
        }),
{
    lemma_csr_number(k);
    lemma_csr(c, 1, d, a, k);
    lemma_csr(c, 2, d, a, k);
    lemma_csr(c, 3, d, a, k);
    lemma_csr(c, 5, d, a, k);
    lemma_csr(c, 6, d, a, k);
    lemma_csr(c, 7, d, a, k);
}

/// ECALL traps with the exception of the mode, EBREAK with a breakpoint at its address,
/// MRET and SRET return, and WFI and the fences do nothing.
#[verifier::rlimit(60)]
pub proof fn law_system_instructions(c: CpuView, a: u32, b: u32)
    requires
        named(c, 0, a, b),
    ensures
        same(
            c.exec(0x0000_0073),
            (
                c,
                Err::<(), (Trap, u64)>(
                    (
                        Trap::Exception(
                            match c.mode {
                                Mode::User => Exception::EnvironmentCallFromUMode,
                                Mode::Supervisor => Exception::EnvironmentCallFromSMode,
                                _ => Exception::EnvironmentCallFromMMode,
                            },
                        ),
                        0u64,
                    ),
                ),
            ),
        ),
        same(
            c.exec(0x0010_0073),
            (c, Err::<(), (Trap, u64)>((Trap::Exception(Exception::Breakpoint), c.pc))),
        ),
        same(c.exec(0x3020_0073), (c.mret(), Ok::<(), (Trap, u64)>(()))),
        same(c.exec(0x1020_0073), (c.sret(), Ok::<(), (Trap, u64)>(()))),
        same(c.exec(0x1050_0073), goes_to(c, wrap(c.pc + 4))),
        same(c.exec(r_format(0x73, 0, 0x09, 0, a, b)), goes_to(c, wrap(c.pc + 4))),
{
    lemma_dispatch_system(c, 0x0000_0073);
    lemma_dispatch_system(c, 0x0010_0073);
    lemma_dispatch_system(c, 0x3020_0073);
    lemma_dispatch_system(c, 0x1020_0073);
    lemma_dispatch_system(c, 0x1050_0073);
    lemma_r_format(0x73, 0, 0x09, 0, a, b);
    lemma_dispatch_system(c, r_format(0x73, 0, 0x09, 0, a, b));
}

/// A trap goes to supervisor mode exactly if the hart is below machine mode and the bit of
/// the trap's code is set in the delegation register, of interrupts or of exceptions. An
/// exception's handler is at the base of the vector, and that of an interrupt too unless
/// the vector says otherwise.
#[verifier::rlimit(60)]
pub proof fn law_delegation(c: CpuView, trap: Trap, tval: u64)
    ensures
        ({
            let k = if trap is Interrupt {
                MIDELEG
            } else {
                MEDELEG
            };
            let to_supervisor = c.mode != Mode::Machine && (csr_read(c.csr, k) >> plain_code(trap))
                & 1 != 0;
            let tvec = csr_read(
                c.csr,
                if to_supervisor {
                    STVEC
                } else {
                    MTVEC
                },
            );
            let t = c.trap(trap, tval);
            &&& t.mode == (if to_supervisor {
                Mode::Supervisor
            } else {
                Mode::Machine
            })
            &&& tvec % 4 == 0 || trap is Exception ==> t.pc == tvec - tvec % 4
            &&& tvec % 4 == 1 && trap is Interrupt ==> t.pc == (tvec - 1 + 4 * plain_code(trap))
                % 0x1_0000_0000_0000_0000
            &&& t.regs == c.regs && t.f_regs == c.f_regs && t.bus == c.bus
        }),
{
    reveal(CpuView::trap);
}

/// What an atomic operation on doublewords stores where it found `x`, by its code.
pub open spec fn atomic_double(code: u32, x: u64, y: u64) -> u64 {
    if code == 0x00 {
        wrap(x + y)
    } else if code == 0x01 {
        y
    } else if code == 0x04 {
        x ^ y
    } else if code == 0x08 {
        x | y
    } else if code == 0x0C {
        x & y
    } else if code == 0x10 {
        if num(x) < num(y) {
            x
        } else {
            y
        }
    } else if code == 0x14 {
        if num(x) > num(y) {
            x
        } else {
            y
        }
    } else if code == 0x18 {
        if x < y {
            x
        } else {
            y
        }
    } else {
        if x > y {
            x
        } else {
            y
        }
    }
}

/// The same on words.
pub open spec fn atomic_word(code: u32, x: u32, y: u32) -> u32 {
    if code == 0x00 {
        ((x + y) % 0x1_0000_0000) as u32
    } else if code == 0x01 {
        y
    } else if code == 0x04 {
        x ^ y
    } else if code == 0x08 {
        x | y
    } else if code == 0x0C {
        x & y
    } else if code == 0x10 {
        if low_num(x as u64) < low_num(y as u64) {
            x
        } else {
            y
        }
    } else if code == 0x14 {
        if low_num(x as u64) > low_num(y as u64) {
            x
        } else {
            y
        }
    } else if code == 0x18 {
        if x < y {
            x
        } else {
            y
        }
    } else {
        if x > y {
            x
        } else {
            y
        }
    }
}

/// The codes of the read-modify-write operations: add, swap, xor, or, and, minimum and
/// maximum, and both unsigned.
pub open spec fn is_atomic_code(code: u32) -> bool {
    code == 0x00 || code == 0x01 || code == 0x04 || code == 0x08 || code == 0x0C || code == 0x10
        || code == 0x14 || code == 0x18 || code == 0x1C
}

/// The hart after an atomic operation on `va`: the bus, the register, the program counter;
/// the reservation is gone.
pub open spec fn after_atomic(c: CpuView, bus: BusView, va: u64, d: u32, v: u64) -> Outcome {
    gives(CpuView { bus, reservation: None, store_addr: va, ..c }, d, v)
}

/// An atomic instruction belongs to its group, untranslated.
#[verifier::rlimit(60)]
proof fn lemma_amo(c: CpuView, f3: u32, code: u32, order: u32, d: u32, a: u32, b: u32)
    requires
        named(c, d, a, b),
        f3 == 2 || f3 == 3,
        code < 32,
        order < 4,
        untranslated(c),
    ensures
        ({
            let i = r_format(0x2F, f3, (code * 4 + order) as u32, d, a, b);
            let va = reg(c, a);
            let s = CpuView { store_addr: va, ..c };
            let size: u64 = if f3 == 2 {
                4
            } else {
                8
            };
            let next = c.pc.wrapping_add(4);
            &&& code == 2 ==> same(c.exec(i), s.load_reserved(d as int, va, va, size, next))
            &&& code == 3 ==> same(
                c.exec(i),
                s.store_conditional(d as int, reg(c, b), va, va, size, next),
            )
            &&& is_atomic_code(code) ==> same(
                c.exec(i),
                s.amo(code, d as int, reg(c, b), va, va, size, next),
            )
        }),
{
    let f7 = (code * 4 + order) as u32;
    let i = r_format(0x2F, f3, f7, d, a, b);
    lemma_r_format(0x2F, f3, f7, d, a, b);
    lemma_dispatch_amo(c, i);
    let va = reg(c, a);
    let satp = csr_read(c.csr, SATP);
    let mstatus = csr_read(c.csr, MSTATUS);
    law_identity(c.bus, va, AccessType::Load, c.mode, satp, mstatus);
    law_identity(c.bus, va, AccessType::Store, c.mode, satp, mstatus);
    let s = CpuView { store_addr: va, ..c };
    assert(s == CpuView { bus: s.bus, ..s });
    assert(f7 / 4 == code);
}

/// The atomic operations on main memory, untranslated: the old value goes to the
/// destination register, a word sign-extended, and the new one to memory, whatever the
/// ordering bits say.
#[verifier::rlimit(60)]
pub proof fn law_atomic_operations(c: CpuView, code: u32, order: u32, d: u32, a: u32, b: u32)
    requires
        named(c, d, a, b),
        is_atomic_code(code),
        order < 4,
        untranslated(c),
        in_dram(c.bus, reg(c, a), 8),
    ensures
        ({
            let va = reg(c, a);
            let y = reg(c, b);
            let f7 = (code * 4 + order) as u32;
            let x = c.bus.read64(va).1->Ok_0;
            let w = c.bus.read32(va).1->Ok_0;
            &&& c.exec(r_format(0x2F, 3, f7, d, a, b)) == after_atomic(
                c,
                c.bus.write64(va, atomic_double(code, x, y)).0,
                va,
                d,
                x,
            )
            &&& c.exec(r_format(0x2F, 2, f7, d, a, b)) == after_atomic(
                c,
                c.bus.write32(va, atomic_word(code, w, (y % 0x1_0000_0000) as u32)).0,
                va,
                d,
                wrap(low_num(w as u64)),
            )
        }),
{
    lemma_amo(c, 3, code, order, d, a, b);
    lemma_amo(c, 2, code, order, d, a, b);
    assert(c.bus.read64(reg(c, a)).1 is Ok && c.bus.read32(reg(c, a)).1 is Ok && c.bus.read64(
        reg(c, a),
    ).0 == c.bus && c.bus.read32(reg(c, a)).0 == c.bus) by {
        reveal(BusView::read64);
        reveal(BusView::read32);
    }
    assert forall|v: u64, u: u32| #![trigger c.bus.write64(reg(c, a), v), c.bus.write32(reg(c, a), u)]
        c.bus.write64(reg(c, a), v).1 is Ok && c.bus.write32(reg(c, a), u).1 is Ok by {
        reveal(BusView::write64);
        reveal(BusView::write32);
    }
}

/// LR loads and reserves the doubleword around its address. SC stores and writes zero if
/// the doubleword around its address is reserved, and else writes one and stores nothing;
/// either way the reservation is used up.
#[verifier::rlimit(60)]
pub proof fn law_reservations(c: CpuView, order: u32, d: u32, a: u32, b: u32)
    requires
        named(c, d, a, b),
        order < 4,
        untranslated(c),
        in_dram(c.bus, reg(c, a), 8),
    ensures
        ({
            let va = reg(c, a);
            let y = reg(c, b);
            let block = (va - va % 8) as u64;
            let x = c.bus.read64(va).1->Ok_0;
            let w = c.bus.read32(va).1->Ok_0;
            let held = c.reservation == Some(block);
            &&& c.exec(r_format(0x2F, 3, (8 + order) as u32, d, a, b)) == gives(
                CpuView { reservation: Some(block), store_addr: va, ..c },
                d,
                x,
            )
            &&& c.exec(r_format(0x2F, 2, (8 + order) as u32, d, a, b)) == gives(
                CpuView { reservation: Some(block), store_addr: va, ..c },
                d,
                wrap(low_num(w as u64)),
            )
            &&& c.exec(r_format(0x2F, 3, (12 + order) as u32, d, a, b)) == (if held {
                after_atomic(c, c.bus.write64(va, y).0, va, d, 0)
            } else {
                after_atomic(c, c.bus, va, d, 1)
            })
            &&& c.exec(r_format(0x2F, 2, (12 + order) as u32, d, a, b)) == (if held {
                after_atomic(c, c.bus.write32(va, (y % 0x1_0000_0000) as u32).0, va, d, 0)
            } else {
                after_atomic(c, c.bus, va, d, 1)
            })
        }),
{
    lemma_amo(c, 3, 2, order, d, a, b);
    lemma_amo(c, 2, 2, order, d, a, b);
    lemma_amo(c, 3, 3, order, d, a, b);
    lemma_amo(c, 2, 3, order, d, a, b);
    let va = reg(c, a);
    let y = reg(c, b);
    assert(c.bus.read64(va).1 is Ok && c.bus.read32(va).1 is Ok && c.bus.read64(va).0 == c.bus
        && c.bus.read32(va).0 == c.bus && c.bus.write64(va, y).1 is Ok && c.bus.write32(
        va,
        (y % 0x1_0000_0000) as u32,
    ).1 is Ok) by {
        reveal(BusView::read64);
        reveal(BusView::read32);
        reveal(BusView::write64);
        reveal(BusView::write32);
    }
}

} // verus!
