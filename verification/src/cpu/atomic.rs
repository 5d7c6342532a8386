//! Atomic instructions: load-reserved, store-conditional and the read-modify-write
//! operations.

#[allow(unused_imports)]
use crate::alu::{max_spec, maxu_spec, min_spec, minu_spec, sext32, signed32, word};
use crate::alu::{low_word, ltw, max, maxu, min, minu, sext_word};
use crate::cpu::decode::{funct3, funct7, rd, rs1, rs2};
#[allow(unused_imports)]
use crate::cpu::memory::{bus_read, bus_write, load_fault, store_fault};
use crate::cpu::Cpu;
#[allow(unused_imports)]
use crate::cpu::{CpuView, Outcome};
use crate::mmu::AccessType;
use crate::trap::{Exception, Trap};
use vstd::prelude::*;

verus! {

/// The operation code of load-reserved.
pub const LR: u32 = 0x02;

/// The operation code of store-conditional.
pub const SC: u32 = 0x03;

/// `f5` is a read-modify-write operation.
pub open spec fn is_amo(f5: u32) -> bool {
    f5 == 0x00 || f5 == 0x01 || f5 == 0x04 || f5 == 0x08 || f5 == 0x0C || f5 == 0x10 || f5 == 0x14
        || f5 == 0x18 || f5 == 0x1C
}

/// What a doubleword operation stores where it found `a`: add, swap, xor, or,
/// and, signed minimum and maximum, unsigned minimum and maximum.
pub open spec fn amo_double(f5: u32, a: u64, b: u64) -> u64 {
    match f5 {
        0x00 => a.wrapping_add(b),
        0x01 => b,
        0x04 => a ^ b,
        0x08 => a | b,
        0x0C => a & b,
        0x10 => min_spec(a, b),
        0x14 => max_spec(a, b),
        0x18 => minu_spec(a, b),
        _ => maxu_spec(a, b),
    }
}

/// What a word operation stores where it found `a`.
pub open spec fn amo_word(f5: u32, a: u32, b: u32) -> u32 {
    match f5 {
        0x00 => a.wrapping_add(b),
        0x01 => b,
        0x04 => a ^ b,
        0x08 => a | b,
        0x0C => a & b,
        0x10 => if signed32(a) <= signed32(b) {
            a
        } else {
            b
        },
        0x14 => if signed32(a) <= signed32(b) {
            b
        } else {
            a
        },
        0x18 => if a <= b {
            a
        } else {
            b
        },
        _ => if a <= b {
            b
        } else {
            a
        },
    }
}

/// A value of `size` bytes as the destination register gets it.
pub open spec fn amo_loaded(size: u64, v: u64) -> u64 {
    if size == 4 {
        sext32(word(v))
    } else {
        v
    }
}

/// What an operation of `size` bytes stores.
pub open spec fn amo_stored(f5: u32, size: u64, a: u64, b: u64) -> u64 {
    if size == 4 {
        amo_word(f5, word(a), word(b)) as u64
    } else {
        amo_double(f5, a, b)
    }
}

impl CpuView {
    /// Load-reserved from the physical address `pa`.
    pub open spec fn load_reserved(self, d: int, va: u64, pa: u64, size: u64, pc: u64) -> Outcome {
        match bus_read(self.bus, pa, size) {
            (bus, None) => (CpuView { bus, ..self }, Err((load_fault(), va))),
            (bus, Some(v)) => (
                CpuView {
                    reservation: Some((pa - pa % 8) as u64),
                    pc,
                    ..CpuView { bus, ..self }.set_x(d, amo_loaded(size, v))
                },
                Ok(()),
            ),
        }
    }

    /// Store-conditional to the physical address `pa`: it stores and writes zero
    /// if the address is reserved, else it writes one.
    pub open spec fn store_conditional(
        self,
        d: int,
        value: u64,
        va: u64,
        pa: u64,
        size: u64,
        pc: u64,
    ) -> Outcome {
        if self.reserved(pa) {
            match bus_write(self.bus, pa, value, size) {
                (bus, false) => (CpuView { bus, ..self }, Err((store_fault(), va))),
                (bus, true) => (
                    CpuView { reservation: None, pc, ..CpuView { bus, ..self }.set_x(d, 0) },
                    Ok(()),
                ),
            }
        } else {
            (CpuView { reservation: None, pc, ..self.set_x(d, 1) }, Ok(()))
        }
    }

    /// A read-modify-write operation on the physical address `pa`.
    pub open spec fn amo(
        self,
        f5: u32,
        d: int,
        value: u64,
        va: u64,
        pa: u64,
        size: u64,
        pc: u64,
    ) -> Outcome {
        match bus_read(self.bus, pa, size) {
            (bus, None) => (CpuView { bus, ..self }, Err((load_fault(), va))),
            (bus, Some(old_value)) => match bus_write(
                bus,
                pa,
                amo_stored(f5, size, old_value, value),
                size,
            ) {
                (bus2, false) => (CpuView { bus: bus2, ..self }, Err((store_fault(), va))),
                (bus2, true) => (
                    CpuView {
                        reservation: None,
                        pc,
                        ..CpuView { bus: bus2, ..self }.set_x(d, amo_loaded(size, old_value))
                    },
                    Ok(()),
                ),
            },
        }
    }

    /// The atomic instructions. The address is translated before the instruction
    /// is looked at further, as a load for load-reserved and as a store for all
    /// others.
    pub open spec fn exec_amo(self, inst: u32) -> Outcome {
        let f5 = funct7(inst) / 4;
        let va = self.x(rs1(inst) as int);
        let d = rd(inst) as int;
        let value = self.x(rs2(inst) as int);
        let next = self.pc.wrapping_add(4);
        let access = if f5 == LR {
            AccessType::Load
        } else {
            AccessType::Store
        };
        match (CpuView { store_addr: va, ..self }).translate(va, access) {
            (s, Err(t)) => (s, Err((t, va))),
            (s, Ok(pa)) => {
                let size: u64 = if funct3(inst) == 2 {
                    4
                } else {
                    8
                };
                if funct3(inst) != 2 && funct3(inst) != 3 {
                    s.refuse(inst)
                } else if f5 == LR {
                    s.load_reserved(d, va, pa, size, next)
                } else if f5 == SC {
                    s.store_conditional(d, value, va, pa, size, next)
                } else if is_amo(f5) {
                    s.amo(f5, d, value, va, pa, size, next)
                } else {
                    s.refuse(inst)
                }
            },
        }
    }
}

/// Computes `amo_double`.
fn combine_double(f5: u32, a: u64, b: u64) -> (v: u64)
    ensures
        v == amo_double(f5, a, b),
{
    match f5 {
        0x00 => a.wrapping_add(b),
        0x01 => b,
        0x04 => a ^ b,
        0x08 => a | b,
        0x0C => a & b,
        0x10 => min(a, b),
        0x14 => max(a, b),
        0x18 => minu(a, b),
        _ => maxu(a, b),
    }
}

/// Computes `amo_word`.
fn combine_word(f5: u32, a: u32, b: u32) -> (v: u32)
    ensures
        v == amo_word(f5, a, b),
{
    match f5 {
        0x00 => a.wrapping_add(b),
        0x01 => b,
        0x04 => a ^ b,
        0x08 => a | b,
        0x0C => a & b,
        0x10 => {
            if ltw(b, a) {
                b
            } else {
                a
            }
        },
        0x14 => {
            if ltw(b, a) {
                a
            } else {
                b
            }
        },
        0x18 => {
            if a <= b {
                a
            } else {
                b
            }
        },
        _ => {
            if a <= b {
                b
            } else {
                a
            }
        },
    }
}

/// A value of `size` bytes as the destination register gets it.
fn loaded(size: u64, v: u64) -> (r: u64)
    ensures
        r == amo_loaded(size, v),
{
    if size == 4 {
        sext_word(low_word(v))
    } else {
        v
    }
}

impl Cpu {
    /// Load-reserved.
    fn do_lr(&mut self, d: usize, va: u64, pa: u64, size: u64, pc: u64) -> (r: Result<
        (),
        (Trap, u64),
    >)
        requires
            d < 32,
        ensures
            (final(self)@, r) == old(self)@.load_reserved(d as int, va, pa, size, pc),
    {
        match self.read_pa(pa, size) {
            None => Err((Trap::Exception(Exception::LoadAccessFault), va)),
            Some(v) => {
                self.write_reg(d, loaded(size, v));
                self.set_reservation(pa);
                self.pc = pc;
                Ok(())
            },
        }
    }

    /// Store-conditional.
    fn do_sc(&mut self, d: usize, value: u64, va: u64, pa: u64, size: u64, pc: u64) -> (r: Result<
        (),
        (Trap, u64),
    >)
        requires
            d < 32,
        ensures
            (final(self)@, r) == old(self)@.store_conditional(d as int, value, va, pa, size, pc),
    {
        if self.check_reservation(pa) {
            if !self.write_pa(pa, value, size) {
                return Err((Trap::Exception(Exception::StoreAMOAccessFault), va));
            }
            self.write_reg(d, 0);
        } else {
            self.write_reg(d, 1);
        }
        self.clear_reservation();
        self.pc = pc;
        Ok(())
    }

    /// A read-modify-write operation.
    fn do_rmw(
        &mut self,
        f5: u32,
        d: usize,
        value: u64,
        va: u64,
        pa: u64,
        size: u64,
        pc: u64,
    ) -> (r: Result<(), (Trap, u64)>)
        requires
            d < 32,
        ensures
            (final(self)@, r) == old(self)@.amo(f5, d as int, value, va, pa, size, pc),
    {
        let found: u64 = match self.read_pa(pa, size) {
            None => return Err((Trap::Exception(Exception::LoadAccessFault), va)),
            Some(v) => v,
        };
        let new: u64 = if size == 4 {
            combine_word(f5, low_word(found), low_word(value)) as u64
        } else {
            combine_double(f5, found, value)
        };
        if !self.write_pa(pa, new, size) {
            return Err((Trap::Exception(Exception::StoreAMOAccessFault), va));
        }
        self.write_reg(d, loaded(size, found));
        self.clear_reservation();
        self.pc = pc;
        Ok(())
    }

    /// The atomic instructions.
    pub(crate) fn do_amo(&mut self, inst: u32) -> (r: Result<(), (Trap, u64)>)
        ensures
            (final(self)@, r) == old(self)@.exec_amo(inst),
    {
        let f5: u32 = funct7(inst) / 4;
        let f3: u32 = funct3(inst);
        let va: u64 = self.read_reg(rs1(inst));
        let value: u64 = self.read_reg(rs2(inst));
        let d: usize = rd(inst);
        let next: u64 = self.pc.wrapping_add(4);
        let access = if f5 == LR {
            AccessType::Load
        } else {
            AccessType::Store
        };
        self.store_addr = va;
        let pa: u64 = match self.translate_va(va, access) {
            Ok(pa) => pa,
            Err(t) => return Err((t, va)),
        };
        if f3 != 2 && f3 != 3 {
            return self.refuse_inst(inst);
        }
        let size: u64 = if f3 == 2 {
            4
        } else {
            8
        };
        match f5 {
            0x02 => self.do_lr(d, va, pa, size, next),
            0x03 => self.do_sc(d, value, va, pa, size, next),
            0x00 | 0x01 | 0x04 | 0x08 | 0x0C | 0x10 | 0x14 | 0x18 | 0x1C => self.do_rmw(
                f5,
                d,
                value,
                va,
                pa,
                size,
                next,
            ),
            _ => self.refuse_inst(inst),
        }
    }
}

} // verus!
