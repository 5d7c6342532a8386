//! Loads, stores and instruction fetch through the translation unit.

#[allow(unused_imports)]
use crate::alu::{sext, word};
use crate::alu::sign_extend;
#[allow(unused_imports)]
use crate::bus::BusView;
use crate::cpu::Cpu;
#[allow(unused_imports)]
use crate::cpu::{CpuView, Outcome};
#[allow(unused_imports)]
use crate::csr::csr_read;
use crate::csr::{MSTATUS, SATP};
#[allow(unused_imports)]
use crate::mmu::translated;
use crate::mmu::{AccessType, Mmu};
use crate::trap::{Exception, Trap};
use vstd::prelude::*;

verus! {

/// A load-access fault.
pub open spec fn load_fault() -> Trap {
    Trap::Exception(Exception::LoadAccessFault)
}

/// A store-access fault.
pub open spec fn store_fault() -> Trap {
    Trap::Exception(Exception::StoreAMOAccessFault)
}

/// `2^(8 * i)`, for `i` below 8.
pub open spec fn byte_weight(i: nat) -> u64 {
    if i == 0 {
        1
    } else if i == 1 {
        0x100
    } else if i == 2 {
        0x1_0000
    } else if i == 3 {
        0x100_0000
    } else if i == 4 {
        0x1_0000_0000
    } else if i == 5 {
        0x100_0000_0000
    } else if i == 6 {
        0x1_0000_0000_0000
    } else {
        0x100_0000_0000_0000
    }
}

/// Byte `i` of `v`, counted from the least significant one.
pub open spec fn byte_at(v: u64, i: nat) -> u8 {
    (v / byte_weight(i) % 256) as u8
}

/// A read of `size` bytes, 1, 2, 4 or 8: the bus after it, and the value if
/// something answered.
pub open spec fn bus_read(bus: BusView, pa: u64, size: u64) -> (BusView, Option<u64>) {
    if size == 1 {
        match bus.read8(pa) {
            (b, Ok(v)) => (b, Some(v as u64)),
            (b, Err(e)) => (b, None),
        }
    } else if size == 2 {
        match bus.read16(pa) {
            (b, Ok(v)) => (b, Some(v as u64)),
            (b, Err(e)) => (b, None),
        }
    } else if size == 4 {
        match bus.read32(pa) {
            (b, Ok(v)) => (b, Some(v as u64)),
            (b, Err(e)) => (b, None),
        }
    } else {
        match bus.read64(pa) {
            (b, Ok(v)) => (b, Some(v)),
            (b, Err(e)) => (b, None),
        }
    }
}

/// A write of the low `size` bytes of `value`: the bus after it, and whether
/// something took them.
pub open spec fn bus_write(bus: BusView, pa: u64, value: u64, size: u64) -> (BusView, bool) {
    if size == 1 {
        let (b, r) = bus.write8(pa, (value % 0x100) as u8);
        (b, r is Ok)
    } else if size == 2 {
        let (b, r) = bus.write16(pa, (value % 0x1_0000) as u16);
        (b, r is Ok)
    } else if size == 4 {
        let (b, r) = bus.write32(pa, word(value));
        (b, r is Ok)
    } else {
        let (b, r) = bus.write64(pa, value);
        (b, r is Ok)
    }
}

impl CpuView {
    /// The translation of `va` by this hart.
    pub open spec fn translate(self, va: u64, access: AccessType) -> (
        CpuView,
        Result<u64, Trap>,
    ) {
        let (bus, r) = translated(
            self.bus,
            va,
            access,
            self.mode,
            csr_read(self.csr, SATP),
            csr_read(self.csr, MSTATUS),
        );
        (CpuView { bus, ..self }, r)
    }

    /// A load that crosses a page: the bytes from number `i` on are read one by
    /// one, each with its own translation, and added to `acc`.
    pub open spec fn load_bytes(self, va: u64, size: u64, i: nat, acc: u64) -> (
        CpuView,
        Result<u64, (Trap, u64)>,
    )
        decreases size - i,
    {
        if i >= size {
            (self, Ok(acc))
        } else {
            match self.translate(va.wrapping_add(i as u64), AccessType::Load) {
                (s, Err(t)) => (s, Err((t, va))),
                (s, Ok(pa)) => match s.bus.read8(pa) {
                    (bus, Err(e)) => (CpuView { bus, ..s }, Err((load_fault(), va))),
                    (bus, Ok(b)) => CpuView { bus, ..s }.load_bytes(
                        va,
                        size,
                        i + 1,
                        acc.wrapping_add((b * byte_weight(i)) as u64),
                    ),
                },
            }
        }
    }

    /// A load of `size` bytes from the virtual address `va`. The trap value of a
    /// failed load is `va`.
    #[verifier::opaque]
    pub open spec fn load(self, va: u64, size: u64) -> (CpuView, Result<u64, (Trap, u64)>) {
        if va % 4096 + size <= 4096 {
            match self.translate(va, AccessType::Load) {
                (s, Err(t)) => (s, Err((t, va))),
                (s, Ok(pa)) => match bus_read(s.bus, pa, size) {
                    (bus, None) => (CpuView { bus, ..s }, Err((load_fault(), va))),
                    (bus, Some(v)) => (CpuView { bus, ..s }, Ok(v)),
                },
            }
        } else {
            self.load_bytes(va, size, 0, 0)
        }
    }

    /// A store that crosses a page, from byte number `i` on. A byte that fails
    /// ends it; the bytes before that one stay written.
    pub open spec fn store_bytes(self, va: u64, value: u64, size: u64, i: nat) -> Outcome
        decreases size - i,
    {
        if i >= size {
            (self, Ok(()))
        } else {
            match self.translate(va.wrapping_add(i as u64), AccessType::Store) {
                (s, Err(t)) => (s, Err((t, va))),
                (s, Ok(pa)) => match s.bus.write8(pa, byte_at(value, i)) {
                    (bus, Err(e)) => (CpuView { bus, ..s }, Err((store_fault(), va))),
                    (bus, Ok(())) => CpuView { bus, ..s }.store_bytes(va, value, size, i + 1),
                },
            }
        }
    }

    /// A store of the low `size` bytes of `value` to the virtual address `va`.
    #[verifier::opaque]
    pub open spec fn store(self, va: u64, value: u64, size: u64) -> Outcome {
        let s0 = CpuView { store_addr: va, ..self };
        if va % 4096 + size <= 4096 {
            match s0.translate(va, AccessType::Store) {
                (s, Err(t)) => (s, Err((t, va))),
                (s, Ok(pa)) => {
                    let (bus, taken) = bus_write(s.bus, pa, value, size);
                    (
                        CpuView { bus, ..s },
                        if taken {
                            Ok(())
                        } else {
                            Err((store_fault(), va))
                        },
                    )
                },
            }
        } else {
            s0.store_bytes(va, value, size, 0)
        }
    }

    /// An instruction that loads `size` bytes into an integer register, with sign
    /// extension from `half` on, or without if `half` is zero.
    pub open spec fn load_x(self, i: int, va: u64, size: u64, half: u64, pc: u64) -> Outcome {
        match self.load(va, size) {
            (s, Err(e)) => (s, Err(e)),
            (s, Ok(v)) => s.write_x(
                i,
                if half == 0 {
                    v
                } else {
                    sext((v % (2 * half) as u64) as u64, half)
                },
                pc,
            ),
        }
    }

    /// An instruction that stores an integer or floating-point value. It drops
    /// the reservation.
    pub open spec fn store_op(self, va: u64, value: u64, size: u64, pc: u64) -> Outcome {
        match self.store(va, value, size) {
            (s, Err(e)) => (s, Err(e)),
            (s, Ok(())) => (CpuView { reservation: None, pc, ..s }, Ok(())),
        }
    }

    /// The instruction at the program counter: 16 bits of it are read first, and
    /// if they say so another 16, which have their own translation where they
    /// stand on another page.
    #[verifier::opaque]
    pub open spec fn fetch(self) -> (CpuView, Result<u32, (Trap, u64)>) {
        let pc = self.pc;
        let fault = (Trap::Exception(Exception::InstructionAccessFault), pc);
        if pc % 2 != 0 {
            (self, Err((Trap::Exception(Exception::InstructionAddressMisaligned), pc)))
        } else {
            match self.translate(pc, AccessType::Instruction) {
                (s, Err(t)) => (s, Err((t, pc))),
                (s, Ok(pa)) => match s.bus.read16(pa) {
                    (bus, Err(e)) => (CpuView { bus, ..s }, Err(fault)),
                    (bus, Ok(low)) => {
                        let s2 = CpuView { bus, ..s };
                        if low % 4 != 3 {
                            (s2, Ok(low as u32))
                        } else {
                            let (s3, upper) = if pc % 4096 >= 0xFFE {
                                s2.translate(pc.wrapping_add(2), AccessType::Instruction)
                            } else {
                                (s2, Ok(pa.wrapping_add(2)))
                            };
                            match upper {
                                Err(t) => (s3, Err((t, pc))),
                                Ok(pa2) => match s3.bus.read16(pa2) {
                                    (bus, Err(e)) => (CpuView { bus, ..s3 }, Err(fault)),
                                    (bus, Ok(high)) => (
                                        CpuView { bus, ..s3 },
                                        Ok((low + high * 0x1_0000) as u32),
                                    ),
                                },
                            }
                        }
                    },
                },
            }
        }
    }
}

/// `2^(8 * i)`.
fn weight_of_byte(i: u64) -> (w: u64)
    requires
        i < 8,
    ensures
        w == byte_weight(i as nat),
        0 < w <= 0x100_0000_0000_0000,
{
    match i {
        0 => 1,
        1 => 0x100,
        2 => 0x1_0000,
        3 => 0x100_0000,
        4 => 0x1_0000_0000,
        5 => 0x100_0000_0000,
        6 => 0x1_0000_0000_0000,
        _ => 0x100_0000_0000_0000,
    }
}

impl Cpu {
    /// Translates a virtual address.
    pub(crate) fn translate_va(&mut self, va: u64, access: AccessType) -> (r: Result<u64, Trap>)
        ensures
            (final(self)@, r) == old(self)@.translate(va, access),
    {
        let satp: u64 = self.csr.read(SATP);
        let mstatus: u64 = self.csr.read(MSTATUS);
        Mmu::translate(va, access, self.mode, satp, mstatus, &mut self.bus)
    }

    /// Reads `size` bytes at a physical address.
    pub(crate) fn read_pa(&mut self, pa: u64, size: u64) -> (v: Option<u64>)
        ensures
            ({
                let (bus, w) = bus_read(old(self)@.bus, pa, size);
                v == w && final(self)@ == CpuView { bus, ..old(self)@ }
            }),
    {
        match size {
            1 => match self.bus.read8(pa) {
                Ok(v) => Some(v as u64),
                Err(_) => None,
            },
            2 => match self.bus.read16(pa) {
                Ok(v) => Some(v as u64),
                Err(_) => None,
            },
            4 => match self.bus.read32(pa) {
                Ok(v) => Some(v as u64),
                Err(_) => None,
            },
            _ => match self.bus.read64(pa) {
                Ok(v) => Some(v),
                Err(_) => None,
            },
        }
    }

    /// Writes the low `size` bytes of `value` to a physical address.
    pub(crate) fn write_pa(&mut self, pa: u64, value: u64, size: u64) -> (taken: bool)
        ensures
            ({
                let (bus, b) = bus_write(old(self)@.bus, pa, value, size);
                taken == b && final(self)@ == CpuView { bus, ..old(self)@ }
            }),
    {
        let r = match size {
            1 => self.bus.write8(pa, (value % 0x100) as u8),
            2 => self.bus.write16(pa, (value % 0x1_0000) as u16),
            4 => self.bus.write32(pa, (value % 0x1_0000_0000) as u32),
            _ => self.bus.write64(pa, value),
        };
        r.is_ok()
    }

    /// Loads `size` bytes from a virtual address.
    pub fn load_va(&mut self, va: u64, size: u64) -> (r: Result<u64, (Trap, u64)>)
        requires
            size == 1 || size == 2 || size == 4 || size == 8,
        ensures
            (final(self)@, r) == old(self)@.load(va, size),
    {
        proof {
            reveal(CpuView::load);
        }
        let fault = Trap::Exception(Exception::LoadAccessFault);
        if va % 4096 + size <= 4096 {
            let pa: u64 = match self.translate_va(va, AccessType::Load) {
                Ok(pa) => pa,
                Err(t) => return Err((t, va)),
            };
            match self.read_pa(pa, size) {
                Some(v) => Ok(v),
                None => Err((fault, va)),
            }
        } else {
            let mut acc: u64 = 0;
            let mut i: u64 = 0;
            while i < size
                invariant
                    i <= size <= 8,
                    fault == load_fault(),
                    old(self)@.load_bytes(va, size, 0, 0) == self@.load_bytes(
                        va,
                        size,
                        i as nat,
                        acc,
                    ),
                    old(self)@.load(va, size) == old(self)@.load_bytes(va, size, 0, 0),
                decreases size - i,
            {
                let pa: u64 = match self.translate_va(va.wrapping_add(i), AccessType::Load) {
                    Ok(pa) => pa,
                    Err(t) => return Err((t, va)),
                };
                let byte: u8 = match self.bus.read8(pa) {
                    Ok(b) => b,
                    Err(_) => return Err((fault, va)),
                };
                let w: u64 = weight_of_byte(i);
                assert(0 <= byte * w <= 255 * 0x100_0000_0000_0000) by (nonlinear_arith)
                    requires
                        0 <= w <= 0x100_0000_0000_0000,
                ;
                acc = acc.wrapping_add(byte as u64 * w);
                i = i + 1;
            }
            Ok(acc)
        }
    }

    /// Stores the low `size` bytes of `value` to a virtual address.
    pub fn store_va(&mut self, va: u64, value: u64, size: u64) -> (r: Result<
        (),
        (Trap, u64),
    >)
        requires
            size == 1 || size == 2 || size == 4 || size == 8,
        ensures
            (final(self)@, r) == old(self)@.store(va, value, size),
    {
        proof {
            reveal(CpuView::store);
        }
        let fault = Trap::Exception(Exception::StoreAMOAccessFault);
        self.store_addr = va;
        if va % 4096 + size <= 4096 {
            let pa: u64 = match self.translate_va(va, AccessType::Store) {
                Ok(pa) => pa,
                Err(t) => return Err((t, va)),
            };
            if self.write_pa(pa, value, size) {
                Ok(())
            } else {
                Err((fault, va))
            }
        } else {
            let ghost s0 = self@;
            let mut i: u64 = 0;
            while i < size
                invariant
                    i <= size <= 8,
                    fault == store_fault(),
                    s0.store_bytes(va, value, size, 0) == self@.store_bytes(
                        va,
                        value,
                        size,
                        i as nat,
                    ),
                    old(self)@.store(va, value, size) == s0.store_bytes(va, value, size, 0),
                decreases size - i,
            {
                let pa: u64 = match self.translate_va(va.wrapping_add(i), AccessType::Store) {
                    Ok(pa) => pa,
                    Err(t) => return Err((t, va)),
                };
                let byte: u8 = (value / weight_of_byte(i) % 256) as u8;
                match self.bus.write8(pa, byte) {
                    Ok(()) => {},
                    Err(_) => return Err((fault, va)),
                }
                i = i + 1;
            }
            Ok(())
        }
    }

    /// Executes a load into an integer register.
    pub(crate) fn do_load(&mut self, index: usize, va: u64, size: u64, half: u64, pc: u64) -> (r:
        Result<(), (Trap, u64)>)
        requires
            index < 32,
            size == 1 || size == 2 || size == 4 || size == 8,
            half <= 0x8000_0000,
        ensures
            (final(self)@, r) == old(self)@.load_x(index as int, va, size, half, pc),
    {
        let v: u64 = match self.load_va(va, size) {
            Ok(v) => v,
            Err(e) => return Err(e),
        };
        let value: u64 = if half == 0 {
            v
        } else {
            sign_extend(v % (2 * half), half)
        };
        self.end_x(index, value, pc)
    }

    /// Executes a store.
    pub(crate) fn do_store(&mut self, va: u64, value: u64, size: u64, pc: u64) -> (r: Result<
        (),
        (Trap, u64),
    >)
        requires
            size == 1 || size == 2 || size == 4 || size == 8,
        ensures
            (final(self)@, r) == old(self)@.store_op(va, value, size, pc),
    {
        match self.store_va(va, value, size) {
            Ok(()) => {},
            Err(e) => return Err(e),
        }
        self.clear_reservation();
        self.pc = pc;
        Ok(())
    }

    /// Fetches the instruction at the program counter.
    pub(crate) fn fetch_inst(&mut self) -> (r: Result<u32, (Trap, u64)>)
        ensures
            (final(self)@, r) == old(self)@.fetch(),
    {
        proof {
            reveal(CpuView::fetch);
        }
        let pc: u64 = self.pc;
        if pc % 2 != 0 {
            return Err((Trap::Exception(Exception::InstructionAddressMisaligned), pc));
        }
        let pa: u64 = match self.translate_va(pc, AccessType::Instruction) {
            Ok(pa) => pa,
            Err(t) => return Err((t, pc)),
        };
        let low: u16 = match self.bus.read16(pa) {
            Ok(v) => v,
            Err(_) => return Err((Trap::Exception(Exception::InstructionAccessFault), pc)),
        };
        if low % 4 != 3 {
            return Ok(low as u32);
        }
        let pa2: u64 = if pc % 4096 >= 0xFFE {
            match self.translate_va(pc.wrapping_add(2), AccessType::Instruction) {
                Ok(pa) => pa,
                Err(t) => return Err((t, pc)),
            }
        } else {
            pa.wrapping_add(2)
        };
        let high: u16 = match self.bus.read16(pa2) {
            Ok(v) => v,
            Err(_) => return Err((Trap::Exception(Exception::InstructionAccessFault), pc)),
        };
        Ok(low as u32 + high as u32 * 0x1_0000)
    }
}

} // verus!
