//! System instructions: environment calls, returns from traps, fences, accesses
//! to the control and status registers, and the cache-block operations.

#[allow(unused_imports)]
use crate::bus::BusView;
use crate::cpu::decode::{csr_address, funct3, funct7, imm_i, rd, rs1, rs2};
use crate::cpu::{Cpu, Mode};
#[allow(unused_imports)]
use crate::cpu::{mode_number, CpuView, Outcome};
#[allow(unused_imports)]
use crate::csr::{csr_privilege, csr_read, csr_readonly, csr_write, valid_csr};
use crate::csr::{Csr, STIMECMP, TIME};
use crate::mmu::AccessType;
use crate::trap::{Exception, Trap};
use vstd::prelude::*;

verus! {

/// The exception of an environment call.
pub open spec fn ecall(mode: Mode) -> Trap {
    match mode {
        Mode::User => Trap::Exception(Exception::EnvironmentCallFromUMode),
        Mode::Supervisor => Trap::Exception(Exception::EnvironmentCallFromSMode),
        Mode::Hypervisor => Trap::Exception(Exception::EnvironmentCallFromMMode),
        Mode::Machine => Trap::Exception(Exception::EnvironmentCallFromMMode),
    }
}

/// Zeros written to the doublewords of a cache block from number `i` on. What
/// nothing takes is lost.
pub open spec fn zero_block(bus: BusView, pa: u64, i: nat) -> BusView
    decreases 8 - i,
{
    if i >= 8 {
        bus
    } else {
        zero_block(bus.write64(pa.wrapping_add((8 * i) as u64), 0).0, pa, i + 1)
    }
}

impl CpuView {
    /// The hart may access register `addr`, for writing if `writes`.
    pub open spec fn may_access(self, addr: u16, writes: bool) -> bool {
        valid_csr(addr) && mode_number(self.mode) >= csr_privilege(addr) && !(writes
            && csr_readonly(addr))
    }

    /// Register `addr` is replaced: the state after it and the old value. The
    /// supervisor timer's deadline is kept on the bus too; read by register it
    /// comes from there.
    pub open spec fn csr_replace(self, addr: u16, value: u64, immediate: bool) -> (CpuView, u64) {
        let csr = csr_write(self.csr, addr, value);
        if addr == STIMECMP {
            let s = CpuView { csr, bus: BusView { stimecmp: value, ..self.bus }, ..self };
            if immediate {
                (s, csr_read(self.csr, addr))
            } else {
                (s, self.bus.stimecmp)
            }
        } else {
            (CpuView { csr, ..self }, csr_read(self.csr, addr))
        }
    }

    /// Bits of register `addr` are set or cleared: the state after it and the old
    /// value. The real-time counter comes from the bus. Without a destination and
    /// a source nothing is read.
    pub open spec fn csr_mask(
        self,
        addr: u16,
        mask: u64,
        clear: bool,
        reads: bool,
        writes: bool,
    ) -> (CpuView, u64) {
        let (s, v) = if !reads {
            (self, 0)
        } else if addr == TIME {
            (self, self.bus.mtime)
        } else {
            let before = csr_read(self.csr, addr);
            if mask == 0 {
                (self, before)
            } else {
                let after = if clear {
                    before & !mask
                } else {
                    before | mask
                };
                (CpuView { csr: csr_write(self.csr, addr, after), ..self }, before)
            }
        };
        if writes && addr == STIMECMP {
            (
                CpuView { bus: BusView { stimecmp: csr_read(s.csr, STIMECMP), ..s.bus }, ..s },
                v,
            )
        } else {
            (s, v)
        }
    }

    /// The register instructions: CSRRW, CSRRS, CSRRC and their immediate forms.
    pub open spec fn exec_csr(self, inst: u32) -> Outcome {
        let f3 = funct3(inst);
        let addr = csr_address(inst);
        let immediate = f3 >= 4;
        let source = if immediate {
            rs1(inst) as u64
        } else {
            self.x(rs1(inst) as int)
        };
        let replace = f3 % 4 == 1;
        let writes = replace || rs1(inst) != 0;
        let reads = rd(inst) != 0 || rs1(inst) != 0;
        if f3 % 4 == 0 || !self.may_access(addr, writes) {
            self.refuse(inst)
        } else {
            let (s, v) = if replace {
                self.csr_replace(addr, source, immediate)
            } else {
                self.csr_mask(addr, source, f3 % 4 == 3, reads, writes)
            };
            s.write_x(rd(inst) as int, v, self.pc.wrapping_add(4))
        }
    }

    /// The instructions without a register access. The fences do nothing, as
    /// there is nothing to flush; waiting ends at once.
    pub open spec fn exec_privileged(self, inst: u32) -> Outcome {
        let f7 = funct7(inst);
        let next = self.pc.wrapping_add(4);
        if f7 == 0x09 || f7 == 0x31 || f7 == 0x11 {
            self.go(next)
        } else {
            match imm_i(inst) {
                0x000 => (self, Err((ecall(self.mode), 0))),
                0x001 => (self, Err((Trap::Exception(Exception::Breakpoint), self.pc))),
                0x302 => (self.mret(), Ok(())),
                0x102 => (self.sret(), Ok(())),
                0x105 => self.go(next),
                0x00D => self.go(next),
                0x01D => self.go(next),
                _ => self.refuse(inst),
            }
        }
    }

    /// The system instructions.
    pub open spec fn exec_system(self, inst: u32) -> Outcome {
        if funct3(inst) == 0 {
            self.exec_privileged(inst)
        } else {
            self.exec_csr(inst)
        }
    }

    /// CBO.ZERO: the cache block of 64 bytes around the address is zeroed.
    pub open spec fn exec_cbo_zero(self, inst: u32) -> Outcome {
        let a = self.x(rs1(inst) as int);
        let va = (a - a % 64) as u64;
        match self.translate(va, AccessType::Store) {
            (s, Err(t)) => (s, Err((t, va))),
            (s, Ok(pa)) => (
                CpuView { bus: zero_block(s.bus, pa, 0), pc: self.pc.wrapping_add(4), ..s },
                Ok(()),
            ),
        }
    }

    /// The fences and the cache-block operations. Without a cache the fences,
    /// and invalidating, cleaning and flushing a block, do nothing.
    pub open spec fn exec_misc_mem(self, inst: u32) -> Outcome {
        let next = self.pc.wrapping_add(4);
        match funct3(inst) {
            0 => self.go(next),
            1 => self.go(next),
            2 => match rs2(inst) {
                0 => self.go(next),
                1 => self.go(next),
                2 => self.go(next),
                4 => self.exec_cbo_zero(inst),
                _ => self.refuse(inst),
            },
            _ => self.refuse(inst),
        }
    }
}

impl Cpu {
    /// Whether the hart may access register `addr`.
    fn access_allowed(&self, addr: u16, writes: bool) -> (b: bool)
        ensures
            b == self@.may_access(addr, writes),
    {
        let mode: u8 = self.mode.number() as u8;
        Csr::is_valid_csr(addr) && Csr::check_csr_privilege(addr, mode, writes)
    }

    /// Replaces register `addr` and returns its old value.
    fn replace_csr(&mut self, addr: u16, value: u64, immediate: bool) -> (v: u64)
        ensures
            (final(self)@, v) == old(self)@.csr_replace(addr, value, immediate),
    {
        let deadline: u64 = self.bus.deadline();
        let before: u64 = self.csr.csrrw(addr, value);
        if addr == STIMECMP {
            self.bus.set_stimecmp(value);
            if !immediate {
                return deadline;
            }
        }
        before
    }

    /// Sets or clears bits of register `addr` and returns its old value.
    fn mask_csr(&mut self, addr: u16, mask: u64, clear: bool, reads: bool, writes: bool) -> (v: u64)
        ensures
            (final(self)@, v) == old(self)@.csr_mask(addr, mask, clear, reads, writes),
    {
        let v: u64 = if !reads {
            0
        } else if addr == TIME {
            self.bus.get_mtime_public()
        } else if clear {
            self.csr.csrrc(addr, mask)
        } else {
            self.csr.csrrs(addr, mask)
        };
        if writes && addr == STIMECMP {
            let new: u64 = self.csr.read(STIMECMP);
            self.bus.set_stimecmp(new);
        }
        v
    }

    /// The register instructions.
    fn do_csr(&mut self, inst: u32) -> (r: Result<(), (Trap, u64)>)
        ensures
            (final(self)@, r) == old(self)@.exec_csr(inst),
    {
        let f3: u32 = funct3(inst);
        let addr: u16 = csr_address(inst);
        let immediate = f3 >= 4;
        let source: u64 = if immediate {
            rs1(inst) as u64
        } else {
            self.read_reg(rs1(inst))
        };
        let replace = f3 % 4 == 1;
        let writes = replace || rs1(inst) != 0;
        let reads = rd(inst) != 0 || rs1(inst) != 0;
        if f3 % 4 == 0 || !self.access_allowed(addr, writes) {
            return self.refuse_inst(inst);
        }
        let next: u64 = self.pc.wrapping_add(4);
        let v: u64 = if replace {
            self.replace_csr(addr, source, immediate)
        } else {
            self.mask_csr(addr, source, f3 % 4 == 3, reads, writes)
        };
        self.end_x(rd(inst), v, next)
    }

    /// The instructions without a register access.
    fn do_privileged(&mut self, inst: u32) -> (r: Result<(), (Trap, u64)>)
        ensures
            (final(self)@, r) == old(self)@.exec_privileged(inst),
    {
        let f7: u32 = funct7(inst);
        let next: u64 = self.pc.wrapping_add(4);
        if f7 == 0x09 || f7 == 0x31 || f7 == 0x11 {
            return self.end(next);
        }
        match imm_i(inst) {
            0x000 => match self.mode {
                Mode::User => Err((Trap::Exception(Exception::EnvironmentCallFromUMode), 0)),
                Mode::Supervisor => Err((Trap::Exception(Exception::EnvironmentCallFromSMode), 0)),
                Mode::Machine | Mode::Hypervisor => Err(
                    (Trap::Exception(Exception::EnvironmentCallFromMMode), 0),
                ),
            },
            0x001 => Err((Trap::Exception(Exception::Breakpoint), self.pc)),
            0x302 => {
                self.do_mret();
                Ok(())
            },
            0x102 => {
                self.do_sret();
                Ok(())
            },
            0x105 | 0x00D | 0x01D => self.end(next),
            _ => self.refuse_inst(inst),
        }
    }

    /// The system instructions.
    pub(crate) fn do_system(&mut self, inst: u32) -> (r: Result<(), (Trap, u64)>)
        ensures
            (final(self)@, r) == old(self)@.exec_system(inst),
    {
        if funct3(inst) == 0 {
            self.do_privileged(inst)
        } else {
            self.do_csr(inst)
        }
    }

    /// CBO.ZERO.
    fn do_cbo_zero(&mut self, inst: u32) -> (r: Result<(), (Trap, u64)>)
        ensures
            (final(self)@, r) == old(self)@.exec_cbo_zero(inst),
    {
        let a: u64 = self.read_reg(rs1(inst));
        let va: u64 = a - a % 64;
        let next: u64 = self.pc.wrapping_add(4);
        let pa: u64 = match self.translate_va(va, AccessType::Store) {
            Ok(pa) => pa,
            Err(t) => return Err((t, va)),
        };
        let ghost s = self@;
        let mut i: u64 = 0;
        while i < 8
            invariant
                i <= 8,
                zero_block(s.bus, pa, 0) == zero_block(self@.bus, pa, i as nat),
                self@ == (CpuView { bus: self@.bus, ..s }),
            decreases 8 - i,
        {
            let _ = self.bus.write64(pa.wrapping_add(8 * i), 0);
            i = i + 1;
        }
        self.end(next)
    }

    /// The fences and the cache-block operations.
    pub(crate) fn do_misc_mem(&mut self, inst: u32) -> (r: Result<(), (Trap, u64)>)
        ensures
            (final(self)@, r) == old(self)@.exec_misc_mem(inst),
    {
        let next: u64 = self.pc.wrapping_add(4);
        match funct3(inst) {
            0 | 1 => self.end(next),
            2 => match rs2(inst) {
                0 | 1 | 2 => self.end(next),
                4 => self.do_cbo_zero(inst),
                _ => self.refuse_inst(inst),
            },
            _ => self.refuse_inst(inst),
        }
    }
}

} // verus!
