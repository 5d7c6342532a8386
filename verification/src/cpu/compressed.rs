//! The 16-bit instructions, by quadrant. Their immediates and registers are in
//! `decode`.

use crate::alu::{low_word, sext_word, sra};
#[allow(unused_imports)]
use crate::alu::{sext32, sra_spec, word};
use crate::cpu::decode::{
    c_funct3, c_imm6, c_imm_addi16sp, c_imm_addi4spn, c_imm_b, c_imm_d, c_imm_j, c_imm_ldsp,
    c_imm_lui, c_imm_lwsp, c_imm_sdsp, c_imm_swsp, c_imm_w, c_op, c_rd, c_reg_high, c_reg_low,
    c_rs2, c_shamt,
};
use crate::cpu::Cpu;
#[allow(unused_imports)]
use crate::cpu::{CpuView, Outcome};
use crate::trap::{Exception, Trap};
use vstd::prelude::*;

verus! {

impl CpuView {
    /// Quadrant 0: C.ADDI4SPN, and loads and stores relative to one of x8 to x15.
    pub open spec fn exec_c0(self, inst: u32) -> Outcome {
        let next = self.pc.wrapping_add(2);
        let base = self.x(c_reg_high(inst) as int);
        let r = c_reg_low(inst) as int;
        match c_funct3(inst) {
            0 => if c_imm_addi4spn(inst) == 0 {
                self.refuse(inst)
            } else {
                self.write_x(r, self.x(2).wrapping_add(c_imm_addi4spn(inst)), next)
            },
            1 => self.load_f(r, base.wrapping_add(c_imm_d(inst)), next),
            2 => self.load_x(r, base.wrapping_add(c_imm_w(inst)), 4, 0x8000_0000, next),
            3 => self.load_x(r, base.wrapping_add(c_imm_d(inst)), 8, 0, next),
            5 => self.store_op(base.wrapping_add(c_imm_d(inst)), self.f_regs[r], 8, next),
            6 => self.store_op(base.wrapping_add(c_imm_w(inst)), self.x(r), 4, next),
            7 => self.store_op(base.wrapping_add(c_imm_d(inst)), self.x(r), 8, next),
            _ => self.refuse(inst),
        }
    }

    /// The arithmetic of quadrant 1 on x8 to x15: C.SRLI, C.SRAI, C.ANDI, C.SUB,
    /// C.XOR, C.OR, C.AND, C.SUBW and C.ADDW.
    pub open spec fn exec_c1_arith(self, inst: u32) -> Outcome {
        let next = self.pc.wrapping_add(2);
        let d = c_reg_high(inst) as int;
        let a = self.x(d);
        let b = self.x(c_reg_low(inst) as int);
        match inst / 0x400 % 4 {
            0 => self.write_x(d, a >> c_shamt(inst), next),
            1 => self.write_x(d, sra_spec(a, c_shamt(inst)), next),
            2 => self.write_x(d, a & c_imm6(inst), next),
            _ => match (inst / 0x1000 % 2, inst / 0x20 % 4) {
                (0, 0) => self.write_x(d, a.wrapping_sub(b), next),
                (0, 1) => self.write_x(d, a ^ b, next),
                (0, 2) => self.write_x(d, a | b, next),
                (0, 3) => self.write_x(d, a & b, next),
                (1, 0) => self.write_x(d, sext32(word(a).wrapping_sub(word(b))), next),
                (1, 1) => self.write_x(d, sext32(word(a).wrapping_add(word(b))), next),
                _ => self.refuse(inst),
            },
        }
    }

    /// Quadrant 1: C.ADDI, C.ADDIW, C.LI, C.ADDI16SP, C.LUI, arithmetic, C.J,
    /// C.BEQZ and C.BNEZ.
    pub open spec fn exec_c1(self, inst: u32) -> Outcome {
        let next = self.pc.wrapping_add(2);
        let d = c_rd(inst) as int;
        let imm = c_imm6(inst);
        match c_funct3(inst) {
            0 => self.write_x(d, self.x(d).wrapping_add(imm), next),
            1 => self.write_x(d, sext32(word(self.x(d)).wrapping_add(word(imm))), next),
            2 => self.write_x(d, imm, next),
            3 => if d == 2 {
                self.write_x(2, self.x(2).wrapping_add(c_imm_addi16sp(inst)), next)
            } else {
                self.write_x(d, c_imm_lui(inst), next)
            },
            4 => self.exec_c1_arith(inst),
            5 => self.go(self.pc.wrapping_add(c_imm_j(inst))),
            6 => self.go(
                if self.x(c_reg_high(inst) as int) == 0 {
                    self.pc.wrapping_add(c_imm_b(inst))
                } else {
                    next
                },
            ),
            _ => self.go(
                if self.x(c_reg_high(inst) as int) != 0 {
                    self.pc.wrapping_add(c_imm_b(inst))
                } else {
                    next
                },
            ),
        }
    }

    /// C.JR, C.MV, C.EBREAK, C.JALR and C.ADD. The jumps clear bit 0 of their target;
    /// C.JALR through the link register goes where that register pointed before.
    pub open spec fn exec_c2_jump(self, inst: u32) -> Outcome {
        let next = self.pc.wrapping_add(2);
        let d = c_rd(inst) as int;
        let s = c_rs2(inst) as int;
        let goal = (self.x(d) - self.x(d) % 2) as u64;
        if inst / 0x1000 % 2 == 0 {
            if s == 0 {
                self.go(goal)
            } else {
                self.write_x(d, self.x(s), next)
            }
        } else if s != 0 {
            self.write_x(d, self.x(d).wrapping_add(self.x(s)), next)
        } else if d == 0 {
            (self, Err((Trap::Exception(Exception::Breakpoint), self.pc)))
        } else {
            self.set_x(1, next).go(goal)
        }
    }

    /// Quadrant 2: C.SLLI, loads and stores relative to the stack pointer, jumps,
    /// C.MV and C.ADD.
    pub open spec fn exec_c2(self, inst: u32) -> Outcome {
        let next = self.pc.wrapping_add(2);
        let d = c_rd(inst) as int;
        let s = c_rs2(inst) as int;
        let sp = self.x(2);
        match c_funct3(inst) {
            0 => self.write_x(d, self.x(d) << c_shamt(inst), next),
            1 => self.load_f(d, sp.wrapping_add(c_imm_ldsp(inst)), next),
            2 => if d == 0 {
                self.refuse(inst)
            } else {
                self.load_x(d, sp.wrapping_add(c_imm_lwsp(inst)), 4, 0x8000_0000, next)
            },
            3 => if d == 0 {
                self.refuse(inst)
            } else {
                self.load_x(d, sp.wrapping_add(c_imm_ldsp(inst)), 8, 0, next)
            },
            4 => self.exec_c2_jump(inst),
            5 => self.store_op(sp.wrapping_add(c_imm_sdsp(inst)), self.f_regs[s], 8, next),
            6 => self.store_op(sp.wrapping_add(c_imm_swsp(inst)), self.x(s), 4, next),
            _ => self.store_op(sp.wrapping_add(c_imm_sdsp(inst)), self.x(s), 8, next),
        }
    }

    /// A 16-bit instruction.
    pub open spec fn exec_compressed(self, inst: u32) -> Outcome {
        match c_op(inst) {
            0 => self.exec_c0(inst),
            1 => self.exec_c1(inst),
            2 => self.exec_c2(inst),
            _ => self.refuse(inst),
        }
    }
}

impl Cpu {
    /// Quadrant 0.
    fn do_c0(&mut self, inst: u32) -> (r: Result<(), (Trap, u64)>)
        ensures
            (final(self)@, r) == old(self)@.exec_c0(inst),
    {
        let next: u64 = self.pc.wrapping_add(2);
        let base: u64 = self.read_reg(c_reg_high(inst));
        let x: usize = c_reg_low(inst);
        match c_funct3(inst) {
            0 => {
                let imm: u64 = c_imm_addi4spn(inst);
                if imm == 0 {
                    return self.refuse_inst(inst);
                }
                let value: u64 = self.read_reg(2).wrapping_add(imm);
                self.end_x(x, value, next)
            },
            1 => self.do_load_f(x, base.wrapping_add(c_imm_d(inst)), next),
            2 => self.do_load(x, base.wrapping_add(c_imm_w(inst)), 4, 0x8000_0000, next),
            3 => self.do_load(x, base.wrapping_add(c_imm_d(inst)), 8, 0, next),
            5 => {
                let value: u64 = self.f_regs[x];
                self.do_store(base.wrapping_add(c_imm_d(inst)), value, 8, next)
            },
            6 => {
                let value: u64 = self.read_reg(x);
                self.do_store(base.wrapping_add(c_imm_w(inst)), value, 4, next)
            },
            7 => {
                let value: u64 = self.read_reg(x);
                self.do_store(base.wrapping_add(c_imm_d(inst)), value, 8, next)
            },
            _ => self.refuse_inst(inst),
        }
    }

    /// The arithmetic of quadrant 1.
    fn do_c1_arith(&mut self, inst: u32) -> (r: Result<(), (Trap, u64)>)
        ensures
            (final(self)@, r) == old(self)@.exec_c1_arith(inst),
    {
        let next: u64 = self.pc.wrapping_add(2);
        let d: usize = c_reg_high(inst);
        let a: u64 = self.read_reg(d);
        let b: u64 = self.read_reg(c_reg_low(inst));
        let value: u64 = match inst / 0x400 % 4 {
            0 => a >> c_shamt(inst),
            1 => sra(a, c_shamt(inst)),
            2 => a & c_imm6(inst),
            _ => match (inst / 0x1000 % 2, inst / 0x20 % 4) {
                (0, 0) => a.wrapping_sub(b),
                (0, 1) => a ^ b,
                (0, 2) => a | b,
                (0, 3) => a & b,
                (1, 0) => sext_word(low_word(a).wrapping_sub(low_word(b))),
                (1, 1) => sext_word(low_word(a).wrapping_add(low_word(b))),
                _ => return self.refuse_inst(inst),
            },
        };
        self.end_x(d, value, next)
    }

    /// Quadrant 1.
    fn do_c1(&mut self, inst: u32) -> (r: Result<(), (Trap, u64)>)
        ensures
            (final(self)@, r) == old(self)@.exec_c1(inst),
    {
        let next: u64 = self.pc.wrapping_add(2);
        let d: usize = c_rd(inst);
        let imm: u64 = c_imm6(inst);
        match c_funct3(inst) {
            0 => {
                let value: u64 = self.read_reg(d).wrapping_add(imm);
                self.end_x(d, value, next)
            },
            1 => {
                let w: u32 = low_word(self.read_reg(d)).wrapping_add(low_word(imm));
                self.end_x(d, sext_word(w), next)
            },
            2 => self.end_x(d, imm, next),
            3 => {
                if d == 2 {
                    let value: u64 = self.read_reg(2).wrapping_add(c_imm_addi16sp(inst));
                    self.end_x(2, value, next)
                } else {
                    self.end_x(d, c_imm_lui(inst), next)
                }
            },
            4 => self.do_c1_arith(inst),
            5 => {
                let goal: u64 = self.pc.wrapping_add(c_imm_j(inst));
                self.end(goal)
            },
            6 => {
                let goal: u64 = self.pc.wrapping_add(c_imm_b(inst));
                if self.read_reg(c_reg_high(inst)) == 0 {
                    self.end(goal)
                } else {
                    self.end(next)
                }
            },
            _ => {
                let goal: u64 = self.pc.wrapping_add(c_imm_b(inst));
                if self.read_reg(c_reg_high(inst)) != 0 {
                    self.end(goal)
                } else {
                    self.end(next)
                }
            },
        }
    }

    /// C.JR, C.MV, C.EBREAK, C.JALR and C.ADD.
    fn do_c2_jump(&mut self, inst: u32) -> (r: Result<(), (Trap, u64)>)
        ensures
            (final(self)@, r) == old(self)@.exec_c2_jump(inst),
    {
        let next: u64 = self.pc.wrapping_add(2);
        let d: usize = c_rd(inst);
        let s: usize = c_rs2(inst);
        if inst / 0x1000 % 2 == 0 {
            if s == 0 {
                let t: u64 = self.read_reg(d);
                self.end(t - t % 2)
            } else {
                let value: u64 = self.read_reg(s);
                self.end_x(d, value, next)
            }
        } else if s != 0 {
            let value: u64 = self.read_reg(d).wrapping_add(self.read_reg(s));
            self.end_x(d, value, next)
        } else if d == 0 {
            Err((Trap::Exception(Exception::Breakpoint), self.pc))
        } else {
            let t: u64 = self.read_reg(d);
            self.write_reg(1, next);
            self.end(t - t % 2)
        }
    }

    /// Quadrant 2.
    fn do_c2(&mut self, inst: u32) -> (r: Result<(), (Trap, u64)>)
        ensures
            (final(self)@, r) == old(self)@.exec_c2(inst),
    {
        let next: u64 = self.pc.wrapping_add(2);
        let d: usize = c_rd(inst);
        let s: usize = c_rs2(inst);
        let sp: u64 = self.read_reg(2);
        match c_funct3(inst) {
            0 => {
                let value: u64 = self.read_reg(d) << c_shamt(inst);
                self.end_x(d, value, next)
            },
            1 => self.do_load_f(d, sp.wrapping_add(c_imm_ldsp(inst)), next),
            2 => {
                if d == 0 {
                    return self.refuse_inst(inst);
                }
                self.do_load(d, sp.wrapping_add(c_imm_lwsp(inst)), 4, 0x8000_0000, next)
            },
            3 => {
                if d == 0 {
                    return self.refuse_inst(inst);
                }
                self.do_load(d, sp.wrapping_add(c_imm_ldsp(inst)), 8, 0, next)
            },
            4 => self.do_c2_jump(inst),
            5 => {
                let value: u64 = self.f_regs[s];
                self.do_store(sp.wrapping_add(c_imm_sdsp(inst)), value, 8, next)
            },
            6 => {
                let value: u64 = self.read_reg(s);
                self.do_store(sp.wrapping_add(c_imm_swsp(inst)), value, 4, next)
            },
            _ => {
                let value: u64 = self.read_reg(s);
                self.do_store(sp.wrapping_add(c_imm_sdsp(inst)), value, 8, next)
            },
        }
    }

    /// Executes a 16-bit instruction.
    pub(crate) fn execute_compressed(&mut self, inst: u32) -> (r: Result<(), (Trap, u64)>)
        ensures
            (final(self)@, r) == old(self)@.exec_compressed(inst),
    {
        match c_op(inst) {
            0 => self.do_c0(inst),
            1 => self.do_c1(inst),
            2 => self.do_c2(inst),
            _ => self.refuse_inst(inst),
        }
    }
}

} // verus!
