//! Integer instructions: upper immediates, jumps, branches, loads, stores, and
//! register arithmetic with the M, Zba, Zbb, Zbc and Zbs extensions.

use crate::alu::{
    clmul, clmulh, clmulr, clz, clzw, cpop, ctz, div, divu, divuw, divw, low_word, lt, max, maxu,
    min, minu, mulh, mulhsu, mulhu, orc_b, rem, remu, remuw, remw, rev8, rol, rolw, ror, rorw,
    sext_word, sign_extend, sra, sraw,
};
#[allow(unused_imports)]
use crate::alu::{
    bit_length, clmul_upto, clmulh_upto, clmulr_upto, div_spec, divw_spec, lemma_popcount_bound,
    max_spec, maxu_spec, min_spec, minu_spec, mulh_spec, mulhsu_spec, mulhu_spec, orc_b_spec,
    popcount, rem_spec, remw_spec, rev8_spec, rol_spec, rolw_spec, ror_spec, rorw_spec, sext,
    sext32, signed, sra_spec, sraw_spec, trailing_zeros, word,
};
use crate::cpu::decode::{
    funct3, funct7, imm12, imm_b, imm_i, imm_j, imm_s, imm_u, rd, rs1, rs2,
};
use crate::cpu::Cpu;
#[allow(unused_imports)]
use crate::cpu::{CpuView, Outcome};
use crate::trap::Trap;
use vstd::prelude::*;

verus! {

/// Whether a branch is taken; `None` if there is no such branch.
pub open spec fn branch_taken(f3: u32, a: u64, b: u64) -> Option<bool> {
    match f3 {
        0 => Some(a == b),
        1 => Some(a != b),
        4 => Some(signed(a) < signed(b)),
        5 => Some(signed(a) >= signed(b)),
        6 => Some(a < b),
        7 => Some(a >= b),
        _ => None,
    }
}

/// One if `b`, else zero.
pub open spec fn truth(b: bool) -> u64 {
    if b {
        1
    } else {
        0
    }
}

/// The result of an immediate shift to the left and of the instructions that
/// share its code: CLZ, CTZ, CPOP, SEXT.B, SEXT.H, BCLRI, BINVI, BSETI, SLLI. The
/// single-bit instructions are known for the bits below 32.
pub open spec fn left_imm_value(inst: u32, a: u64) -> u64 {
    let sh = imm_i(inst) % 64;
    match imm12(inst) {
        0x600 => (64 - bit_length(a as nat)) as u64,
        0x601 => trailing_zeros(a as nat, 64) as u64,
        0x602 => popcount(a as nat) as u64,
        0x604 => sext(a % 0x100, 0x80),
        0x605 => sext(a % 0x1_0000, 0x8000),
        _ => match funct7(inst) {
            0x24 => a & !(1u64 << sh),
            0x34 => a ^ (1u64 << sh),
            0x14 => a | (1u64 << sh),
            _ => a << sh,
        },
    }
}

/// The result of an immediate shift to the right and of the instructions that
/// share its code: ORC.B, REV8, BEXTI, RORI, SRLI, SRAI. BEXTI and RORI are known
/// for amounts below 32.
pub open spec fn right_imm_value(inst: u32, a: u64) -> u64 {
    let sh = imm_i(inst) % 64;
    match imm12(inst) {
        0x287 => orc_b_spec(a),
        0x6B8 => rev8_spec(a),
        _ => match funct7(inst) {
            0x24 => (a >> sh) & 1,
            0x30 => ror_spec(a, sh),
            _ => if inst / 0x4000_0000 % 2 == 0 {
                a >> sh
            } else {
                sra_spec(a, sh)
            },
        },
    }
}

/// The result of a register-immediate instruction on the register value `a`.
pub open spec fn op_imm_value(inst: u32, a: u64) -> u64 {
    let imm = imm_i(inst);
    match funct3(inst) {
        0 => a.wrapping_add(imm),
        1 => left_imm_value(inst, a),
        2 => truth(signed(a) < signed(imm)),
        3 => truth(a < imm),
        4 => a ^ imm,
        5 => right_imm_value(inst, a),
        6 => a | imm,
        _ => a & imm,
    }
}

/// The result of a register-register instruction of the base set and the M
/// extension; `None` if there is no such instruction.
pub open spec fn op_base_value(inst: u32, a: u64, b: u64) -> Option<u64> {
    match (funct7(inst), funct3(inst)) {
        (0x00, 0) => Some(a.wrapping_add(b)),
        (0x20, 0) => Some(a.wrapping_sub(b)),
        (0x00, 1) => Some(a << (b % 64)),
        (0x00, 2) => Some(truth(signed(a) < signed(b))),
        (0x00, 3) => Some(truth(a < b)),
        (0x00, 4) => Some(a ^ b),
        (0x00, 5) => Some(a >> (b % 64)),
        (0x20, 5) => Some(sra_spec(a, b % 64)),
        (0x00, 6) => Some(a | b),
        (0x00, 7) => Some(a & b),
        (0x01, 0) => Some(a.wrapping_mul(b)),
        (0x01, 1) => Some(mulh_spec(a, b)),
        (0x01, 2) => Some(mulhsu_spec(a, b)),
        (0x01, 3) => Some(mulhu_spec(a, b)),
        (0x01, 4) => Some(div_spec(a, b)),
        (0x01, 5) => Some(
            if b == 0 {
                u64::MAX
            } else {
                a / b
            },
        ),
        (0x01, 6) => Some(rem_spec(a, b)),
        (0x01, 7) => Some(
            if b == 0 {
                a
            } else {
                a % b
            },
        ),
        _ => None,
    }
}

/// The result of a register-register instruction of the bit-manipulation
/// extensions; `None` if there is no such instruction.
pub open spec fn op_bits_value(inst: u32, a: u64, b: u64) -> Option<u64> {
    let sh = b % 64;
    match (funct7(inst), funct3(inst)) {
        (0x20, 4) => Some(!a ^ b),
        (0x20, 6) => Some(a | !b),
        (0x20, 7) => Some(a & !b),
        (0x05, 4) => Some(min_spec(a, b)),
        (0x05, 5) => Some(minu_spec(a, b)),
        (0x05, 6) => Some(max_spec(a, b)),
        (0x05, 7) => Some(maxu_spec(a, b)),
        (0x30, 1) => Some(rol_spec(a, sh)),
        (0x30, 5) => Some(ror_spec(a, sh)),
        (0x10, 2) => Some((a << 1u64).wrapping_add(b)),
        (0x10, 4) => Some((a << 2u64).wrapping_add(b)),
        (0x10, 6) => Some((a << 3u64).wrapping_add(b)),
        (0x24, 1) => Some(a & !(1u64 << sh)),
        (0x24, 5) => Some((a >> sh) & 1),
        (0x34, 1) => Some(a ^ (1u64 << sh)),
        (0x14, 1) => Some(a | (1u64 << sh)),
        (0x05, 1) => Some(clmul_upto(a, b, 64)),
        (0x05, 3) => Some(clmulh_upto(a, b, 64)),
        (0x05, 2) => Some(clmulr_upto(a, b, 64)),
        _ => None,
    }
}

/// The result of a register-register instruction; `None` if there is no such
/// instruction.
pub open spec fn op_value(inst: u32, a: u64, b: u64) -> Option<u64> {
    match op_base_value(inst, a, b) {
        Some(v) => Some(v),
        None => op_bits_value(inst, a, b),
    }
}

/// The result of a register-immediate instruction on 32-bit values; `None` if
/// there is no such instruction. SLLI.UW is known for amounts below 32, and RORIW
/// for an amount of 24.
pub open spec fn op_imm32_value(inst: u32, a: u64) -> Option<u64> {
    let w = word(a);
    let sh = word(imm_i(inst)) % 32;
    match funct3(inst) {
        0 => Some(sext32(w.wrapping_add(word(imm_i(inst))))),
        1 => match imm12(inst) {
            0x600 => Some(sext32((32 - bit_length(w as nat)) as u32)),
            0x601 => Some(sext32(trailing_zeros(w as nat, 32) as u32)),
            0x602 => Some(sext32(popcount(w as nat) as u32)),
            _ => if funct7(inst) == 0x04 {
                Some((w as u64) << (imm_i(inst) % 64))
            } else {
                Some(sext32(w << sh))
            },
        },
        5 => match imm12(inst) {
            0x604 => None,
            0x605 => None,
            0x698 => Some(sext32(rorw_spec(w, sh))),
            _ => if inst / 0x4000_0000 % 2 == 0 {
                Some(sext32(w >> sh))
            } else {
                Some(sext32(sraw_spec(w, sh)))
            },
        },
        _ => None,
    }
}

/// The result of a register-register instruction on 32-bit values; `None` if
/// there is no such instruction.
pub open spec fn op32_value(inst: u32, a: u64, b: u64) -> Option<u64> {
    let x = word(a);
    let y = word(b);
    let sh = y % 32;
    match (funct7(inst), funct3(inst)) {
        (0x00, 0) => Some(sext32(x.wrapping_add(y))),
        (0x20, 0) => Some(sext32(x.wrapping_sub(y))),
        (0x00, 1) => Some(sext32(x << sh)),
        (0x00, 5) => Some(sext32(x >> sh)),
        (0x20, 5) => Some(sext32(sraw_spec(x, sh))),
        (0x01, 0) => Some(sext32(x.wrapping_mul(y))),
        (0x01, 4) => Some(sext32(divw_spec(x, y))),
        (0x01, 5) => Some(
            sext32(
                if y == 0 {
                    u32::MAX
                } else {
                    x / y
                },
            ),
        ),
        (0x01, 6) => Some(sext32(remw_spec(x, y))),
        (0x01, 7) => Some(
            sext32(
                if y == 0 {
                    x
                } else {
                    x % y
                },
            ),
        ),
        (0x30, 1) => Some(sext32(rolw_spec(x, sh))),
        (0x30, 5) => Some(sext32(rorw_spec(x, sh))),
        (0x04, 0) => Some((x as u64).wrapping_add(b)),
        (0x10, 2) => Some(((x as u64) << 1u64).wrapping_add(b)),
        (0x10, 4) => Some(((x as u64) << 2u64).wrapping_add(b)),
        (0x10, 6) => Some(((x as u64) << 3u64).wrapping_add(b)),
        _ => None,
    }
}

impl CpuView {
    /// An instruction whose result goes to its destination register, if it is
    /// one.
    pub open spec fn computed(self, inst: u32, value: Option<u64>) -> Outcome {
        match value {
            Some(v) => self.write_x(rd(inst) as int, v, self.pc.wrapping_add(4)),
            None => self.refuse(inst),
        }
    }

    /// LUI.
    pub open spec fn exec_lui(self, inst: u32) -> Outcome {
        self.write_x(rd(inst) as int, imm_u(inst), self.pc.wrapping_add(4))
    }

    /// AUIPC.
    pub open spec fn exec_auipc(self, inst: u32) -> Outcome {
        self.write_x(
            rd(inst) as int,
            self.pc.wrapping_add(imm_u(inst)),
            self.pc.wrapping_add(4),
        )
    }

    /// JAL.
    pub open spec fn exec_jal(self, inst: u32) -> Outcome {
        self.write_x(
            rd(inst) as int,
            self.pc.wrapping_add(4),
            self.pc.wrapping_add(imm_j(inst)),
        )
    }

    /// JALR: the target is even.
    pub open spec fn exec_jalr(self, inst: u32) -> Outcome {
        let t = self.x(rs1(inst) as int).wrapping_add(imm_i(inst));
        self.write_x(rd(inst) as int, self.pc.wrapping_add(4), (t - t % 2) as u64)
    }

    /// The branches.
    pub open spec fn exec_branch(self, inst: u32) -> Outcome {
        match branch_taken(
            funct3(inst),
            self.x(rs1(inst) as int),
            self.x(rs2(inst) as int),
        ) {
            None => self.refuse(inst),
            Some(taken) => self.go(
                self.pc.wrapping_add(
                    if taken {
                        imm_b(inst)
                    } else {
                        4
                    },
                ),
            ),
        }
    }

    /// The integer loads.
    pub open spec fn exec_load(self, inst: u32) -> Outcome {
        let va = self.x(rs1(inst) as int).wrapping_add(imm_i(inst));
        let d = rd(inst) as int;
        let next = self.pc.wrapping_add(4);
        match funct3(inst) {
            0 => self.load_x(d, va, 1, 0x80, next),
            1 => self.load_x(d, va, 2, 0x8000, next),
            2 => self.load_x(d, va, 4, 0x8000_0000, next),
            3 => self.load_x(d, va, 8, 0, next),
            4 => self.load_x(d, va, 1, 0, next),
            5 => self.load_x(d, va, 2, 0, next),
            6 => self.load_x(d, va, 4, 0, next),
            _ => self.refuse(inst),
        }
    }

    /// The integer stores.
    pub open spec fn exec_store(self, inst: u32) -> Outcome {
        let va = self.x(rs1(inst) as int).wrapping_add(imm_s(inst));
        let value = self.x(rs2(inst) as int);
        let next = self.pc.wrapping_add(4);
        match funct3(inst) {
            0 => self.store_op(va, value, 1, next),
            1 => self.store_op(va, value, 2, next),
            2 => self.store_op(va, value, 4, next),
            3 => self.store_op(va, value, 8, next),
            _ => self.refuse(inst),
        }
    }

    /// The register-immediate instructions.
    pub open spec fn exec_op_imm(self, inst: u32) -> Outcome {
        self.computed(inst, Some(op_imm_value(inst, self.x(rs1(inst) as int))))
    }

    /// The register-register instructions.
    pub open spec fn exec_op(self, inst: u32) -> Outcome {
        self.computed(inst, op_value(inst, self.x(rs1(inst) as int), self.x(rs2(inst) as int)))
    }

    /// The register-immediate instructions on 32-bit values.
    pub open spec fn exec_op_imm32(self, inst: u32) -> Outcome {
        self.computed(inst, op_imm32_value(inst, self.x(rs1(inst) as int)))
    }

    /// The register-register instructions on 32-bit values.
    pub open spec fn exec_op32(self, inst: u32) -> Outcome {
        self.computed(inst, op32_value(inst, self.x(rs1(inst) as int), self.x(rs2(inst) as int)))
    }
}

/// Whether a branch is taken.
fn take_branch(f3: u32, a: u64, b: u64) -> (r: Option<bool>)
    ensures
        r == branch_taken(f3, a, b),
{
    match f3 {
        0 => Some(a == b),
        1 => Some(a != b),
        4 => Some(lt(a, b)),
        5 => Some(!lt(a, b)),
        6 => Some(a < b),
        7 => Some(a >= b),
        _ => None,
    }
}

/// One if `b`, else zero.
fn one_if(b: bool) -> (v: u64)
    ensures
        v == truth(b),
{
    if b {
        1
    } else {
        0
    }
}

/// Computes `left_imm_value`.
fn left_imm(inst: u32, a: u64) -> (v: u64)
    ensures
        v == left_imm_value(inst, a),
{
    let sh: u64 = imm_i(inst) % 64;
    match imm12(inst) {
        0x600 => clz(a),
        0x601 => ctz(a, 64),
        0x602 => cpop(a),
        0x604 => sign_extend(a % 0x100, 0x80),
        0x605 => sign_extend(a % 0x1_0000, 0x8000),
        _ => match funct7(inst) {
            0x24 => a & !(1u64 << sh),
            0x34 => a ^ (1u64 << sh),
            0x14 => a | (1u64 << sh),
            _ => a << sh,
        },
    }
}

/// Computes `right_imm_value`.
fn right_imm(inst: u32, a: u64) -> (v: u64)
    ensures
        v == right_imm_value(inst, a),
{
    let sh: u64 = imm_i(inst) % 64;
    match imm12(inst) {
        0x287 => orc_b(a),
        0x6B8 => rev8(a),
        _ => match funct7(inst) {
            0x24 => (a >> sh) & 1,
            0x30 => ror(a, sh),
            _ => {
                if inst / 0x4000_0000 % 2 == 0 {
                    a >> sh
                } else {
                    sra(a, sh)
                }
            },
        },
    }
}

/// Computes `op_imm_value`.
fn op_imm(inst: u32, a: u64) -> (v: u64)
    ensures
        v == op_imm_value(inst, a),
{
    let imm: u64 = imm_i(inst);
    match funct3(inst) {
        0 => a.wrapping_add(imm),
        1 => left_imm(inst, a),
        2 => one_if(lt(a, imm)),
        3 => one_if(a < imm),
        4 => a ^ imm,
        5 => right_imm(inst, a),
        6 => a | imm,
        _ => a & imm,
    }
}

/// Computes `op_base_value`.
fn op_base(inst: u32, a: u64, b: u64) -> (v: Option<u64>)
    ensures
        v == op_base_value(inst, a, b),
{
    match (funct7(inst), funct3(inst)) {
        (0x00, 0) => Some(a.wrapping_add(b)),
        (0x20, 0) => Some(a.wrapping_sub(b)),
        (0x00, 1) => Some(a << (b % 64)),
        (0x00, 2) => Some(one_if(lt(a, b))),
        (0x00, 3) => Some(one_if(a < b)),
        (0x00, 4) => Some(a ^ b),
        (0x00, 5) => Some(a >> (b % 64)),
        (0x20, 5) => Some(sra(a, b % 64)),
        (0x00, 6) => Some(a | b),
        (0x00, 7) => Some(a & b),
        (0x01, 0) => Some(a.wrapping_mul(b)),
        (0x01, 1) => Some(mulh(a, b)),
        (0x01, 2) => Some(mulhsu(a, b)),
        (0x01, 3) => Some(mulhu(a, b)),
        (0x01, 4) => Some(div(a, b)),
        (0x01, 5) => Some(divu(a, b)),
        (0x01, 6) => Some(rem(a, b)),
        (0x01, 7) => Some(remu(a, b)),
        _ => None,
    }
}

/// Computes `op_bits_value`.
fn op_bits(inst: u32, a: u64, b: u64) -> (v: Option<u64>)
    ensures
        v == op_bits_value(inst, a, b),
{
    let sh: u64 = b % 64;
    match (funct7(inst), funct3(inst)) {
        (0x20, 4) => Some(!a ^ b),
        (0x20, 6) => Some(a | !b),
        (0x20, 7) => Some(a & !b),
        (0x05, 4) => Some(min(a, b)),
        (0x05, 5) => Some(minu(a, b)),
        (0x05, 6) => Some(max(a, b)),
        (0x05, 7) => Some(maxu(a, b)),
        (0x30, 1) => Some(rol(a, sh)),
        (0x30, 5) => Some(ror(a, sh)),
        (0x10, 2) => Some((a << 1u64).wrapping_add(b)),
        (0x10, 4) => Some((a << 2u64).wrapping_add(b)),
        (0x10, 6) => Some((a << 3u64).wrapping_add(b)),
        (0x24, 1) => Some(a & !(1u64 << sh)),
        (0x24, 5) => Some((a >> sh) & 1),
        (0x34, 1) => Some(a ^ (1u64 << sh)),
        (0x14, 1) => Some(a | (1u64 << sh)),
        (0x05, 1) => Some(clmul(a, b)),
        (0x05, 3) => Some(clmulh(a, b)),
        (0x05, 2) => Some(clmulr(a, b)),
        _ => None,
    }
}

/// Computes `op_imm32_value`.
fn op_imm32(inst: u32, a: u64) -> (v: Option<u64>)
    ensures
        v == op_imm32_value(inst, a),
{
    let w: u32 = low_word(a);
    let sh: u32 = low_word(imm_i(inst)) % 32;
    match funct3(inst) {
        0 => Some(sext_word(w.wrapping_add(low_word(imm_i(inst))))),
        1 => match imm12(inst) {
            0x600 => Some(sext_word(clzw(w))),
            0x601 => Some(sext_word(ctz(w as u64, 32) as u32)),
            0x602 => {
                proof {
                    lemma_popcount_bound(w as nat);
                }
                Some(sext_word(cpop(w as u64) as u32))
            },
            _ => {
                if funct7(inst) == 0x04 {
                    Some((w as u64) << (imm_i(inst) % 64))
                } else {
                    Some(sext_word(w << sh))
                }
            },
        },
        5 => match imm12(inst) {
            0x604 => None,
            0x605 => None,
            0x698 => Some(sext_word(rorw(w, sh))),
            _ => {
                if inst / 0x4000_0000 % 2 == 0 {
                    Some(sext_word(w >> sh))
                } else {
                    Some(sext_word(sraw(w, sh)))
                }
            },
        },
        _ => None,
    }
}

/// Computes `op32_value`.
fn op32(inst: u32, a: u64, b: u64) -> (v: Option<u64>)
    ensures
        v == op32_value(inst, a, b),
{
    let x: u32 = low_word(a);
    let y: u32 = low_word(b);
    let sh: u32 = y % 32;
    match (funct7(inst), funct3(inst)) {
        (0x00, 0) => Some(sext_word(x.wrapping_add(y))),
        (0x20, 0) => Some(sext_word(x.wrapping_sub(y))),
        (0x00, 1) => Some(sext_word(x << sh)),
        (0x00, 5) => Some(sext_word(x >> sh)),
        (0x20, 5) => Some(sext_word(sraw(x, sh))),
        (0x01, 0) => Some(sext_word(x.wrapping_mul(y))),
        (0x01, 4) => Some(sext_word(divw(x, y))),
        (0x01, 5) => Some(sext_word(divuw(x, y))),
        (0x01, 6) => Some(sext_word(remw(x, y))),
        (0x01, 7) => Some(sext_word(remuw(x, y))),
        (0x30, 1) => Some(sext_word(rolw(x, sh))),
        (0x30, 5) => Some(sext_word(rorw(x, sh))),
        (0x04, 0) => Some((x as u64).wrapping_add(b)),
        (0x10, 2) => Some(((x as u64) << 1u64).wrapping_add(b)),
        (0x10, 4) => Some(((x as u64) << 2u64).wrapping_add(b)),
        (0x10, 6) => Some(((x as u64) << 3u64).wrapping_add(b)),
        _ => None,
    }
}

impl Cpu {
    /// Ends an instruction whose result is `value`, if it is one.
    fn end_computed(&mut self, inst: u32, value: Option<u64>) -> (r: Result<(), (Trap, u64)>)
        ensures
            (final(self)@, r) == old(self)@.computed(inst, value),
    {
        match value {
            Some(v) => {
                let next: u64 = self.pc.wrapping_add(4);
                self.end_x(rd(inst), v, next)
            },
            None => self.refuse_inst(inst),
        }
    }

    /// LUI.
    pub(crate) fn do_lui(&mut self, inst: u32) -> (r: Result<(), (Trap, u64)>)
        ensures
            (final(self)@, r) == old(self)@.exec_lui(inst),
    {
        let next: u64 = self.pc.wrapping_add(4);
        self.end_x(rd(inst), imm_u(inst), next)
    }

    /// AUIPC.
    pub(crate) fn do_auipc(&mut self, inst: u32) -> (r: Result<(), (Trap, u64)>)
        ensures
            (final(self)@, r) == old(self)@.exec_auipc(inst),
    {
        let value: u64 = self.pc.wrapping_add(imm_u(inst));
        let next: u64 = self.pc.wrapping_add(4);
        self.end_x(rd(inst), value, next)
    }

    /// JAL.
    pub(crate) fn do_jal(&mut self, inst: u32) -> (r: Result<(), (Trap, u64)>)
        ensures
            (final(self)@, r) == old(self)@.exec_jal(inst),
    {
        let link: u64 = self.pc.wrapping_add(4);
        let goal: u64 = self.pc.wrapping_add(imm_j(inst));
        self.end_x(rd(inst), link, goal)
    }

    /// JALR.
    pub(crate) fn do_jalr(&mut self, inst: u32) -> (r: Result<(), (Trap, u64)>)
        ensures
            (final(self)@, r) == old(self)@.exec_jalr(inst),
    {
        let t: u64 = self.read_reg(rs1(inst)).wrapping_add(imm_i(inst));
        let link: u64 = self.pc.wrapping_add(4);
        self.end_x(rd(inst), link, t - t % 2)
    }

    /// The branches.
    pub(crate) fn do_branch(&mut self, inst: u32) -> (r: Result<(), (Trap, u64)>)
        ensures
            (final(self)@, r) == old(self)@.exec_branch(inst),
    {
        let a: u64 = self.read_reg(rs1(inst));
        let b: u64 = self.read_reg(rs2(inst));
        match take_branch(funct3(inst), a, b) {
            None => self.refuse_inst(inst),
            Some(taken) => {
                let next: u64 = if taken {
                    self.pc.wrapping_add(imm_b(inst))
                } else {
                    self.pc.wrapping_add(4)
                };
                self.end(next)
            },
        }
    }

    /// The integer loads.
    pub(crate) fn do_loads(&mut self, inst: u32) -> (r: Result<(), (Trap, u64)>)
        ensures
            (final(self)@, r) == old(self)@.exec_load(inst),
    {
        let va: u64 = self.read_reg(rs1(inst)).wrapping_add(imm_i(inst));
        let d: usize = rd(inst);
        let next: u64 = self.pc.wrapping_add(4);
        match funct3(inst) {
            0 => self.do_load(d, va, 1, 0x80, next),
            1 => self.do_load(d, va, 2, 0x8000, next),
            2 => self.do_load(d, va, 4, 0x8000_0000, next),
            3 => self.do_load(d, va, 8, 0, next),
            4 => self.do_load(d, va, 1, 0, next),
            5 => self.do_load(d, va, 2, 0, next),
            6 => self.do_load(d, va, 4, 0, next),
            _ => self.refuse_inst(inst),
        }
    }

    /// The integer stores.
    pub(crate) fn do_stores(&mut self, inst: u32) -> (r: Result<(), (Trap, u64)>)
        ensures
            (final(self)@, r) == old(self)@.exec_store(inst),
    {
        let va: u64 = self.read_reg(rs1(inst)).wrapping_add(imm_s(inst));
        let value: u64 = self.read_reg(rs2(inst));
        let next: u64 = self.pc.wrapping_add(4);
        match funct3(inst) {
            0 => self.do_store(va, value, 1, next),
            1 => self.do_store(va, value, 2, next),
            2 => self.do_store(va, value, 4, next),
            3 => self.do_store(va, value, 8, next),
            _ => self.refuse_inst(inst),
        }
    }

    /// The register-immediate instructions.
    pub(crate) fn do_op_imm(&mut self, inst: u32) -> (r: Result<(), (Trap, u64)>)
        ensures
            (final(self)@, r) == old(self)@.exec_op_imm(inst),
    {
        let a: u64 = self.read_reg(rs1(inst));
        let v: u64 = op_imm(inst, a);
        self.end_computed(inst, Some(v))
    }

    /// The register-register instructions.
    pub(crate) fn do_op(&mut self, inst: u32) -> (r: Result<(), (Trap, u64)>)
        ensures
            (final(self)@, r) == old(self)@.exec_op(inst),
    {
        let a: u64 = self.read_reg(rs1(inst));
        let b: u64 = self.read_reg(rs2(inst));
        let v = match op_base(inst, a, b) {
            Some(v) => Some(v),
            None => op_bits(inst, a, b),
        };
        self.end_computed(inst, v)
    }

    /// The register-immediate instructions on 32-bit values.
    pub(crate) fn do_op_imm32(&mut self, inst: u32) -> (r: Result<(), (Trap, u64)>)
        ensures
            (final(self)@, r) == old(self)@.exec_op_imm32(inst),
    {
        let a: u64 = self.read_reg(rs1(inst));
        let v = op_imm32(inst, a);
        self.end_computed(inst, v)
    }

    /// The register-register instructions on 32-bit values.
    pub(crate) fn do_op32(&mut self, inst: u32) -> (r: Result<(), (Trap, u64)>)
        ensures
            (final(self)@, r) == old(self)@.exec_op32(inst),
    {
        let a: u64 = self.read_reg(rs1(inst));
        let b: u64 = self.read_reg(rs2(inst));
        let v = op32(inst, a, b);
        self.end_computed(inst, v)
    }
}

} // verus!
