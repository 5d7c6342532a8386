//! The fields of instructions. A 16-bit instruction is given in the low half.

#[allow(unused_imports)]
use crate::alu::{sext, signed};
use crate::alu::sign_extend;
use vstd::prelude::*;

verus! {

/// The major opcode of a 32-bit instruction.
#[verifier::allow_in_spec]
pub fn opcode(inst: u32) -> u32
    returns
        inst % 128,
{
    inst % 128
}

/// The destination register.
#[verifier::allow_in_spec]
pub fn rd(inst: u32) -> usize
    returns
        (inst / 0x80 % 32) as usize,
{
    (inst / 0x80 % 32) as usize
}

/// The first source register.
#[verifier::allow_in_spec]
pub fn rs1(inst: u32) -> usize
    returns
        (inst / 0x8000 % 32) as usize,
{
    (inst / 0x8000 % 32) as usize
}

/// The second source register.
#[verifier::allow_in_spec]
pub fn rs2(inst: u32) -> usize
    returns
        (inst / 0x10_0000 % 32) as usize,
{
    (inst / 0x10_0000 % 32) as usize
}

/// The third source register.
#[verifier::allow_in_spec]
pub fn rs3(inst: u32) -> usize
    returns
        (inst / 0x800_0000) as usize,
{
    (inst / 0x800_0000) as usize
}

/// The three-bit function code.
#[verifier::allow_in_spec]
pub fn funct3(inst: u32) -> u32
    returns
        inst / 0x1000 % 8,
{
    inst / 0x1000 % 8
}

/// The seven-bit function code.
#[verifier::allow_in_spec]
pub fn funct7(inst: u32) -> u32
    returns
        inst / 0x200_0000,
{
    inst / 0x200_0000
}

/// The upper twelve bits, as they stand.
#[verifier::allow_in_spec]
pub fn imm12(inst: u32) -> u32
    returns
        inst / 0x10_0000,
{
    inst / 0x10_0000
}

/// The register address of a CSR instruction.
#[verifier::allow_in_spec]
pub fn csr_address(inst: u32) -> u16
    returns
        (inst / 0x10_0000) as u16,
{
    (inst / 0x10_0000) as u16
}

/// The immediate of the I format.
#[verifier::allow_in_spec]
pub fn imm_i(inst: u32) -> u64
    returns
        sext((inst / 0x10_0000) as u64, 0x800),
{
    sign_extend((inst / 0x10_0000) as u64, 0x800)
}

/// The immediate of the S format.
#[verifier::allow_in_spec]
pub fn imm_s(inst: u32) -> u64
    returns
        sext((inst / 0x200_0000 * 32 + inst / 0x80 % 32) as u64, 0x800),
{
    sign_extend((inst / 0x200_0000 * 32 + inst / 0x80 % 32) as u64, 0x800)
}

/// The immediate of the B format.
#[verifier::allow_in_spec]
pub fn imm_b(inst: u32) -> u64
    returns
        sext((inst / 0x8000_0000 * 0x1000 + inst / 0x80 % 2 * 0x800 + inst / 0x200_0000 % 64 * 32
            + inst / 0x100 % 16 * 2) as u64, 0x1000),
{
    sign_extend((inst / 0x8000_0000 * 0x1000 + inst / 0x80 % 2 * 0x800
        + inst / 0x200_0000 % 64 * 32 + inst / 0x100 % 16 * 2) as u64, 0x1000)
}

/// The immediate of the U format.
#[verifier::allow_in_spec]
pub fn imm_u(inst: u32) -> u64
    returns
        sext((inst - inst % 0x1000) as u64, 0x8000_0000),
{
    sign_extend((inst - inst % 0x1000) as u64, 0x8000_0000)
}

/// The immediate of the J format.
#[verifier::allow_in_spec]
pub fn imm_j(inst: u32) -> u64
    returns
        sext((inst / 0x8000_0000 * 0x10_0000 + inst / 0x1000 % 256 * 0x1000
            + inst / 0x10_0000 % 2 * 0x800 + inst / 0x20_0000 % 1024 * 2) as u64, 0x10_0000),
{
    sign_extend((inst / 0x8000_0000 * 0x10_0000 + inst / 0x1000 % 256 * 0x1000
        + inst / 0x10_0000 % 2 * 0x800 + inst / 0x20_0000 % 1024 * 2) as u64, 0x10_0000)
}

/// The quadrant of a 16-bit instruction.
#[verifier::allow_in_spec]
pub fn c_op(inst: u32) -> u32
    returns
        inst % 4,
{
    inst % 4
}

/// The function code of a 16-bit instruction.
#[verifier::allow_in_spec]
pub fn c_funct3(inst: u32) -> u32
    returns
        inst / 0x2000 % 8,
{
    inst / 0x2000 % 8
}

/// The register in bits 4:2, one of x8 to x15.
#[verifier::allow_in_spec]
pub fn c_reg_low(inst: u32) -> usize
    returns
        (inst / 4 % 8 + 8) as usize,
{
    (inst / 4 % 8 + 8) as usize
}

/// The register in bits 9:7, one of x8 to x15.
#[verifier::allow_in_spec]
pub fn c_reg_high(inst: u32) -> usize
    returns
        (inst / 0x80 % 8 + 8) as usize,
{
    (inst / 0x80 % 8 + 8) as usize
}

/// The register in bits 11:7.
#[verifier::allow_in_spec]
pub fn c_rd(inst: u32) -> usize
    returns
        (inst / 0x80 % 32) as usize,
{
    (inst / 0x80 % 32) as usize
}

/// The register in bits 6:2.
#[verifier::allow_in_spec]
pub fn c_rs2(inst: u32) -> usize
    returns
        (inst / 4 % 32) as usize,
{
    (inst / 4 % 32) as usize
}

/// The shift amount.
#[verifier::allow_in_spec]
pub fn c_shamt(inst: u32) -> u64
    returns
        (inst / 0x1000 % 2 * 32 + inst / 4 % 32) as u64,
{
    (inst / 0x1000 % 2 * 32 + inst / 4 % 32) as u64
}

/// The six-bit immediate.
#[verifier::allow_in_spec]
pub fn c_imm6(inst: u32) -> u64
    returns
        sext((inst / 0x1000 % 2 * 32 + inst / 4 % 32) as u64, 32),
{
    sign_extend((inst / 0x1000 % 2 * 32 + inst / 4 % 32) as u64, 32)
}

/// The immediate of C.ADDI4SPN.
#[verifier::allow_in_spec]
pub fn c_imm_addi4spn(inst: u32) -> u64
    returns
        (inst / 0x800 % 4 * 16 + inst / 0x80 % 16 * 64 + inst / 0x40 % 2 * 4
            + inst / 0x20 % 2 * 8) as u64,
{
    (inst / 0x800 % 4 * 16 + inst / 0x80 % 16 * 64 + inst / 0x40 % 2 * 4
        + inst / 0x20 % 2 * 8) as u64
}

/// The offset of C.LW and C.SW.
#[verifier::allow_in_spec]
pub fn c_imm_w(inst: u32) -> u64
    returns
        (inst / 0x400 % 8 * 8 + inst / 0x40 % 2 * 4 + inst / 0x20 % 2 * 64) as u64,
{
    (inst / 0x400 % 8 * 8 + inst / 0x40 % 2 * 4 + inst / 0x20 % 2 * 64) as u64
}

/// The offset of C.LD, C.SD, C.FLD and C.FSD.
#[verifier::allow_in_spec]
pub fn c_imm_d(inst: u32) -> u64
    returns
        (inst / 0x400 % 8 * 8 + inst / 0x20 % 4 * 64) as u64,
{
    (inst / 0x400 % 8 * 8 + inst / 0x20 % 4 * 64) as u64
}

/// The immediate of C.ADDI16SP.
#[verifier::allow_in_spec]
pub fn c_imm_addi16sp(inst: u32) -> u64
    returns
        sext((inst / 0x1000 % 2 * 512 + inst / 0x40 % 2 * 16 + inst / 0x20 % 2 * 64
            + inst / 8 % 4 * 128 + inst / 4 % 2 * 32) as u64, 512),
{
    sign_extend((inst / 0x1000 % 2 * 512 + inst / 0x40 % 2 * 16 + inst / 0x20 % 2 * 64
        + inst / 8 % 4 * 128 + inst / 4 % 2 * 32) as u64, 512)
}

/// The immediate of C.LUI.
#[verifier::allow_in_spec]
pub fn c_imm_lui(inst: u32) -> u64
    returns
        sext((inst / 0x1000 % 2 * 0x2_0000 + inst / 4 % 32 * 0x1000) as u64, 0x2_0000),
{
    sign_extend((inst / 0x1000 % 2 * 0x2_0000 + inst / 4 % 32 * 0x1000) as u64, 0x2_0000)
}

/// The offset of C.J.
#[verifier::allow_in_spec]
pub fn c_imm_j(inst: u32) -> u64
    returns
        sext((inst / 0x1000 % 2 * 2048 + inst / 0x800 % 2 * 16 + inst / 0x200 % 4 * 256
            + inst / 0x100 % 2 * 1024 + inst / 0x80 % 2 * 64 + inst / 0x40 % 2 * 128
            + inst / 8 % 8 * 2 + inst / 4 % 2 * 32) as u64, 2048),
{
    sign_extend((inst / 0x1000 % 2 * 2048 + inst / 0x800 % 2 * 16 + inst / 0x200 % 4 * 256
        + inst / 0x100 % 2 * 1024 + inst / 0x80 % 2 * 64 + inst / 0x40 % 2 * 128
        + inst / 8 % 8 * 2 + inst / 4 % 2 * 32) as u64, 2048)
}

/// The offset of C.BEQZ and C.BNEZ.
#[verifier::allow_in_spec]
pub fn c_imm_b(inst: u32) -> u64
    returns
        sext((inst / 0x1000 % 2 * 256 + inst / 0x400 % 4 * 8 + inst / 0x20 % 4 * 64
            + inst / 8 % 4 * 2 + inst / 4 % 2 * 32) as u64, 256),
{
    sign_extend((inst / 0x1000 % 2 * 256 + inst / 0x400 % 4 * 8 + inst / 0x20 % 4 * 64
        + inst / 8 % 4 * 2 + inst / 4 % 2 * 32) as u64, 256)
}

/// The offset of C.LWSP.
#[verifier::allow_in_spec]
pub fn c_imm_lwsp(inst: u32) -> u64
    returns
        (inst / 0x1000 % 2 * 32 + inst / 0x10 % 8 * 4 + inst / 4 % 4 * 64) as u64,
{
    (inst / 0x1000 % 2 * 32 + inst / 0x10 % 8 * 4 + inst / 4 % 4 * 64) as u64
}

/// The offset of C.LDSP and C.FLDSP.
#[verifier::allow_in_spec]
pub fn c_imm_ldsp(inst: u32) -> u64
    returns
        (inst / 0x1000 % 2 * 32 + inst / 0x20 % 4 * 8 + inst / 4 % 8 * 64) as u64,
{
    (inst / 0x1000 % 2 * 32 + inst / 0x20 % 4 * 8 + inst / 4 % 8 * 64) as u64
}

/// The offset of C.SWSP.
#[verifier::allow_in_spec]
pub fn c_imm_swsp(inst: u32) -> u64
    returns
        (inst / 0x200 % 16 * 4 + inst / 0x80 % 4 * 64) as u64,
{
    (inst / 0x200 % 16 * 4 + inst / 0x80 % 4 * 64) as u64
}

/// The offset of C.SDSP and C.FSDSP.
#[verifier::allow_in_spec]
pub fn c_imm_sdsp(inst: u32) -> u64
    returns
        (inst / 0x400 % 8 * 8 + inst / 0x80 % 8 * 64) as u64,
{
    (inst / 0x400 % 8 * 8 + inst / 0x80 % 8 * 64) as u64
}

/// The ranges of the immediates: those of the I and S formats have 12 bits, those
/// of the B and J formats are even and have 13 and 21 bits, that of the U format
/// is a multiple of 4096.
pub proof fn law_immediates(inst: u32)
    ensures
        -0x800 <= signed(imm_i(inst)) < 0x800,
        -0x800 <= signed(imm_s(inst)) < 0x800,
        -0x1000 <= signed(imm_b(inst)) < 0x1000 && imm_b(inst) % 2 == 0,
        -0x10_0000 <= signed(imm_j(inst)) < 0x10_0000 && imm_j(inst) % 2 == 0,
        -0x8000_0000 <= signed(imm_u(inst)) < 0x8000_0000 && imm_u(inst) % 0x1000 == 0,
{
}

} // verus!
