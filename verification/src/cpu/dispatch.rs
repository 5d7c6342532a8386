//! Which group of instructions an instruction belongs to.

use crate::cpu::CpuView;
#[allow(unused_imports)]
use crate::cpu::Outcome;
use vstd::prelude::*;

verus! {

/// Two outcomes are the same.
pub open spec fn same(a: Outcome, b: Outcome) -> bool {
    a == b
}

/// Opcode 0x37.
#[verifier::spinoff_prover]
#[verifier::rlimit(100)]
pub(crate) proof fn lemma_dispatch_lui(c: CpuView, inst: u32)
    requires
        inst % 128 == 0x37,
    ensures
        same(c.exec(inst), c.exec_lui(inst)),
{
    reveal(CpuView::exec);
}

/// Opcode 0x17.
#[verifier::spinoff_prover]
#[verifier::rlimit(100)]
pub(crate) proof fn lemma_dispatch_auipc(c: CpuView, inst: u32)
    requires
        inst % 128 == 0x17,
    ensures
        same(c.exec(inst), c.exec_auipc(inst)),
{
    reveal(CpuView::exec);
}

/// Opcode 0x6F.
#[verifier::spinoff_prover]
#[verifier::rlimit(100)]
pub(crate) proof fn lemma_dispatch_jal(c: CpuView, inst: u32)
    requires
        inst % 128 == 0x6F,
    ensures
        same(c.exec(inst), c.exec_jal(inst)),
{
    reveal(CpuView::exec);
}

/// Opcode 0x67.
#[verifier::spinoff_prover]
#[verifier::rlimit(100)]
pub(crate) proof fn lemma_dispatch_jalr(c: CpuView, inst: u32)
    requires
        inst % 128 == 0x67,
    ensures
        same(c.exec(inst), c.exec_jalr(inst)),
{
    reveal(CpuView::exec);
}

/// Opcode 0x63.
#[verifier::spinoff_prover]
#[verifier::rlimit(100)]
pub(crate) proof fn lemma_dispatch_branch(c: CpuView, inst: u32)
    requires
        inst % 128 == 0x63,
    ensures
        same(c.exec(inst), c.exec_branch(inst)),
{
    reveal(CpuView::exec);
}

/// Opcode 0x03.
#[verifier::spinoff_prover]
#[verifier::rlimit(100)]
pub(crate) proof fn lemma_dispatch_load(c: CpuView, inst: u32)
    requires
        inst % 128 == 0x03,
    ensures
        same(c.exec(inst), c.exec_load(inst)),
{
    reveal(CpuView::exec);
}

/// Opcode 0x07.
#[verifier::spinoff_prover]
#[verifier::rlimit(100)]
pub(crate) proof fn lemma_dispatch_load_fp(c: CpuView, inst: u32)
    requires
        inst % 128 == 0x07,
    ensures
        same(c.exec(inst), c.exec_load_fp(inst)),
{
    reveal(CpuView::exec);
}

/// Opcode 0x23.
#[verifier::spinoff_prover]
#[verifier::rlimit(100)]
pub(crate) proof fn lemma_dispatch_store(c: CpuView, inst: u32)
    requires
        inst % 128 == 0x23,
    ensures
        same(c.exec(inst), c.exec_store(inst)),
{
    reveal(CpuView::exec);
}

/// Opcode 0x27.
#[verifier::spinoff_prover]
#[verifier::rlimit(100)]
pub(crate) proof fn lemma_dispatch_store_fp(c: CpuView, inst: u32)
    requires
        inst % 128 == 0x27,
    ensures
        same(c.exec(inst), c.exec_store_fp(inst)),
{
    reveal(CpuView::exec);
}

/// Opcode 0x13.
#[verifier::spinoff_prover]
#[verifier::rlimit(100)]
pub(crate) proof fn lemma_dispatch_op_imm(c: CpuView, inst: u32)
    requires
        inst % 128 == 0x13,
    ensures
        same(c.exec(inst), c.exec_op_imm(inst)),
{
    reveal(CpuView::exec);
}

/// Opcode 0x33.
#[verifier::spinoff_prover]
#[verifier::rlimit(100)]
pub(crate) proof fn lemma_dispatch_op(c: CpuView, inst: u32)
    requires
        inst % 128 == 0x33,
    ensures
        same(c.exec(inst), c.exec_op(inst)),
{
    reveal(CpuView::exec);
}

/// Opcode 0x1B.
#[verifier::spinoff_prover]
#[verifier::rlimit(100)]
pub(crate) proof fn lemma_dispatch_op_imm32(c: CpuView, inst: u32)
    requires
        inst % 128 == 0x1B,
    ensures
        same(c.exec(inst), c.exec_op_imm32(inst)),
{
    reveal(CpuView::exec);
}

/// Opcode 0x3B.
#[verifier::spinoff_prover]
#[verifier::rlimit(100)]
pub(crate) proof fn lemma_dispatch_op32(c: CpuView, inst: u32)
    requires
        inst % 128 == 0x3B,
    ensures
        same(c.exec(inst), c.exec_op32(inst)),
{
    reveal(CpuView::exec);
}

/// Opcode 0x0F.
#[verifier::spinoff_prover]
#[verifier::rlimit(100)]
pub(crate) proof fn lemma_dispatch_misc_mem(c: CpuView, inst: u32)
    requires
        inst % 128 == 0x0F,
    ensures
        same(c.exec(inst), c.exec_misc_mem(inst)),
{
    reveal(CpuView::exec);
}

/// Opcode 0x2F.
#[verifier::spinoff_prover]
#[verifier::rlimit(100)]
pub(crate) proof fn lemma_dispatch_amo(c: CpuView, inst: u32)
    requires
        inst % 128 == 0x2F,
    ensures
        same(c.exec(inst), c.exec_amo(inst)),
{
    reveal(CpuView::exec);
}

/// Opcode 0x73.
#[verifier::spinoff_prover]
#[verifier::rlimit(100)]
pub(crate) proof fn lemma_dispatch_system(c: CpuView, inst: u32)
    requires
        inst % 128 == 0x73,
    ensures
        same(c.exec(inst), c.exec_system(inst)),
{
    reveal(CpuView::exec);
}

/// Opcode 0x53.
#[verifier::spinoff_prover]
#[verifier::rlimit(100)]
pub(crate) proof fn lemma_dispatch_fp(c: CpuView, inst: u32)
    requires
        inst % 128 == 0x53,
    ensures
        same(c.exec(inst), c.exec_fp(inst)),
{
    reveal(CpuView::exec);
}

/// Opcodes 0x43, 0x47, 0x4B and 0x4F.
#[verifier::spinoff_prover]
#[verifier::rlimit(100)]
pub(crate) proof fn lemma_dispatch_fma(c: CpuView, inst: u32)
    requires
        inst % 128 == 0x43 || inst % 128 == 0x47 || inst % 128 == 0x4B || inst % 128 == 0x4F,
    ensures
        same(c.exec(inst), c.exec_fma(inst)),
{
    reveal(CpuView::exec);
}

/// The 16-bit instructions of quadrant 0.
#[verifier::spinoff_prover]
#[verifier::rlimit(100)]
pub(crate) proof fn lemma_dispatch_short0(c: CpuView, inst: u32)
    requires
        inst < 0x1_0000,
        inst % 4 == 0,
    ensures
        same(c.exec(inst), c.exec_c0(inst)),
{
    reveal(CpuView::exec);
}

/// The 16-bit instructions of quadrant 1.
#[verifier::spinoff_prover]
#[verifier::rlimit(100)]
pub(crate) proof fn lemma_dispatch_short1(c: CpuView, inst: u32)
    requires
        inst < 0x1_0000,
        inst % 4 == 1,
    ensures
        same(c.exec(inst), c.exec_c1(inst)),
{
    reveal(CpuView::exec);
}

/// The 16-bit instructions of quadrant 2.
#[verifier::spinoff_prover]
#[verifier::rlimit(100)]
pub(crate) proof fn lemma_dispatch_short2(c: CpuView, inst: u32)
    requires
        inst < 0x1_0000,
        inst % 4 == 2,
    ensures
        same(c.exec(inst), c.exec_c2(inst)),
{
    reveal(CpuView::exec);
}

} // verus!
