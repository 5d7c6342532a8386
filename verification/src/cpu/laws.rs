//! What holds of the hart as a whole.

#[allow(unused_imports)]
use crate::alu::word;
#[allow(unused_imports)]
use crate::bus::{
    deadline_kept, law_accesses_keep_deadline, law_who_rings, law_writes_keep_rom, rom_kept, Bell,
    BusView,
};
#[allow(unused_imports)]
use crate::cpu::atomic::{amo_stored, LR};
#[allow(unused_imports)]
use crate::cpu::base::{op32_value, op_imm32_value, op_imm_value, op_value};
#[allow(unused_imports)]
use crate::cpu::decode::{
    c_imm_d, c_imm_ldsp, c_imm_lwsp, c_imm_sdsp, c_imm_swsp, c_imm_w, c_rd, c_reg_high, c_reg_low,
    c_rs2, funct7, imm_i, imm_s, rd, rs1, rs2,
};
#[allow(unused_imports)]
use crate::cpu::frames::{
    deadlines_agree, kept, lemma_bus_read, lemma_bus_write, lemma_fetch_quiet, lemma_load_quiet, lemma_store_frame,
    lemma_translate_quiet,
};
#[allow(unused_imports)]
use crate::cpu::memory::bus_read;
#[allow(unused_imports)]
use crate::cpu::system::zero_block;
#[allow(unused_imports)]
use crate::cpu::{cpu_reset, CpuView, FloatOp, Outcome, Request, Undo};
#[allow(unused_imports)]
use crate::mmu::AccessType;
#[allow(unused_imports)]
use crate::trap::{Exception, Interrupt, Trap};
#[allow(unused_imports)]
use crate::virtio::DiskReplyView;
use vstd::prelude::*;

verus! {

/// Putting back register `d` makes `after` equal `before` but for the program
/// counter, the bus, the reservation and the note of the last store.
pub open spec fn undoable(before: CpuView, after: CpuView, d: int) -> bool {
    after.set_x(d, before.x(d)) == CpuView {
        pc: after.pc,
        bus: after.bus,
        reservation: after.reservation,
        store_addr: after.store_addr,
        ..before
    }
}

/// What holds of every instruction with the destination field `d`: it keeps what
/// `kept` says, if it trapped it rang no bell, and if it completed and rang one it
/// can be undone.
pub open spec fn lawful(c: CpuView, out: Outcome, d: int) -> bool {
    &&& kept(c, out.0)
    &&& out.1 is Err ==> out.0.bus.bell == c.bus.bell
    &&& out.1 is Ok && out.0.bus.bell != c.bus.bell ==> undoable(c, out.0, d)
}

/// Loads are lawful.
proof fn lemma_loads(c: CpuView, i: int, va: u64, size: u64, half: u64, pc: u64, d: int)
    requires
        c.wf(),
        0 <= i < 32,
    ensures
        lawful(c, c.load_x(i, va, size, half, pc), d),
        lawful(c, c.load_f(i, va, pc), d),
{
    lemma_load_quiet(c, va, size);
    lemma_load_quiet(c, va, 8);
}

/// Stores are lawful.
proof fn lemma_stores(c: CpuView, va: u64, value: u64, size: u64, pc: u64, d: int)
    requires
        c.wf(),
        0 <= d < 32,
    ensures
        lawful(c, c.store_op(va, value, size, pc), d),
{
    lemma_store_frame(c, va, value, size);
    let s = c.store_op(va, value, size, pc).0;
    if d != 0 {
        assert(s.regs.update(d, c.regs[d]) =~= c.regs);
    }
}

/// Instructions that compute on registers are lawful.
proof fn lemma_computed(c: CpuView, inst: u32, v: Option<u64>)
    requires
        c.wf(),
    ensures
        lawful(c, c.computed(inst, v), rd(inst) as int),
{
}

/// The integer instructions without a memory access are lawful.
proof fn lemma_integer(c: CpuView, inst: u32)
    requires
        c.wf(),
    ensures
        lawful(c, c.exec_lui(inst), rd(inst) as int),
        lawful(c, c.exec_auipc(inst), rd(inst) as int),
        lawful(c, c.exec_jal(inst), rd(inst) as int),
        lawful(c, c.exec_jalr(inst), rd(inst) as int),
        lawful(c, c.exec_branch(inst), rd(inst) as int),
        lawful(c, c.exec_op_imm(inst), rd(inst) as int),
        lawful(c, c.exec_op(inst), rd(inst) as int),
        lawful(c, c.exec_op_imm32(inst), rd(inst) as int),
        lawful(c, c.exec_op32(inst), rd(inst) as int),
{
    let a = c.x(rs1(inst) as int);
    let b = c.x(rs2(inst) as int);
    lemma_computed(c, inst, Some(op_imm_value(inst, a)));
    lemma_computed(c, inst, op_value(inst, a, b));
    lemma_computed(c, inst, op_imm32_value(inst, a));
    lemma_computed(c, inst, op32_value(inst, a, b));
}

/// The integer loads and stores are lawful.
proof fn lemma_memory(c: CpuView, inst: u32)
    requires
        c.wf(),
    ensures
        lawful(c, c.exec_load(inst), rd(inst) as int),
        lawful(c, c.exec_store(inst), rd(inst) as int),
{
    let d = rd(inst) as int;
    let next = c.pc.wrapping_add(4);
    let va = c.x(rs1(inst) as int).wrapping_add(imm_i(inst));
    lemma_loads(c, d, va, 1, 0x80, next, d);
    lemma_loads(c, d, va, 2, 0x8000, next, d);
    lemma_loads(c, d, va, 4, 0x8000_0000, next, d);
    lemma_loads(c, d, va, 8, 0, next, d);
    lemma_loads(c, d, va, 1, 0, next, d);
    lemma_loads(c, d, va, 2, 0, next, d);
    lemma_loads(c, d, va, 4, 0, next, d);
    let vs = c.x(rs1(inst) as int).wrapping_add(imm_s(inst));
    let value = c.x(rs2(inst) as int);
    lemma_stores(c, vs, value, 1, next, d);
    lemma_stores(c, vs, value, 2, next, d);
    lemma_stores(c, vs, value, 4, next, d);
    lemma_stores(c, vs, value, 8, next, d);
}

/// The floating-point loads and stores are lawful.
proof fn lemma_memory_fp(c: CpuView, inst: u32)
    requires
        c.wf(),
    ensures
        lawful(c, c.exec_load_fp(inst), rd(inst) as int),
        lawful(c, c.exec_store_fp(inst), rd(inst) as int),
{
    let d = rd(inst) as int;
    let next = c.pc.wrapping_add(4);
    let va = c.x(rs1(inst) as int).wrapping_add(imm_i(inst));
    lemma_load_quiet(c, va, 4);
    lemma_loads(c, d, va, 8, 0, next, d);
    let vs = c.x(rs1(inst) as int).wrapping_add(imm_s(inst));
    let value = c.f(rs2(inst));
    lemma_stores(c, vs, word(value) as u64, 4, next, d);
    lemma_stores(c, vs, value, 8, next, d);
}

/// A read-modify-write operation is lawful.
proof fn lemma_rmw(c: CpuView, f5: u32, d: int, value: u64, va: u64, pa: u64, size: u64, pc: u64)
    requires
        c.wf(),
        0 <= d < 32,
    ensures
        lawful(c, c.amo(f5, d, value, va, pa, size, pc), d),
        lawful(c, c.store_conditional(d, value, va, pa, size, pc), d),
        lawful(c, c.load_reserved(d, va, pa, size, pc), d),
{
    lemma_bus_read(c.bus, pa, size);
    lemma_bus_write(c.bus, pa, value, size);
    if let (bus, Some(found)) = bus_read(c.bus, pa, size) {
        lemma_bus_write(bus, pa, amo_stored(f5, size, found, value), size);
    }
    let s = c.amo(f5, d, value, va, pa, size, pc).0;
    let t = c.store_conditional(d, value, va, pa, size, pc).0;
    if d != 0 {
        assert(s.regs.update(d, c.regs[d]) =~= c.regs);
        assert(t.regs.update(d, c.regs[d]) =~= c.regs);
    }
}

/// The atomic instructions are lawful.
proof fn lemma_atomic(c: CpuView, inst: u32)
    requires
        c.wf(),
    ensures
        lawful(c, c.exec_amo(inst), rd(inst) as int),
{
    let f5 = funct7(inst) / 4;
    let va = c.x(rs1(inst) as int);
    let d = rd(inst) as int;
    let value = c.x(rs2(inst) as int);
    let next = c.pc.wrapping_add(4);
    let access = if f5 == LR {
        AccessType::Load
    } else {
        AccessType::Store
    };
    let c0 = CpuView { store_addr: va, ..c };
    lemma_translate_quiet(c0, va, access);
    if let (s, Ok(pa)) = c0.translate(va, access) {
        lemma_rmw(s, f5, d, value, va, pa, 4, next);
        lemma_rmw(s, f5, d, value, va, pa, 8, next);
    }
}

/// Zeroing a cache block leaves the read-only memories, the bells and the deadline
/// alone.
proof fn lemma_zero_block(bus: BusView, pa: u64, i: nat)
    ensures
        rom_kept(bus, zero_block(bus, pa, i)),
        zero_block(bus, pa, i).bell == bus.bell,
        deadline_kept(bus, zero_block(bus, pa, i)),
    decreases 8 - i,
{
    if i < 8 {
        let a = pa.wrapping_add((8 * i) as u64);
        law_writes_keep_rom(bus, a, 0);
        law_who_rings(bus, a, 0, 0);
        law_accesses_keep_deadline(bus, a, 0, 0);
        lemma_zero_block(bus.write64(a, 0).0, pa, i + 1);
    }
}

/// The system instructions, the fences and the cache-block operations are lawful.
#[verifier::rlimit(30)]
proof fn lemma_system(c: CpuView, inst: u32)
    requires
        c.wf(),
    ensures
        lawful(c, c.exec_system(inst), rd(inst) as int),
        lawful(c, c.exec_misc_mem(inst), rd(inst) as int),
{
    let a = c.x(rs1(inst) as int);
    let va = (a - a % 64) as u64;
    lemma_translate_quiet(c, va, AccessType::Store);
    if let (s, Ok(pa)) = c.translate(va, AccessType::Store) {
        lemma_zero_block(s.bus, pa, 0);
    }
}

/// The floating-point instructions are lawful.
proof fn lemma_float(c: CpuView, inst: u32)
    requires
        c.wf(),
    ensures
        lawful(c, c.exec_fp_double(inst), rd(inst) as int),
        lawful(c, c.exec_fp_single(inst), rd(inst) as int),
        lawful(c, c.exec_fp(inst), rd(inst) as int),
        lawful(c, c.exec_fma(inst), rd(inst) as int),
{
}

/// The 16-bit instructions of quadrant 0 are lawful.
proof fn lemma_c0(c: CpuView, inst: u32, d: int)
    requires
        c.wf(),
        0 <= d < 32,
    ensures
        lawful(c, c.exec_c0(inst), d),
{
    let next = c.pc.wrapping_add(2);
    let base = c.x(c_reg_high(inst) as int);
    let r = c_reg_low(inst) as int;
    let vd = base.wrapping_add(c_imm_d(inst));
    let vw = base.wrapping_add(c_imm_w(inst));
    lemma_loads(c, r, vd, 8, 0, next, d);
    lemma_loads(c, r, vw, 4, 0x8000_0000, next, d);
    lemma_stores(c, vd, c.f_regs[r], 8, next, d);
    lemma_stores(c, vw, c.x(r), 4, next, d);
    lemma_stores(c, vd, c.x(r), 8, next, d);
}

/// The 16-bit instructions of quadrant 1 are lawful.
proof fn lemma_c1(c: CpuView, inst: u32, d: int)
    requires
        c.wf(),
    ensures
        lawful(c, c.exec_c1(inst), d),
{
    assert(lawful(c, c.exec_c1_arith(inst), d));
}

/// The 16-bit instructions of quadrant 2 are lawful.
proof fn lemma_c2(c: CpuView, inst: u32, d: int)
    requires
        c.wf(),
        0 <= d < 32,
    ensures
        lawful(c, c.exec_c2(inst), d),
{
    let next = c.pc.wrapping_add(2);
    let r = c_rd(inst) as int;
    let s = c_rs2(inst) as int;
    let sp = c.x(2);
    lemma_loads(c, r, sp.wrapping_add(c_imm_ldsp(inst)), 8, 0, next, d);
    lemma_loads(c, r, sp.wrapping_add(c_imm_lwsp(inst)), 4, 0x8000_0000, next, d);
    lemma_stores(c, sp.wrapping_add(c_imm_sdsp(inst)), c.f_regs[s], 8, next, d);
    lemma_stores(c, sp.wrapping_add(c_imm_swsp(inst)), c.x(s), 4, next, d);
    lemma_stores(c, sp.wrapping_add(c_imm_sdsp(inst)), c.x(s), 8, next, d);
    assert(lawful(c, c.exec_c2_jump(inst), d));
}

/// Every instruction keeps the sizes of the register files, the contents of x0,
/// the instruction counter and the read-only memories, and that the deadlines agree.
/// If it trapped it rang no bell; if it completed and rang one, putting back the register of its
/// destination field undoes it.
pub proof fn law_instruction(c: CpuView, inst: u32)
    requires
        c.wf(),
    ensures
        lawful(c, c.exec(inst), rd(inst) as int),
{
    reveal(CpuView::exec);
    if inst % 4 != 3 {
        let i = inst % 0x1_0000;
        let d = rd(inst) as int;
        lemma_c0(c, i, d);
        lemma_c1(c, i, d);
        lemma_c2(c, i, d);
    } else {
        lemma_integer(c, inst);
        lemma_memory(c, inst);
        lemma_memory_fp(c, inst);
        lemma_atomic(c, inst);
        lemma_system(c, inst);
        lemma_float(c, inst);
    }
}

/// A trap keeps the registers and the bus, and leaves no reservation.
proof fn lemma_trap_kept(c: CpuView, t: Trap, tval: u64)
    ensures
        kept(c, c.trap(t, tval)),
        c.trap(t, tval).bus == c.bus,
        c.trap(t, tval).request == c.request,
        c.trap(t, tval).reservation is None,
{
    reveal(CpuView::trap);
}

/// A step keeps the sizes of the register files and the contents of x0, which
/// reads as zero all along; it keeps the boot ROM and what the flash stores; it
/// counts one instruction; and it leaves no bell ringing. If the bus has the deadline
/// that the supervisor timer's register says, that is so afterwards too.
pub proof fn law_step(c: CpuView)
    requires
        c.wf(),
        c.bus.bell is None,
    ensures
        c.step().wf(),
        c.step().x(0) == 0,
        c.step().regs[0] == c.regs[0],
        rom_kept(c.bus, c.step().bus),
        c.step().inst_count == c.inst_count.wrapping_add(1),
        c.step().bus.bell is None,
        deadlines_agree(c) ==> deadlines_agree(c.step()),
{
    let s0 = CpuView { inst_count: c.inst_count.wrapping_add(1), ..c };
    let (s1, i) = s0.poll();
    assert(kept(s0, s1) && s1.bus.bell is None) by {
        reveal(CpuView::poll);
    }
    match i {
        Some(i) => lemma_trap_kept(s1, Trap::Interrupt(i), 0),
        None => {
            lemma_fetch_quiet(s1);
            match s1.fetch() {
                (s2, Err((t, tval))) => lemma_trap_kept(s2, t, tval),
                (s2, Ok(inst)) => {
                    law_instruction(s2, inst);
                    if let (s3, Err((t, tval))) = s2.exec(inst) {
                        lemma_trap_kept(s3, t, tval);
                    }
                },
            }
        },
    }
}

/// A store to a device that cannot serve its queue faults as if the instruction
/// had not been executed: whatever the device did to the bus meanwhile, the hart
/// is where the fault would have taken it from the state before the instruction.
pub proof fn law_failed_store(c: CpuView, inst: u32, bus: BusView)
    requires
        c.wf(),
        c.request is None,
        c.bus.bell is None,
        c.exec(inst).1 is Ok,
        c.exec(inst).0.bus.bell is Some,
    ensures
        ({
            let s = c.exec(inst).0;
            let undo = c.undo_of(inst, s.store_addr);
            let waiting = s.heed_bell(c, inst);
            &&& waiting.request == Some(
                match s.bus.bell->0 {
                    Bell::Block => Request::Block(undo),
                    Bell::Rng => Request::Rng(undo),
                },
            )
            &&& (CpuView { bus, ..waiting }).fail_store(undo) == (CpuView {
                bus,
                store_addr: s.store_addr,
                ..c
            }).trap(Trap::Exception(Exception::StoreAMOAccessFault), s.store_addr)
        }),
{
    law_instruction(c, inst);
    reveal(CpuView::trap);
    let s = c.exec(inst).0;
    let d = rd(inst) as int;
    let undo = c.undo_of(inst, s.store_addr);
    let waiting = s.heed_bell(c, inst);
    let a = (CpuView { pc: undo.pc, request: None, bus, ..waiting }).set_x(d, undo.value);
    let b = CpuView { bus, store_addr: s.store_addr, ..c };
    assert(undoable(c, s, d));
    assert(a.regs == s.set_x(d, c.x(d)).regs);
    assert((CpuView { reservation: None, ..a }) == (CpuView { reservation: None, ..b }));
}

/// The hart waits exactly as long as the device asks for something: once nothing
/// is asked, nothing is left to answer.
pub proof fn law_waiting_ends(c: CpuView, undo: Undo, reply: DiskReplyView)
    requires
        c.request == Some(Request::Block(undo)),
    ensures
        c.after_block(undo, c.bus.process_blk()).1 is None <==> c.after_block(
            undo,
            c.bus.process_blk(),
        ).0.request is None,
        c.after_block(undo, c.bus.resume_blk(reply)).1 is None <==> c.after_block(
            undo,
            c.bus.resume_blk(reply),
        ).0.request is None,
{
    reveal(CpuView::trap);
}

/// The deadlines agree from the reset on, and what the host answers keeps them so: a
/// floating-point result, and each step of serving a device's queue.
pub proof fn law_deadlines_agree(
    c: CpuView,
    op: FloatOp,
    bits: u64,
    undo: Undo,
    reply: DiskReplyView,
    bytes: Seq<u8>,
)
    ensures
        c.bus.stimecmp == u64::MAX ==> deadlines_agree(cpu_reset(c.bus)),
        deadlines_agree(c) ==> {
            &&& deadlines_agree(c.answer(op, bits))
            &&& deadlines_agree(c.after_block(undo, c.bus.process_blk()).0)
            &&& deadlines_agree(c.after_block(undo, c.bus.resume_blk(reply)).0)
            &&& deadlines_agree(c.after_rng(undo, c.bus.process_rng()).0)
            &&& deadlines_agree(c.after_rng(undo, c.bus.resume_rng(bytes)).0)
        },
{
    reveal(CpuView::trap);
}

} // verus!
