//! Executing instructions, one step of the hart, and the answers to what it asks
//! of the host.

use crate::bus::Bell;
#[allow(unused_imports)]
use crate::bus::BusView;
use crate::cpu::decode::{opcode, rd};
use crate::cpu::{Cpu, Request, Undo};
#[allow(unused_imports)]
use crate::cpu::{CpuView, Outcome};
use crate::trap::{Exception, Trap};
use crate::virtio::{BlkStep, DiskAction, DiskReply};
#[allow(unused_imports)]
use crate::virtio::{BlkStepView, DiskActionView};
use crate::virtio_rng::RngStep;
#[allow(unused_imports)]
use crate::virtio_rng::RngStepView;
use vstd::prelude::*;

verus! {

impl CpuView {
    /// A 32-bit instruction.
    pub open spec fn exec_standard(self, inst: u32) -> Outcome {
        match opcode(inst) {
            0x37 => self.exec_lui(inst),
            0x17 => self.exec_auipc(inst),
            0x6F => self.exec_jal(inst),
            0x67 => self.exec_jalr(inst),
            0x63 => self.exec_branch(inst),
            0x03 => self.exec_load(inst),
            0x07 => self.exec_load_fp(inst),
            0x23 => self.exec_store(inst),
            0x27 => self.exec_store_fp(inst),
            0x13 => self.exec_op_imm(inst),
            0x33 => self.exec_op(inst),
            0x1B => self.exec_op_imm32(inst),
            0x3B => self.exec_op32(inst),
            0x0F => self.exec_misc_mem(inst),
            0x2F => self.exec_amo(inst),
            0x73 => self.exec_system(inst),
            0x53 => self.exec_fp(inst),
            0x43 => self.exec_fma(inst),
            0x47 => self.exec_fma(inst),
            0x4B => self.exec_fma(inst),
            0x4F => self.exec_fma(inst),
            _ => self.refuse(inst),
        }
    }

    /// An instruction: of 16 bits unless its low two bits are ones.
    #[verifier::opaque]
    pub open spec fn exec(self, inst: u32) -> Outcome {
        if inst % 4 != 3 {
            self.exec_compressed(inst % 0x1_0000)
        } else {
            self.exec_standard(inst)
        }
    }

    /// What it takes to undo `inst`, which this state is about to execute, should
    /// the store to `tval` turn out to fail.
    pub open spec fn undo_of(self, inst: u32, tval: u64) -> Undo {
        Undo { pc: self.pc, rd: rd(inst), value: self.x(rd(inst) as int), tval }
    }

    /// After an instruction that rang a device's bell the hart waits for that
    /// device's queue to be served.
    pub open spec fn heed_bell(self, before: CpuView, inst: u32) -> CpuView {
        let undo = before.undo_of(inst, self.store_addr);
        match self.bus.bell {
            None => self,
            Some(bell) => CpuView {
                request: Some(
                    match bell {
                        Bell::Block => Request::Block(undo),
                        Bell::Rng => Request::Rng(undo),
                    },
                ),
                bus: BusView { bell: None, ..self.bus },
                ..self
            },
        }
    }

    /// One step: an interrupt is taken, or an instruction is fetched and executed.
    /// A trap of either is taken within the step.
    pub open spec fn step(self) -> CpuView {
        let s0 = CpuView { inst_count: self.inst_count.wrapping_add(1), ..self };
        match s0.poll() {
            (s1, Some(i)) => s1.trap(Trap::Interrupt(i), 0),
            (s1, None) => match s1.fetch() {
                (s2, Err((t, tval))) => s2.trap(t, tval),
                (s2, Ok(inst)) => match s2.exec(inst) {
                    (s3, Err((t, tval))) => s3.trap(t, tval),
                    (s3, Ok(())) => s3.heed_bell(s2, inst),
                },
            },
        }
    }

    /// A store whose device could not be served: the instruction is undone and
    /// faults.
    pub open spec fn fail_store(self, undo: Undo) -> CpuView {
        CpuView { pc: undo.pc, request: None, ..self }.set_x((undo.rd % 32) as int, undo.value).trap(
            Trap::Exception(Exception::StoreAMOAccessFault),
            undo.tval,
        )
    }

    /// The block device's queue was served a step further.
    pub open spec fn after_block(self, undo: Undo, out: (BusView, BlkStepView)) -> (
        CpuView,
        Option<DiskActionView>,
    ) {
        let s = CpuView { bus: out.0, ..self };
        match out.1 {
            BlkStepView::Disk(a) => (s, Some(a)),
            BlkStepView::Done(_) => (CpuView { request: None, ..s }, None),
            BlkStepView::Failed(_) => (s.fail_store(undo), None),
        }
    }

    /// The entropy device's queue was served a step further.
    pub open spec fn after_rng(self, undo: Undo, out: (BusView, RngStepView)) -> (
        CpuView,
        Option<u32>,
    ) {
        let s = CpuView { bus: out.0, ..self };
        match out.1 {
            RngStepView::NeedBytes(n) => (s, Some(n)),
            RngStepView::Done(_) => (CpuView { request: None, ..s }, None),
            RngStepView::Failed(_) => (s.fail_store(undo), None),
        }
    }
}

impl Cpu {
    /// Executes a 32-bit instruction.
    fn execute_standard(&mut self, inst: u32) -> (r: Result<(), (Trap, u64)>)
        ensures
            (final(self)@, r) == old(self)@.exec_standard(inst),
    {
        match opcode(inst) {
            0x37 => self.do_lui(inst),
            0x17 => self.do_auipc(inst),
            0x6F => self.do_jal(inst),
            0x67 => self.do_jalr(inst),
            0x63 => self.do_branch(inst),
            0x03 => self.do_loads(inst),
            0x07 => self.do_loads_fp(inst),
            0x23 => self.do_stores(inst),
            0x27 => self.do_stores_fp(inst),
            0x13 => self.do_op_imm(inst),
            0x33 => self.do_op(inst),
            0x1B => self.do_op_imm32(inst),
            0x3B => self.do_op32(inst),
            0x0F => self.do_misc_mem(inst),
            0x2F => self.do_amo(inst),
            0x73 => self.do_system(inst),
            0x53 => self.do_fp(inst),
            0x43 | 0x47 | 0x4B | 0x4F => self.do_fma(inst),
            _ => self.refuse_inst(inst),
        }
    }

    /// Executes an instruction. A trap comes with its trap value: the instruction
    /// if it is illegal, the virtual address if an access failed.
    pub fn execute(&mut self, inst: u32) -> (r: Result<(), (Trap, u64)>)
        ensures
            (final(self)@, r) == old(self)@.exec(inst),
    {
        proof {
            reveal(CpuView::exec);
        }
        if inst % 4 != 3 {
            self.execute_compressed(inst % 0x1_0000)
        } else {
            self.execute_standard(inst)
        }
    }

    /// Waits for the queue of the device whose bell the last instruction rang.
    fn hear_bell(&mut self, undo: Undo)
        ensures
            final(self)@ == match old(self)@.bus.bell {
                None => old(self)@,
                Some(bell) => CpuView {
                    request: Some(
                        match bell {
                            Bell::Block => Request::Block(undo),
                            Bell::Rng => Request::Rng(undo),
                        },
                    ),
                    bus: BusView { bell: None, ..old(self)@.bus },
                    ..old(self)@
                },
            },
    {
        match self.bus.rung() {
            None => {},
            Some(bell) => {
                self.request = Some(
                    match bell {
                        Bell::Block => Request::Block(undo),
                        Bell::Rng => Request::Rng(undo),
                    },
                );
                self.bus.silence();
            },
        }
    }

    /// Takes an interrupt, or fetches and executes an instruction. Traps are taken
    /// within the step, so it never fails. Nothing may be left to answer from the
    /// step before.
    pub fn step(&mut self) -> (r: Result<(), Trap>)
        requires
            old(self)@.request is None,
        ensures
            r is Ok,
            final(self)@ == old(self)@.step(),
    {
        self.inst_count = self.inst_count.wrapping_add(1);
        if let Err(trap) = self.check_interrupt() {
            self.handle_trap(trap, 0);
            return Ok(());
        }
        let inst: u32 = match self.fetch_inst() {
            Ok(inst) => inst,
            Err((trap, tval)) => {
                self.handle_trap(trap, tval);
                return Ok(());
            },
        };
        let pc: u64 = self.pc;
        let value: u64 = self.read_reg(rd(inst));
        match self.execute(inst) {
            Err((trap, tval)) => {
                self.handle_trap(trap, tval);
            },
            Ok(()) => {
                let tval: u64 = self.store_addr;
                self.hear_bell(Undo { pc, rd: rd(inst), value, tval });
            },
        }
        Ok(())
    }

    /// Undoes a store whose device could not be served, and takes the fault.
    fn undo_store(&mut self, undo: Undo)
        ensures
            final(self)@ == old(self)@.fail_store(undo),
    {
        self.pc = undo.pc;
        self.request = None;
        self.write_reg(undo.rd % 32, undo.value);
        self.handle_trap(Trap::Exception(Exception::StoreAMOAccessFault), undo.tval);
    }

    /// Serves the queue of the block device that the hart waits for: from its
    /// registers on, or with the disk's reply to the action returned last. Returns
    /// what is to be done with the disk, or nothing once the hart can go on.
    pub fn serve_block(&mut self, reply: Option<DiskReply>) -> (action: Option<DiskAction>)
        requires
            old(self)@.request matches Some(Request::Block(_)),
        ensures
            old(self)@.request matches Some(Request::Block(undo)) && ({
                let (s, a) = old(self)@.after_block(
                    undo,
                    match reply {
                        None => old(self)@.bus.process_blk(),
                        Some(r) => old(self)@.bus.resume_blk(r@),
                    },
                );
                final(self)@ == s && match (action, a) {
                    (Some(x), Some(y)) => x@ == y,
                    (None, None) => true,
                    _ => false,
                }
            }),
    {
        let undo = match self.request {
            Some(Request::Block(undo)) => undo,
            _ => return None,
        };
        let step = match &reply {
            None => self.bus.process_virtio_block_queue(),
            Some(r) => self.bus.resume_virtio_block_queue(r),
        };
        match step {
            BlkStep::Disk(a) => Some(a),
            BlkStep::Done(_) => {
                self.request = None;
                None
            },
            BlkStep::Failed(_) => {
                self.undo_store(undo);
                None
            },
        }
    }

    /// Serves the queue of the entropy device that the hart waits for: from its
    /// registers on, or with the random bytes asked for last. Returns how many
    /// random bytes are needed, or nothing once the hart can go on.
    pub fn serve_rng(&mut self, bytes: Option<Vec<u8>>) -> (count: Option<u32>)
        requires
            old(self)@.request matches Some(Request::Rng(_)),
        ensures
            old(self)@.request matches Some(Request::Rng(undo)) && (final(self)@, count) == old(
                self,
            )@.after_rng(
                undo,
                match bytes {
                    None => old(self)@.bus.process_rng(),
                    Some(b) => old(self)@.bus.resume_rng(b@),
                },
            ),
    {
        let undo = match self.request {
            Some(Request::Rng(undo)) => undo,
            _ => return None,
        };
        let step = match &bytes {
            None => self.bus.process_virtio_rng_queue(),
            Some(b) => self.bus.resume_virtio_rng_queue(b),
        };
        match step {
            RngStep::NeedBytes(n) => Some(n),
            RngStep::Done(_) => {
                self.request = None;
                None
            },
            RngStep::Failed(_) => {
                self.undo_store(undo);
                None
            },
        }
    }
}

} // verus!
