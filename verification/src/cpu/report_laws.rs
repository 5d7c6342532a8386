//! Which traps are reported, and what a store does whose device cannot be served.

#[allow(unused_imports)]
use crate::bus::BusView;
#[allow(unused_imports)]
use crate::cpu::{CpuView, Mode, Report, Request, Undo};
#[allow(unused_imports)]
use crate::trap::{Exception, Interrupt, Trap};
#[allow(unused_imports)]
use crate::virtio::{BlkStepView, DiskActionView};
#[allow(unused_imports)]
use crate::virtio_rng::RngStepView;
use vstd::prelude::*;

verus! {

/// The trap is reported: what there is to report is that trap, where it happened, in which
/// mode and after how many instructions.
pub open spec fn reported(c: CpuView, trap: Trap, tval: u64) -> bool {
    c.trap(trap, tval).report == Some(
        Report { trap, tval, pc: c.pc, mode: c.mode, inst_count: c.inst_count },
    )
}

/// The trap is not reported: what there was to report stays.
pub open spec fn unreported(c: CpuView, trap: Trap, tval: u64) -> bool {
    c.trap(trap, tval).report == c.report
}

/// Interrupts, calls from below machine mode, breakpoints and page faults are not reported;
/// failed accesses, misaligned addresses and calls from machine mode are. An illegal
/// instruction is, unless its highest four bits name registers of the machine, supervisor,
/// counter, debug or vendor range.
pub proof fn law_reports(c: CpuView, i: Interrupt, v: u64, w: u64)
    requires
        w / 0x1000_0000 % 16 != 1,
        w / 0x1000_0000 % 16 != 3,
        w / 0x1000_0000 % 16 != 11,
        w / 0x1000_0000 % 16 != 13,
        w / 0x1000_0000 % 16 != 15,
    ensures
        unreported(c, Trap::Interrupt(i), v),
        unreported(c, Trap::Exception(Exception::EnvironmentCallFromUMode), v),
        unreported(c, Trap::Exception(Exception::EnvironmentCallFromSMode), v),
        unreported(c, Trap::Exception(Exception::Breakpoint), v),
        unreported(c, Trap::Exception(Exception::InstructionPageFault), v),
        unreported(c, Trap::Exception(Exception::LoadPageFault), v),
        unreported(c, Trap::Exception(Exception::StoreAMOPageFault), v),
        reported(c, Trap::Exception(Exception::InstructionAddressMisaligned), v),
        reported(c, Trap::Exception(Exception::InstructionAccessFault), v),
        reported(c, Trap::Exception(Exception::LoadAddressMisaligned), v),
        reported(c, Trap::Exception(Exception::LoadAccessFault), v),
        reported(c, Trap::Exception(Exception::StoreAMOAddressMisaligned), v),
        reported(c, Trap::Exception(Exception::StoreAMOAccessFault), v),
        reported(c, Trap::Exception(Exception::EnvironmentCallFromMMode), v),
        reported(c, Trap::Exception(Exception::IllegalInstruction), w),
        v / 0x1000_0000 % 16 == 1 || v / 0x1000_0000 % 16 == 3 || v / 0x1000_0000 % 16 == 11 || v
            / 0x1000_0000 % 16 == 13 || v / 0x1000_0000 % 16 == 15 ==> unreported(
            c,
            Trap::Exception(Exception::IllegalInstruction),
            v,
        ),
{
    reveal(CpuView::trap);
}

/// While a device is served, a hart waits for as long as the device asks for something; it
/// goes on when the queue is done. Where the queue cannot be served, the register and the
/// program counter are as before the store, and the store faults at its address.
pub proof fn law_waiting(
    c: CpuView,
    undo: Undo,
    bus: BusView,
    a: DiskActionView,
    n: u32,
    b: bool,
    e: Seq<char>,
)
    requires
        undo.rd < 32,
    ensures
        c.after_block(undo, (bus, BlkStepView::Disk(a))) == (CpuView { bus, ..c }, Some(a)),
        c.after_block(undo, (bus, BlkStepView::Done(b))) == (
            CpuView { bus, request: None, ..c },
            None::<DiskActionView>,
        ),
        c.after_rng(undo, (bus, RngStepView::NeedBytes(n))) == (CpuView { bus, ..c }, Some(n)),
        c.after_rng(undo, (bus, RngStepView::Done(b))) == (
            CpuView { bus, request: None, ..c },
            None::<u32>,
        ),
        ({
            let s = CpuView {
                bus,
                request: None,
                pc: undo.pc,
                regs: if undo.rd == 0 {
                    c.regs
                } else {
                    c.regs.update(undo.rd as int, undo.value)
                },
                ..c
            }.trap(Trap::Exception(Exception::StoreAMOAccessFault), undo.tval);
            &&& c.after_block(undo, (bus, BlkStepView::Failed(e))) == (s, None::<DiskActionView>)
            &&& c.after_rng(undo, (bus, RngStepView::Failed(e))) == (s, None::<u32>)
        }),
{
}

} // verus!
