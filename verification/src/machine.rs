//! How the machine is started and kept in time.

#[allow(unused_imports)]
use crate::bus::BusView;
use crate::cpu::Cpu;
#[allow(unused_imports)]
use crate::cpu::CpuView;
use vstd::prelude::*;

verus! {

/// Where the hart starts: the boot ROM.
pub const BOOT_PC: u64 = 0x0000_1000;

/// Where the device tree is put.
pub const DTB_ADDR: u64 = 0x8700_0000;

/// After how many steps the time advances.
pub const TIMER_TICK_INTERVAL: u64 = 10000;

/// By how many ticks it advances.
pub const TIMER_TICK_STEP: u64 = 1000;

/// After how many steps the machine stops.
pub const STEP_LIMIT: u64 = 100_000_000_000;

/// The hart ready to boot: a0 holds the hart's number, a1 the address of the
/// device tree.
pub open spec fn booted(c: CpuView) -> CpuView {
    c.at(BOOT_PC).set_x(10, 0).set_x(11, DTB_ADDR)
}

/// The hart after its step number `count`: every so many steps the time advances.
pub open spec fn timed(c: CpuView, count: u64) -> CpuView {
    if count % TIMER_TICK_INTERVAL == 0 {
        CpuView {
            bus: BusView { mtime: c.bus.mtime.wrapping_add(TIMER_TICK_STEP), ..c.bus },
            ..c
        }
    } else {
        c
    }
}

/// Makes the hart ready to boot.
pub fn boot(cpu: &mut Cpu)
    ensures
        final(cpu)@ == booted(old(cpu)@),
{
    cpu.pc = BOOT_PC;
    cpu.write_reg(10, 0);
    cpu.write_reg(11, DTB_ADDR);
}

/// Keeps the time after step number `count`, and says whether the machine is to
/// stop.
pub fn after_step(cpu: &mut Cpu, count: u64) -> (stop: bool)
    ensures
        final(cpu)@ == timed(old(cpu)@, count),
        stop == (count > STEP_LIMIT),
{
    if count % TIMER_TICK_INTERVAL == 0 {
        cpu.update_timer_by(TIMER_TICK_STEP);
    }
    count > STEP_LIMIT
}

} // verus!
