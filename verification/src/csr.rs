//! Control and status registers.

use std::collections::HashMap;
use vstd::prelude::*;

verus! {

/// Machine status.
pub const MSTATUS: u16 = 0x300;

/// Machine ISA.
pub const MISA: u16 = 0x301;

/// Machine exception delegation.
pub const MEDELEG: u16 = 0x302;

/// Machine interrupt delegation.
pub const MIDELEG: u16 = 0x303;

/// Machine interrupt enable.
pub const MIE: u16 = 0x304;

/// Machine trap vector.
pub const MTVEC: u16 = 0x305;

/// Machine counter enable.
pub const MCOUNTEREN: u16 = 0x306;

/// Machine environment configuration.
pub const MENVCFG: u16 = 0x30A;

/// Machine counter inhibit.
pub const MCOUNTINHIBIT: u16 = 0x320;

/// The first event selector, `mhpmevent3`.
pub const MHPMEVENT3_LO: u16 = 0x323;

/// The last event selector, `mhpmevent18`.
pub const MHPMEVENT18_HI: u16 = 0x332;

/// Machine scratch.
pub const MSCRATCH: u16 = 0x340;

/// Machine exception program counter.
pub const MEPC: u16 = 0x341;

/// Machine trap cause.
pub const MCAUSE: u16 = 0x342;

/// Machine trap value.
pub const MTVAL: u16 = 0x343;

/// Machine interrupt pending.
pub const MIP: u16 = 0x344;

/// Machine trap instruction.
pub const MTINST: u16 = 0x34A;

/// Machine second trap value.
pub const MTVAL2: u16 = 0x34B;

/// Physical memory protection configuration 0.
pub const PMPCFG0: u16 = 0x3A0;

/// Physical memory protection configuration 2.
pub const PMPCFG2: u16 = 0x3A2;

/// Vendor id.
pub const MVENDORID: u16 = 0xF11;

/// Architecture id.
pub const MARCHID: u16 = 0xF12;

/// Implementation id.
pub const MIMPID: u16 = 0xF13;

/// Hart id.
pub const MHARTID: u16 = 0xF14;

/// Supervisor status: a view of `MSTATUS`.
pub const SSTATUS: u16 = 0x100;

/// Supervisor exception delegation.
pub const SEDELEG: u16 = 0x102;

/// Supervisor interrupt delegation.
pub const SIDELEG: u16 = 0x103;

/// Supervisor interrupt enable: a view of `MIE`.
pub const SIE: u16 = 0x104;

/// Supervisor trap vector.
pub const STVEC: u16 = 0x105;

/// Supervisor counter enable.
pub const SCOUNTEREN: u16 = 0x106;

/// Supervisor environment configuration: reads as `MENVCFG`.
pub const SENVCFG: u16 = 0x10A;

/// Supervisor scratch.
pub const SSCRATCH: u16 = 0x140;

/// Supervisor exception program counter.
pub const SEPC: u16 = 0x141;

/// Supervisor trap cause.
pub const SCAUSE: u16 = 0x142;

/// Supervisor trap value.
pub const STVAL: u16 = 0x143;

/// Supervisor interrupt pending: a view of `MIP`.
pub const SIP: u16 = 0x144;

/// Supervisor timer compare.
pub const STIMECMP: u16 = 0x14D;

/// Supervisor address translation and protection.
pub const SATP: u16 = 0x180;

/// Hypervisor status.
pub const HSTATUS: u16 = 0x600;

/// Hypervisor exception delegation.
pub const HEDELEG: u16 = 0x602;

/// Hypervisor interrupt delegation.
pub const HIDELEG: u16 = 0x603;

/// Hypervisor counter enable.
pub const HCOUNTEREN: u16 = 0x606;

/// Hypervisor trap value.
pub const HTVAL: u16 = 0x643;

/// Hypervisor trap instruction.
pub const HTINST: u16 = 0x64A;

/// Virtual supervisor status.
pub const VSSTATUS: u16 = 0x200;

/// Virtual supervisor interrupt enable.
pub const VSIE: u16 = 0x204;

/// Virtual supervisor trap vector.
pub const VSTVEC: u16 = 0x205;

/// Virtual supervisor scratch.
pub const VSSCRATCH: u16 = 0x240;

/// Virtual supervisor exception program counter.
pub const VSEPC: u16 = 0x241;

/// Virtual supervisor trap cause.
pub const VSCAUSE: u16 = 0x242;

/// Virtual supervisor trap value.
pub const VSTVAL: u16 = 0x243;

/// Virtual supervisor interrupt pending.
pub const VSIP: u16 = 0x244;

/// Virtual supervisor address translation.
pub const VSATP: u16 = 0x280;

/// Floating-point flags: bits 4:0 of `FCSR`.
pub const FFLAGS: u16 = 0x001;

/// Floating-point rounding mode: bits 7:5 of `FCSR`.
pub const FRM: u16 = 0x002;

/// Floating-point control and status.
pub const FCSR: u16 = 0x003;

/// Trigger select.
pub const TSELECT: u16 = 0x7A0;

/// Trigger data 1.
pub const TDATA1: u16 = 0x7A1;

/// Trigger data 2.
pub const TDATA2: u16 = 0x7A2;

/// Trigger data 3.
pub const TDATA3: u16 = 0x7A3;

/// Trigger info.
pub const TINFO: u16 = 0x7A4;

/// Cycle counter.
pub const CYCLE: u16 = 0xC00;

/// Real-time counter.
pub const TIME: u16 = 0xC01;

/// Instructions retired.
pub const INSTRET: u16 = 0xC02;

/// The first event counter, `mhpmcounter3`.
pub const MHPMEVENT3: u16 = 0xB03;

/// The event counter `mhpmcounter7`.
pub const MHPMEVENT7: u16 = 0xB07;

/// The bits of `MSTATUS` that supervisor mode sees: SD, UXL, MXR, SUM, XS, FS,
/// VS, SPP, UBE, SPIE and SIE.
pub const SSTATUS_MASK: u64 = 0x8000_0003_000D_E762;

/// The supervisor interrupts: SSI, STI and SEI (bits 1, 5 and 9).
pub const S_INTERRUPTS: u64 = 0x222;

/// The bits of `MIDELEG` that cannot be cleared.
pub const MIDELEG_FORCE: u64 = 0x1444;

/// How many debug triggers there are.
pub const NUM_TRIGGERS: u64 = 2;

/// The stored value of a register; a register never written holds 0.
pub open spec fn stored(m: Map<u16, u64>, addr: u16) -> u64 {
    if m.contains_key(addr) {
        m[addr]
    } else {
        0
    }
}

/// `MSTATUS` as it reads for the stored value `raw`: SXL and UXL say 64 bits, and
/// SD says whether FS or VS is dirty.
pub open spec fn mstatus_value(raw: u64) -> u64 {
    let v = (raw & 0x7FFF_FFF0_FFFF_FFFF) | 0xA_0000_0000;
    if (raw >> 13) & 3 == 3 || (raw >> 9) & 3 == 3 {
        v | 0x8000_0000_0000_0000
    } else {
        v
    }
}

/// What reading register `addr` gives.
pub open spec fn csr_read(m: Map<u16, u64>, addr: u16) -> u64 {
    if addr == 0x3c0 {
        0
    } else if addr == TINFO {
        0x44
    } else if addr == MISA {
        (stored(m, MISA) & 0x3FFF_FFFF_FFFF_FFFF) | 0x8000_0000_0000_0000
    } else if addr == MSTATUS {
        mstatus_value(stored(m, MSTATUS))
    } else if addr == SSTATUS {
        mstatus_value(stored(m, MSTATUS)) & SSTATUS_MASK
    } else if addr == SIE {
        stored(m, MIE) & S_INTERRUPTS
    } else if addr == SIP {
        stored(m, MIP) & S_INTERRUPTS
    } else if addr == SENVCFG {
        stored(m, MENVCFG)
    } else if addr == HSTATUS || addr == VSSTATUS {
        (stored(m, addr) & 0xFFFF_FFFC_FFFF_FFFF) | 0x2_0000_0000
    } else if addr == FFLAGS {
        stored(m, FCSR) & 0x1F
    } else if addr == FRM {
        (stored(m, FCSR) >> 5) & 0x7
    } else {
        stored(m, addr)
    }
}

/// `old` with the bits of `mask` taken from `new`.
pub open spec fn merge(old: u64, new: u64, mask: u64) -> u64 {
    (old & !mask) | (new & mask)
}

/// The translation modes of `SATP` that exist: Bare, Sv39, Sv48 and Sv57.
pub open spec fn satp_mode_supported(value: u64) -> bool {
    let mode = (value >> 60) & 0xF;
    mode == 0 || mode == 8 || mode == 9 || mode == 10
}

/// The registers after `value` was written to register `addr`.
pub open spec fn csr_write(m: Map<u16, u64>, addr: u16, value: u64) -> Map<u16, u64> {
    if addr == 0x3c0 || addr == TINFO {
        m
    } else if addr == MSTATUS {
        m.insert(MSTATUS, value & 0x7FFF_FFFF_FFFF_FFFF)
    } else if addr == SSTATUS {
        m.insert(
            MSTATUS,
            merge(stored(m, MSTATUS), value, SSTATUS_MASK) & 0x7FFF_FFFF_FFFF_FFFF,
        )
    } else if addr == FFLAGS {
        m.insert(FCSR, merge(stored(m, FCSR), value, 0x1F))
    } else if addr == FRM {
        m.insert(FCSR, (stored(m, FCSR) & !0xE0) | ((value & 0x7) << 5))
    } else if addr == SIE {
        m.insert(MIE, merge(stored(m, MIE), value, S_INTERRUPTS))
    } else if addr == SIP {
        m.insert(MIP, merge(stored(m, MIP), value, 0x2))
    } else if addr == TSELECT {
        if value < NUM_TRIGGERS {
            m.insert(TSELECT, value)
        } else {
            m
        }
    } else if addr == MIDELEG {
        m.insert(MIDELEG, (value & 0xFFFF) | MIDELEG_FORCE)
    } else if addr == MIP {
        m.insert(MIP, merge(stored(m, MIP), value, S_INTERRUPTS))
    } else if addr == SATP {
        if satp_mode_supported(value) {
            m.insert(SATP, value)
        } else {
            m
        }
    } else {
        m.insert(addr, value)
    }
}

/// The registers after the interrupt lines drove `MIP` to `lines`. Unlike software
/// the lines reach every bit.
pub open spec fn csr_wire(m: Map<u16, u64>, lines: u64) -> Map<u16, u64> {
    m.insert(MIP, lines)
}

/// The registers after reset: those that do not start at 0.
pub open spec fn csr_reset() -> Map<u16, u64> {
    Map::<u16, u64>::empty().insert(MSTATUS, 0xA_0000_0000).insert(
        MISA,
        0x8000_0000_0014_11ad,
    ).insert(MENVCFG, 0xA000_0000_0000_0000).insert(MEDELEG, 0xf4_b509).insert(
        MIDELEG,
        0x1666,
    ).insert(STIMECMP, u64::MAX).insert(HSTATUS, 0x2_0000_0000).insert(VSSTATUS, 0xA_0000_0000)
}

/// Register `addr` exists.
pub open spec fn valid_csr(addr: u16) -> bool {
    ||| 0x300 <= addr <= 0x306
    ||| addr == MENVCFG
    ||| addr == MCOUNTINHIBIT
    ||| MSCRATCH <= addr <= MIP
    ||| addr == MTINST
    ||| addr == MTVAL2
    ||| MVENDORID <= addr <= MHARTID
    ||| MHPMEVENT3_LO <= addr <= MHPMEVENT18_HI
    ||| 0x3A0 <= addr <= 0x3A3
    ||| 0x3B0 <= addr <= 0x3EF
    ||| addr == SSTATUS
    ||| SEDELEG <= addr <= SCOUNTEREN
    ||| addr == SENVCFG
    ||| SSCRATCH <= addr <= SIP
    ||| addr == STIMECMP
    ||| addr == SATP
    ||| addr == HSTATUS
    ||| addr == HEDELEG
    ||| addr == HIDELEG
    ||| addr == HCOUNTEREN
    ||| addr == HTVAL
    ||| addr == HTINST
    ||| addr == VSSTATUS
    ||| addr == VSIE
    ||| addr == VSTVEC
    ||| VSSCRATCH <= addr <= VSIP
    ||| addr == VSATP
    ||| TSELECT <= addr <= TINFO
    ||| FFLAGS <= addr <= FCSR
    ||| CYCLE <= addr <= INSTRET
    ||| 0xB03 <= addr <= 0xB12
}

/// The lowest privilege level that may access register `addr`: bits 9:8 of its
/// address.
pub open spec fn csr_privilege(addr: u16) -> u8 {
    ((addr >> 8) & 0x3) as u8
}

/// Register `addr` is read-only: bits 11:10 of its address are ones.
pub open spec fn csr_readonly(addr: u16) -> bool {
    (addr >> 10) & 0x3 == 0x3
}

/// The register file.
pub struct Csr {
    regs: HashMap<u16, u64>,
}

impl View for Csr {
    type V = Map<u16, u64>;

    closed spec fn view(&self) -> Map<u16, u64> {
        self.regs@
    }
}

impl Csr {
    /// The registers after reset.
    pub fn new() -> (c: Self)
        ensures
            c@ == csr_reset(),
    {
        broadcast use vstd::std_specs::hash::group_hash_axioms;

        let mut regs: HashMap<u16, u64> = HashMap::new();
        regs.insert(MSTATUS, 0xA_0000_0000);
        regs.insert(MISA, 0x8000_0000_0014_11ad);
        // STCE lets supervisor mode use its own timer compare; CBZE allows cbo.zero.
        regs.insert(MENVCFG, 0xA000_0000_0000_0000);
        regs.insert(MEDELEG, 0xf4_b509);
        regs.insert(MIDELEG, 0x1666);
        // The supervisor timer starts disabled.
        regs.insert(STIMECMP, u64::MAX);
        regs.insert(HSTATUS, 0x2_0000_0000);
        regs.insert(VSSTATUS, 0xA_0000_0000);
        Self { regs }
    }

    /// The stored value of a register.
    fn get(&self, addr: u16) -> (v: u64)
        ensures
            v == stored(self@, addr),
    {
        broadcast use vstd::std_specs::hash::group_hash_axioms;

        match self.regs.get(&addr) {
            Some(v) => *v,
            None => 0,
        }
    }

    /// Stores a value.
    fn set(&mut self, addr: u16, value: u64)
        ensures
            final(self)@ == old(self)@.insert(addr, value),
    {
        broadcast use vstd::std_specs::hash::group_hash_axioms;

        self.regs.insert(addr, value);
    }

    /// The lowest privilege level that may access register `addr` (0 user,
    /// 1 supervisor, 2 hypervisor, 3 machine).
    #[inline]
    pub fn get_csr_privilege(addr: u16) -> (p: u8)
        ensures
            p == csr_privilege(addr),
            p <= 3,
    {
        let p: u16 = (addr >> 8) & 0x3;
        assert((addr >> 8) & 0x3 <= 3) by (bit_vector);
        p as u8
    }

    /// Whether register `addr` is read-only.
    #[inline]
    pub fn is_csr_readonly(addr: u16) -> (b: bool)
        ensures
            b == csr_readonly(addr),
    {
        ((addr >> 10) & 0x3) == 0x3
    }

    /// Whether privilege level `mode` may access register `addr`, for writing if
    /// `is_write`.
    pub fn check_csr_privilege(addr: u16, mode: u8, is_write: bool) -> (b: bool)
        ensures
            b == (mode >= csr_privilege(addr) && !(is_write && csr_readonly(addr))),
    {
        let required: u8 = Self::get_csr_privilege(addr);
        if mode < required {
            return false;
        }
        if is_write && Self::is_csr_readonly(addr) {
            return false;
        }
        true
    }

    /// Whether register `addr` exists.
    pub fn is_valid_csr(addr: u16) -> (b: bool)
        ensures
            b == valid_csr(addr),
    {
        // Machine registers.
        if addr == MSTATUS || addr == MISA || addr == MEDELEG || addr == MIDELEG || addr == MIE
            || addr == MTVEC || addr == MCOUNTEREN || addr == MENVCFG || addr == MCOUNTINHIBIT {
            return true;
        }
        if addr == MSCRATCH || addr == MEPC || addr == MCAUSE || addr == MTVAL || addr == MIP
            || addr == MTINST || addr == MTVAL2 {
            return true;
        }
        if addr == MVENDORID || addr == MARCHID || addr == MIMPID || addr == MHARTID {
            return true;
        }
        // Event selectors, and the configuration and address registers of the
        // physical memory protection.
        if (0x323 <= addr && addr <= 0x332) || (0x3A0 <= addr && addr <= 0x3A3) || (0x3B0 <= addr
            && addr <= 0x3EF) {
            return true;
        }
        // Supervisor registers.
        if addr == SSTATUS || addr == SEDELEG || addr == SIDELEG || addr == SIE || addr == STVEC
            || addr == SCOUNTEREN || addr == SENVCFG {
            return true;
        }
        if addr == SSCRATCH || addr == SEPC || addr == SCAUSE || addr == STVAL || addr == SIP
            || addr == STIMECMP || addr == SATP {
            return true;
        }
        // Hypervisor and virtual supervisor registers.
        if addr == HSTATUS || addr == HEDELEG || addr == HIDELEG || addr == HCOUNTEREN || addr
            == HTVAL || addr == HTINST {
            return true;
        }
        if addr == VSSTATUS || addr == VSIE || addr == VSTVEC || addr == VSSCRATCH || addr == VSEPC
            || addr == VSCAUSE || addr == VSTVAL || addr == VSIP || addr == VSATP {
            return true;
        }
        // Triggers, floating point, user counters and event counters 3 to 18.
        if addr == TSELECT || addr == TDATA1 || addr == TDATA2 || addr == TDATA3 || addr == TINFO {
            return true;
        }
        if addr == FFLAGS || addr == FRM || addr == FCSR || addr == CYCLE || addr == TIME || addr
            == INSTRET {
            return true;
        }
        0xB03 <= addr && addr <= 0xB12
    }

    /// `MSTATUS` with its computed fields.
    fn read_mstatus(&self) -> (v: u64)
        ensures
            v == mstatus_value(stored(self@, MSTATUS)),
    {
        let raw: u64 = self.get(MSTATUS);
        let v: u64 = (raw & 0x7FFF_FFF0_FFFF_FFFF) | 0xA_0000_0000;
        if (raw >> 13) & 3 == 3 || (raw >> 9) & 3 == 3 {
            v | 0x8000_0000_0000_0000
        } else {
            v
        }
    }

    /// Reads a register.
    pub fn read(&self, addr: u16) -> (v: u64)
        ensures
            v == csr_read(self@, addr),
    {
        if addr == 0x3c0 {
            // An address that reads as zero.
            0
        } else if addr == TINFO {
            0x44
        } else if addr == MISA {
            (self.get(MISA) & 0x3FFF_FFFF_FFFF_FFFF) | 0x8000_0000_0000_0000
        } else if addr == MSTATUS {
            self.read_mstatus()
        } else if addr == SSTATUS {
            self.read_mstatus() & SSTATUS_MASK
        } else if addr == SIE {
            self.get(MIE) & S_INTERRUPTS
        } else if addr == SIP {
            self.get(MIP) & S_INTERRUPTS
        } else if addr == SENVCFG {
            self.get(MENVCFG)
        } else if addr == HSTATUS || addr == VSSTATUS {
            (self.get(addr) & 0xFFFF_FFFC_FFFF_FFFF) | 0x2_0000_0000
        } else if addr == FFLAGS {
            self.get(FCSR) & 0x1F
        } else if addr == FRM {
            (self.get(FCSR) >> 5) & 0x7
        } else {
            self.get(addr)
        }
    }

    /// Writes a register.
    pub fn write(&mut self, addr: u16, value: u64)
        ensures
            final(self)@ == csr_write(old(self)@, addr, value),
    {
        if addr == 0x3c0 || addr == TINFO {
            // Read-only.
        } else if addr == MSTATUS {
            self.set(MSTATUS, value & 0x7FFF_FFFF_FFFF_FFFF);
        } else if addr == SSTATUS {
            let old_mstatus: u64 = self.get(MSTATUS);
            let merged: u64 = (old_mstatus & !SSTATUS_MASK) | (value & SSTATUS_MASK);
            self.set(MSTATUS, merged & 0x7FFF_FFFF_FFFF_FFFF);
        } else if addr == FFLAGS {
            let old_fcsr: u64 = self.get(FCSR);
            self.set(FCSR, (old_fcsr & !0x1F) | (value & 0x1F));
        } else if addr == FRM {
            let old_fcsr: u64 = self.get(FCSR);
            self.set(FCSR, (old_fcsr & !0xE0) | ((value & 0x7) << 5));
        } else if addr == SIE {
            let old_mie: u64 = self.get(MIE);
            self.set(MIE, (old_mie & !S_INTERRUPTS) | (value & S_INTERRUPTS));
        } else if addr == SIP {
            // Only the software interrupt can be written here.
            let old_mip: u64 = self.get(MIP);
            self.set(MIP, (old_mip & !0x2) | (value & 0x2));
        } else if addr == TSELECT {
            if value < NUM_TRIGGERS {
                self.set(TSELECT, value);
            }
        } else if addr == MIDELEG {
            self.set(MIDELEG, (value & 0xFFFF) | MIDELEG_FORCE);
        } else if addr == MIP {
            // The machine interrupts are wired, not written.
            let old_mip: u64 = self.get(MIP);
            self.set(MIP, (old_mip & !S_INTERRUPTS) | (value & S_INTERRUPTS));
        } else if addr == SATP {
            let mode: u64 = (value >> 60) & 0xF;
            if mode == 0 || mode == 8 || mode == 9 || mode == 10 {
                self.set(SATP, value);
            }
        } else {
            self.set(addr, value);
        }
    }

    /// Drives `MIP` from the interrupt lines: every bit takes its line.
    pub fn wire_mip(&mut self, lines: u64)
        ensures
            final(self)@ == csr_wire(old(self)@, lines),
    {
        self.set(MIP, lines);
    }

    /// Writes a register and returns what it read before.
    pub fn csrrw(&mut self, addr: u16, value: u64) -> (old_value: u64)
        ensures
            old_value == csr_read(old(self)@, addr),
            final(self)@ == csr_write(old(self)@, addr, value),
    {
        let before: u64 = self.read(addr);
        self.write(addr, value);
        before
    }

    /// Sets the bits of `mask` in a register and returns what it read before. An
    /// empty mask writes nothing.
    pub fn csrrs(&mut self, addr: u16, mask: u64) -> (old_value: u64)
        ensures
            old_value == csr_read(old(self)@, addr),
            final(self)@ == if mask == 0 {
                old(self)@
            } else {
                csr_write(old(self)@, addr, old_value | mask)
            },
    {
        let before: u64 = self.read(addr);
        if mask != 0 {
            self.write(addr, before | mask);
        }
        before
    }

    /// Clears the bits of `mask` in a register and returns what it read before.
    /// An empty mask writes nothing.
    pub fn csrrc(&mut self, addr: u16, mask: u64) -> (old_value: u64)
        ensures
            old_value == csr_read(old(self)@, addr),
            final(self)@ == if mask == 0 {
                old(self)@
            } else {
                csr_write(old(self)@, addr, old_value & !mask)
            },
    {
        let before: u64 = self.read(addr);
        if mask != 0 {
            self.write(addr, before & !mask);
        }
        before
    }
}

impl Default for Csr {
    fn default() -> (c: Self)
        ensures
            c@ == csr_reset(),
    {
        Self::new()
    }
}

/// Registers that have neither a view onto others nor read-only parts.
pub open spec fn plain_csr(addr: u16) -> bool {
    !(addr == 0x3c0 || addr == TINFO || addr == MISA || addr == MSTATUS || addr == SSTATUS || addr
        == SIE || addr == SIP || addr == SENVCFG || addr == HSTATUS || addr == VSSTATUS || addr
        == FFLAGS || addr == FRM || addr == TSELECT || addr == MIDELEG || addr == MIP || addr
        == SATP)
}

/// A plain register reads back what was written to it.
pub proof fn law_plain_csr_reads_back(m: Map<u16, u64>, addr: u16, value: u64)
    requires
        plain_csr(addr),
    ensures
        csr_read(csr_write(m, addr, value), addr) == value,
{
}

/// The register that a write to `addr` changes.
pub open spec fn csr_target(addr: u16) -> u16 {
    if addr == SSTATUS {
        MSTATUS
    } else if addr == SIE {
        MIE
    } else if addr == SIP {
        MIP
    } else if addr == FFLAGS || addr == FRM {
        FCSR
    } else {
        addr
    }
}

/// The register that a read of `addr` looks at.
pub open spec fn csr_source(addr: u16) -> u16 {
    if addr == SENVCFG {
        MENVCFG
    } else {
        csr_target(addr)
    }
}

/// A write shows only in the registers that look at what it changes.
pub proof fn law_csr_writes_are_local(m: Map<u16, u64>, addr: u16, value: u64, other: u16)
    requires
        csr_source(other) != csr_target(addr),
    ensures
        csr_read(csr_write(m, addr, value), other) == csr_read(m, other),
{
}

/// Writes to the read-only registers, of an unsupported translation mode and of
/// a trigger that does not exist are ignored.
pub proof fn law_ignored_writes(m: Map<u16, u64>, value: u64)
    ensures
        csr_write(m, TINFO, value) == m,
        csr_read(m, TINFO) == 0x44,
        csr_write(m, 0x3c0, value) == m,
        csr_read(m, 0x3c0) == 0,
        !satp_mode_supported(value) ==> csr_write(m, SATP, value) == m,
        satp_mode_supported(value) ==> csr_read(csr_write(m, SATP, value), SATP) == value,
        value >= NUM_TRIGGERS ==> csr_write(m, TSELECT, value) == m,
        value < NUM_TRIGGERS ==> csr_read(csr_write(m, TSELECT, value), TSELECT) == value,
{
}

/// `MSTATUS` reads back what was written but for SXL and UXL, which say 64 bits,
/// and SD, which is set exactly when FS or VS is dirty.
pub proof fn law_mstatus(m: Map<u16, u64>, value: u64)
    ensures
        ({
            let v = csr_read(csr_write(m, MSTATUS, value), MSTATUS);
            &&& v & 0x7FFF_FFF0_FFFF_FFFF == value & 0x7FFF_FFF0_FFFF_FFFF
            &&& v & 0xF_0000_0000 == 0xA_0000_0000
            &&& (v >= 0x8000_0000_0000_0000) == ((value >> 13) & 3 == 3 || (value >> 9) & 3 == 3)
        }),
{
    let w = value & 0x7FFF_FFFF_FFFF_FFFF;
    assert({
        let x = (w & 0x7FFF_FFF0_FFFF_FFFF) | 0xA_0000_0000;
        let d = (w >> 13) & 3 == 3 || (w >> 9) & 3 == 3;
        let v = if d { x | 0x8000_0000_0000_0000 } else { x };
        &&& v & 0x7FFF_FFF0_FFFF_FFFF == value & 0x7FFF_FFF0_FFFF_FFFF
        &&& v & 0xF_0000_0000 == 0xA_0000_0000
        &&& (v >= 0x8000_0000_0000_0000) == ((value >> 13) & 3 == 3 || (value >> 9) & 3 == 3)
    }) by (bit_vector)
        requires
            w == value & 0x7FFF_FFFF_FFFF_FFFF,
    ;
}

/// `SSTATUS` is a view of `MSTATUS`: it reads as the part of `MSTATUS` under its
/// mask, a write to it leaves the rest of `MSTATUS` alone, and it reads back what
/// was written but for UXL and SD.
pub proof fn law_sstatus_is_a_view(m: Map<u16, u64>, value: u64)
    ensures
        csr_read(m, SSTATUS) == csr_read(m, MSTATUS) & SSTATUS_MASK,
        ({
            let after = csr_write(m, SSTATUS, value);
            &&& csr_read(after, MSTATUS) & !SSTATUS_MASK == csr_read(m, MSTATUS) & !SSTATUS_MASK
            &&& csr_read(after, SSTATUS) & 0xD_E762 == value & 0xD_E762
            &&& csr_read(after, SSTATUS) & 0x3_0000_0000 == 0x2_0000_0000
        }),
{
    let raw = stored(m, MSTATUS);
    let new = merge(raw, value, SSTATUS_MASK) & 0x7FFF_FFFF_FFFF_FFFF;
    let mask = SSTATUS_MASK;
    assert({
        let x = (raw & 0x7FFF_FFF0_FFFF_FFFF) | 0xA_0000_0000;
        let v = if (raw >> 13) & 3 == 3 || (raw >> 9) & 3 == 3 {
            x | 0x8000_0000_0000_0000
        } else {
            x
        };
        let y = (new & 0x7FFF_FFF0_FFFF_FFFF) | 0xA_0000_0000;
        let w = if (new >> 13) & 3 == 3 || (new >> 9) & 3 == 3 {
            y | 0x8000_0000_0000_0000
        } else {
            y
        };
        &&& w & !mask == v & !mask
        &&& (w & mask) & 0xD_E762 == value & 0xD_E762
        &&& (w & mask) & 0x3_0000_0000 == 0x2_0000_0000
    }) by (bit_vector)
        requires
            mask == 0x8000_0003_000D_E762u64,
            new == ((raw & !mask) | (value & mask)) & 0x7FFF_FFFF_FFFF_FFFF,
    ;
}

/// `SIE` and `SIP` are views of `MIE` and `MIP`: they show the supervisor
/// interrupts. Through `SIE` those can be written, through `SIP` only the
/// software interrupt; the rest of `MIE` and `MIP` stays.
pub proof fn law_sie_and_sip_are_views(m: Map<u16, u64>, value: u64)
    ensures
        csr_read(m, SIE) == csr_read(m, MIE) & S_INTERRUPTS,
        csr_read(m, SIP) == csr_read(m, MIP) & S_INTERRUPTS,
        csr_read(csr_write(m, SIE, value), MIE) & !S_INTERRUPTS == csr_read(m, MIE)
            & !S_INTERRUPTS,
        csr_read(csr_write(m, SIE, value), SIE) == value & S_INTERRUPTS,
        csr_read(csr_write(m, SIP, value), MIP) & !0x2u64 == csr_read(m, MIP) & !0x2u64,
        csr_read(csr_write(m, SIP, value), SIP) & 0x2 == value & 0x2,
{
    let mie = stored(m, MIE);
    let mip = stored(m, MIP);
    let s = S_INTERRUPTS;
    assert({
        let e = (mie & !s) | (value & s);
        let p = (mip & !0x2) | (value & 0x2);
        &&& e & !s == mie & !s
        &&& e & s == value & s
        &&& p & !0x2u64 == mip & !0x2u64
        &&& (p & s) & 0x2 == value & 0x2
    }) by (bit_vector)
        requires
            s == 0x222u64,
    ;
}

/// Software cannot write the machine interrupts in `MIP`, and cannot clear the
/// forced bits of `MIDELEG`.
pub proof fn law_wired_bits(m: Map<u16, u64>, value: u64)
    ensures
        csr_read(csr_write(m, MIP, value), MIP) & !S_INTERRUPTS == csr_read(m, MIP)
            & !S_INTERRUPTS,
        csr_read(csr_write(m, MIP, value), MIP) & S_INTERRUPTS == value & S_INTERRUPTS,
        csr_read(csr_write(m, MIDELEG, value), MIDELEG) & MIDELEG_FORCE == MIDELEG_FORCE,
{
    let mip = stored(m, MIP);
    let s = S_INTERRUPTS;
    let f = MIDELEG_FORCE;
    assert({
        let p = (mip & !s) | (value & s);
        &&& p & !s == mip & !s
        &&& p & s == value & s
        &&& ((value & 0xFFFF) | f) & f == f
    }) by (bit_vector);
}

/// What the lines drive into `MIP` is read there, and in `SIP` as far as it shows;
/// no other register changes.
pub proof fn law_lines_reach_mip(m: Map<u16, u64>, lines: u64, other: u16)
    ensures
        csr_read(csr_wire(m, lines), MIP) == lines,
        csr_read(csr_wire(m, lines), SIP) == lines & S_INTERRUPTS,
        other != MIP && other != SIP ==> csr_read(csr_wire(m, lines), other) == csr_read(m, other),
{
}

/// `FFLAGS` and `FRM` are the low five and the next three bits of `FCSR`, and
/// writing one leaves the other alone.
pub proof fn law_fcsr_fields(m: Map<u16, u64>, value: u64)
    ensures
        csr_read(m, FFLAGS) == csr_read(m, FCSR) & 0x1F,
        csr_read(m, FRM) == (csr_read(m, FCSR) >> 5) & 0x7,
        csr_read(csr_write(m, FFLAGS, value), FFLAGS) == value & 0x1F,
        csr_read(csr_write(m, FFLAGS, value), FRM) == csr_read(m, FRM),
        csr_read(csr_write(m, FRM, value), FRM) == value & 0x7,
        csr_read(csr_write(m, FRM, value), FFLAGS) == csr_read(m, FFLAGS),
{
    let f = stored(m, FCSR);
    assert({
        let a = (f & !0x1F) | (value & 0x1F);
        let b = (f & !0xE0) | ((value & 0x7) << 5);
        &&& a & 0x1F == value & 0x1F
        &&& (a >> 5) & 0x7 == (f >> 5) & 0x7
        &&& (b >> 5) & 0x7 == value & 0x7
        &&& b & 0x1F == f & 0x1F
    }) by (bit_vector);
}

} // verus!
