use riscv64_emulator::csr::{
    Csr, CYCLE, FCSR, FFLAGS, FRM, HSTATUS, MCAUSE, MEDELEG, MENVCFG, MEPC, MHARTID, MIDELEG, MIE,
    MIP, MISA, MSCRATCH, MSTATUS, SATP, SENVCFG, SIE, SIP, SSTATUS, STIMECMP, TDATA1, TIME, TINFO,
    TSELECT, VSSTATUS,
};

#[test]
fn reset_values() {
    let c = Csr::default();
    assert_eq!(c.read(MSTATUS), 0xA_0000_0000);
    assert_eq!(c.read(SSTATUS), 0x2_0000_0000);
    assert_eq!(c.read(MISA), 0x8000_0000_0014_11ad);
    assert_eq!(c.read(MENVCFG), 0xA000_0000_0000_0000);
    assert_eq!(c.read(SENVCFG), 0xA000_0000_0000_0000);
    assert_eq!(c.read(MEDELEG), 0xf4_b509);
    assert_eq!(c.read(MIDELEG), 0x1666);
    assert_eq!(c.read(MIP), 0);
    assert_eq!(c.read(STIMECMP), u64::MAX);
    assert_eq!(c.read(HSTATUS), 0x2_0000_0000);
    assert_eq!(c.read(VSSTATUS), 0xA_0000_0000);
    assert_eq!(c.read(MHARTID), 0);
    assert_eq!(c.read(TINFO), 0x44);
    assert_eq!(c.read(0x3c0), 0);
    assert_eq!(c.read(MSCRATCH), 0);
    assert_eq!(c.read(0x323), 0);
}

#[test]
fn plain_csrs_read_back() {
    let mut c = Csr::new();
    for r in [MSCRATCH, MEPC, MCAUSE, TDATA1, STIMECMP, FCSR, MIE] {
        c.write(r, 0xDEAD_BEEF_0123_4567);
        assert_eq!(c.read(r), 0xDEAD_BEEF_0123_4567);
    }
}

#[test]
fn mstatus_computes_its_fields() {
    let mut c = Csr::new();
    c.write(MSTATUS, u64::MAX);
    assert_eq!(c.read(MSTATUS), 0xFFFF_FFFA_FFFF_FFFF);
    c.write(MSTATUS, 0x8000_0000_0000_0000);
    assert_eq!(c.read(MSTATUS), 0xA_0000_0000);
    c.write(MSTATUS, 0x6000);
    assert_eq!(c.read(MSTATUS), 0x8000_000A_0000_6000);
    c.write(MSTATUS, 0x4000);
    assert_eq!(c.read(MSTATUS), 0xA_0000_4000);
    c.write(MSTATUS, 0x600);
    assert_eq!(c.read(MSTATUS), 0x8000_000A_0000_0600);
}

#[test]
fn sstatus_is_a_view_of_mstatus() {
    let mut c = Csr::new();
    c.write(MSTATUS, 0x1888);
    assert_eq!(c.read(SSTATUS), 0x2_0000_0000);
    c.write(SSTATUS, 0x122);
    assert_eq!(c.read(MSTATUS), 0xA_0000_19AA);
    assert_eq!(c.read(SSTATUS), 0x2_0000_0122);
    c.write(SSTATUS, 0xFFFF_FFFF_FFFF_FFFF);
    assert_eq!(c.read(SSTATUS), 0x8000_0002_000D_E762);
    c.write(SSTATUS, 0);
    assert_eq!(c.read(MSTATUS), 0xA_0000_1888);
}

#[test]
fn supervisor_interrupt_registers_are_views() {
    let mut c = Csr::new();
    c.write(MIE, 0xFFF);
    assert_eq!(c.read(SIE), 0x222);
    c.write(SIE, 0x20);
    assert_eq!(c.read(MIE), 0xDFD & !0x200 | 0x20);
    c.write(MIP, 0xFFF);
    assert_eq!(c.read(MIP), 0x222);
    c.write(SIP, 0);
    assert_eq!(c.read(MIP), 0x220);
    assert_eq!(c.read(SIP), 0x220);
    c.write(SIP, 0xFFF);
    assert_eq!(c.read(SIP), 0x222);
}

#[test]
fn the_lines_reach_what_software_cannot_write() {
    let mut c = Csr::new();
    c.write(MIE, 0x123);
    c.wire_mip(0xAAA);
    assert_eq!(c.read(MIP), 0xAAA);
    assert_eq!(c.read(SIP), 0x222);
    assert_eq!(c.read(MIE), 0x123);
    c.write(MIP, 0);
    assert_eq!(c.read(MIP), 0x888);
    c.wire_mip(0);
    assert_eq!(c.read(MIP), 0);
}

#[test]
fn delegation_keeps_the_forced_bits() {
    let mut c = Csr::new();
    c.write(MIDELEG, 0);
    assert_eq!(c.read(MIDELEG), 0x1444);
    c.write(MIDELEG, u64::MAX);
    assert_eq!(c.read(MIDELEG), 0xFFFF);
}

#[test]
fn satp_takes_supported_modes_only() {
    let mut c = Csr::new();
    for mode in [8u64, 9, 10, 0] {
        c.write(SATP, mode << 60 | 0x1234);
        assert_eq!(c.read(SATP), mode << 60 | 0x1234);
    }
    for mode in [1u64, 7, 11, 15] {
        c.write(SATP, mode << 60 | 0x5678);
        assert_eq!(c.read(SATP), 0x1234);
    }
}

#[test]
fn ignored_writes() {
    let mut c = Csr::new();
    c.write(TINFO, 1);
    assert_eq!(c.read(TINFO), 0x44);
    c.write(0x3c0, 1);
    assert_eq!(c.read(0x3c0), 0);
    c.write(TSELECT, 1);
    c.write(TSELECT, 2);
    assert_eq!(c.read(TSELECT), 1);
}

#[test]
fn floating_point_fields() {
    let mut c = Csr::new();
    c.write(FCSR, 0xFF);
    assert_eq!(c.read(FFLAGS), 0x1F);
    assert_eq!(c.read(FRM), 0x7);
    c.write(FRM, 0x2);
    assert_eq!(c.read(FCSR), 0x5F);
    c.write(FFLAGS, 0x21);
    assert_eq!(c.read(FCSR), 0x41);
}

#[test]
fn fixed_width_fields() {
    let mut c = Csr::new();
    c.write(MISA, 0);
    assert_eq!(c.read(MISA), 0x8000_0000_0000_0000);
    c.write(HSTATUS, u64::MAX);
    assert_eq!(c.read(HSTATUS), 0xFFFF_FFFE_FFFF_FFFF);
    c.write(VSSTATUS, 0);
    assert_eq!(c.read(VSSTATUS), 0x2_0000_0000);
}

#[test]
fn read_and_modify() {
    let mut c = Csr::new();
    assert_eq!(c.csrrw(MSCRATCH, 0xF0), 0);
    assert_eq!(c.csrrs(MSCRATCH, 0x0F), 0xF0);
    assert_eq!(c.csrrc(MSCRATCH, 0xF1), 0xFF);
    assert_eq!(c.csrrs(MSCRATCH, 0), 0x0E);
    assert_eq!(c.csrrc(MSCRATCH, 0), 0x0E);
    assert_eq!(c.read(MSCRATCH), 0x0E);
}

#[test]
fn privilege_of_addresses() {
    assert_eq!(Csr::get_csr_privilege(CYCLE), 0);
    assert_eq!(Csr::get_csr_privilege(SATP), 1);
    assert_eq!(Csr::get_csr_privilege(HSTATUS), 2);
    assert_eq!(Csr::get_csr_privilege(MSTATUS), 3);
    assert!(Csr::is_csr_readonly(TIME));
    assert!(Csr::is_csr_readonly(MHARTID));
    assert!(!Csr::is_csr_readonly(MSTATUS));
    assert!(Csr::check_csr_privilege(MSTATUS, 3, true));
    assert!(!Csr::check_csr_privilege(MSTATUS, 1, false));
    assert!(Csr::check_csr_privilege(TIME, 0, false));
    assert!(!Csr::check_csr_privilege(TIME, 3, true));
}

#[test]
fn existing_registers() {
    for a in [
        0x001u16, 0x003, 0x100, 0x102, 0x106, 0x10A, 0x140, 0x144, 0x14D, 0x180, 0x200, 0x204,
        0x205, 0x240, 0x244, 0x280, 0x300, 0x306, 0x30A, 0x320, 0x323, 0x332, 0x340, 0x344, 0x34A,
        0x34B, 0x3A0, 0x3A3, 0x3B0, 0x3C0, 0x3EF, 0x600, 0x602, 0x603, 0x606, 0x643, 0x64A, 0x7A0,
        0x7A4, 0xB03, 0xB12, 0xC00, 0xC02, 0xF11, 0xF14,
    ] {
        assert!(Csr::is_valid_csr(a), "{a:#x}");
    }
    for a in [
        0x000u16, 0x004, 0x101, 0x107, 0x145, 0x14C, 0x181, 0x201, 0x245, 0x307, 0x321, 0x322,
        0x333, 0x345, 0x349, 0x34C, 0x39F, 0x3A4, 0x3AF, 0x3F0, 0x601, 0x604, 0x644, 0x7A5, 0xB00,
        0xB02, 0xB13, 0xC03, 0xF10, 0xF15, 0xFFF,
    ] {
        assert!(!Csr::is_valid_csr(a), "{a:#x}");
    }
}
