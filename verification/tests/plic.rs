use riscv64_emulator::plic::Plic;

const PENDING: u64 = 0x1000;
const ENABLE0: u64 = 0x2000;
const ENABLE1: u64 = 0x2080;
const CLAIM0: u64 = 0x20_0004;
const CLAIM1: u64 = 0x20_1004;

fn enabled(irqs: &[(u32, u32)]) -> Plic {
    let mut p = Plic::new();
    for i in 0..32 {
        p.write32(ENABLE0 + 4 * i, u32::MAX).unwrap();
    }
    for (irq, prio) in irqs {
        p.write32(4 * *irq as u64, *prio).unwrap();
    }
    p
}

#[test]
fn nothing_is_pending_after_reset() {
    let mut p = Plic::default();
    assert!(!p.has_pending_interrupt(0));
    assert!(!p.has_pending_interrupt(1));
    assert_eq!(p.claim_interrupt(0), 0);
}

#[test]
fn the_highest_priority_is_claimed_first() {
    let mut p = enabled(&[(3, 1), (40, 5), (1023, 7), (41, 5)]);
    for irq in [3, 40, 41, 1023] {
        p.set_pending(irq);
    }
    assert!(p.has_pending_interrupt(0));
    assert!(!p.has_pending_interrupt(1));
    assert_eq!(p.read32(CLAIM0), Ok(1023));
    assert_eq!(p.read32(CLAIM0), Ok(40));
    assert_eq!(p.read32(CLAIM0), Ok(41));
    assert_eq!(p.claim_interrupt(0), 3);
    assert_eq!(p.claim_interrupt(0), 0);
    assert!(!p.has_pending_interrupt(0));
}

#[test]
fn the_threshold_hides_interrupts() {
    let mut p = enabled(&[(5, 3)]);
    p.set_pending(5);
    p.write32(0x20_0000, 3).unwrap();
    assert_eq!(p.read32(0x20_0000), Ok(3));
    assert!(!p.has_pending_interrupt(0));
    assert_eq!(p.claim_interrupt(0), 0);
    p.write32(0x20_0000, 2).unwrap();
    assert_eq!(p.claim_interrupt(0), 5);
}

#[test]
fn priority_zero_is_never_delivered() {
    let mut p = enabled(&[(5, 8)]);
    // Three bits are kept.
    assert_eq!(p.read32(20), Ok(0));
    p.set_pending(5);
    assert!(!p.has_pending_interrupt(0));
}

#[test]
fn contexts_have_their_own_enables() {
    let mut p = Plic::new();
    p.write32(4 * 33, 1).unwrap();
    p.write32(ENABLE1 + 4, 2).unwrap();
    p.set_pending(33);
    assert_eq!(p.read32(ENABLE1 + 4), Ok(2));
    assert_eq!(p.read32(ENABLE0 + 4), Ok(0));
    assert!(!p.has_pending_interrupt(0));
    assert!(p.has_pending_interrupt(1));
    assert!(!p.has_pending_interrupt(2));
    assert_eq!(p.claim_interrupt(2), 0);
    assert_eq!(p.read32(CLAIM1), Ok(33));
}

#[test]
fn pending_bits_stand_where_the_hardware_has_them() {
    let mut p = Plic::new();
    p.set_pending(1);
    p.set_pending(31);
    p.set_pending(32);
    p.set_pending(0);
    p.set_pending(1024);
    assert_eq!(p.read32(PENDING), Ok(0x8000_0002));
    assert_eq!(p.read32(PENDING + 4), Ok(1));
    p.clear_pending(31);
    assert_eq!(p.read32(PENDING), Ok(2));
    // Ones clear.
    p.write32(PENDING, 2).unwrap();
    assert_eq!(p.read32(PENDING), Ok(0));
    assert_eq!(p.read32(PENDING + 4), Ok(1));
}

#[test]
fn source_zero_is_reserved() {
    let mut p = enabled(&[(0, 7)]);
    p.set_pending(0);
    assert_eq!(p.claim_interrupt(0), 0);
    assert!(!p.has_pending_interrupt(0));
}

#[test]
fn completion_has_no_effect() {
    let mut p = enabled(&[(9, 2)]);
    p.set_pending(9);
    p.write32(CLAIM0, 9).unwrap();
    p.complete_interrupt(0, 9);
    assert_eq!(p.read32(CLAIM0), Ok(9));
    p.write32(CLAIM1, 9).unwrap();
    assert!(!p.has_pending_interrupt(0));
}

#[test]
fn unused_addresses_read_zero() {
    let mut p = enabled(&[(9, 2)]);
    for a in [0x1080, 0x1FFC, 0x2100, 0x1_FFFC, 0x2_0000, 0x20_0008, 0x3FF_FFFC, u64::MAX] {
        p.write32(a, u32::MAX).unwrap();
        assert_eq!(p.read32(a), Ok(0));
    }
    assert_eq!(p.read32(0x20_1000), Ok(0));
}
