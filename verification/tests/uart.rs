use riscv64_emulator::uart::{
    Uart, LSR_DR, LSR_IDLE, UART_FCR, UART_IER, UART_ISR, UART_LCR, UART_LSR, UART_MCR, UART_MSR,
    UART_RHR, UART_SCR, UART_THR,
};

fn send(u: &mut Uart, text: &str) {
    for b in text.bytes() {
        u.write8(UART_THR, b).unwrap();
    }
}

#[test]
fn input_comes_out_in_order() {
    let mut u = Uart::new();
    assert_eq!(u.read8(UART_RHR), Ok(0));
    for b in [7u8, 8, 9] {
        u.receive(b);
    }
    u.input_mut().push_back(10);
    assert_eq!(u.read8(UART_LSR), Ok(LSR_IDLE | LSR_DR));
    assert_eq!(u.read8(UART_RHR), Ok(7));
    assert_eq!(u.read8(UART_RHR), Ok(8));
    assert_eq!(u.read8(UART_RHR), Ok(9));
    assert_eq!(u.read8(UART_RHR), Ok(10));
    assert_eq!(u.read8(UART_RHR), Ok(0));
    assert_eq!(u.read8(UART_LSR), Ok(0x60));
}

#[test]
fn output_is_kept_until_taken() {
    let mut u = Uart::new();
    send(&mut u, "hi");
    u.write8(UART_THR, 0).unwrap();
    u.write8(UART_THR, 0xFF).unwrap();
    assert_eq!(u.take_output(), vec![b'h', b'i', 0, 0xFF]);
    assert_eq!(u.take_output(), Vec::<u8>::new());
    assert_eq!(u.thr_write_count, 4);
}

#[test]
fn uart_registers_read_back() {
    let mut u = Uart::default();
    for (r, v) in [(UART_LCR, 3), (UART_MCR, 0x0B), (UART_SCR, 0x5A), (UART_IER, 0x0F)] {
        u.write8(r, v).unwrap();
        assert_eq!(u.read8(r), Ok(v));
    }
    u.write8(UART_FCR, 0x07).unwrap();
    u.write8(UART_LSR, 0xFF).unwrap();
    assert_eq!(u.read8(UART_MSR), Ok(0));
    assert_eq!(u.read8(8), Ok(0));
    assert_eq!(u.ier, 0x0F);
}

#[test]
fn transmitter_interrupt_is_acknowledged_by_the_status_read() {
    let mut u = Uart::new();
    assert_eq!(u.read8(UART_ISR), Ok(1));
    assert!(!u.has_pending_interrupt());
    u.write8(UART_IER, 2).unwrap();
    assert!(u.has_pending_interrupt());
    assert_eq!(u.read8(UART_ISR), Ok(2));
    assert_eq!(u.thre_interrupt_count, 1);
    assert!(!u.has_pending_interrupt());
    assert_eq!(u.read8(UART_ISR), Ok(1));
    // Writing the same enable again raises nothing.
    u.write8(UART_IER, 2).unwrap();
    assert!(!u.has_pending_interrupt());
    // Sending does.
    u.write8(UART_THR, b'x').unwrap();
    assert_eq!(u.read8(UART_ISR), Ok(2));
    // So does enabling anew.
    u.write8(UART_IER, 0).unwrap();
    u.write8(UART_IER, 2).unwrap();
    assert_eq!(u.read8(UART_ISR), Ok(2));
    assert_eq!(u.thre_interrupt_count, 3);
}

#[test]
fn receiver_interrupt_comes_first() {
    let mut u = Uart::new();
    u.write8(UART_IER, 3).unwrap();
    u.receive(1);
    assert_eq!(u.read8(UART_ISR), Ok(4));
    assert!(u.has_pending_interrupt());
    u.read8(UART_RHR).unwrap();
    assert_eq!(u.read8(UART_ISR), Ok(2));
    assert!(!u.has_pending_interrupt());
}

#[test]
fn kernel_panic_is_noticed() {
    for text in ["... Kernel panic - ", "a kernel panic", "end: not syncing"] {
        let mut u = Uart::new();
        assert!(!u.check_panic());
        u.inc_panic_post_count();
        assert_eq!(u.panic_post_count, 0);
        send(&mut u, text);
        assert!(u.check_panic());
        u.inc_panic_post_count();
        u.inc_panic_post_count();
        assert_eq!(u.panic_post_count, 2);
        u.reset_panic();
        assert!(!u.check_panic());
        assert_eq!(u.panic_post_count, 0);
    }
}

#[test]
fn other_text_is_no_panic() {
    let mut u = Uart::new();
    send(&mut u, "KERNEL PANIC kernel  panic not  syncing");
    assert!(!u.check_panic());
    // Bytes outside of ASCII and zeros are not part of the text.
    send(&mut u, "Kernel pa");
    u.write8(UART_THR, 0).unwrap();
    u.write8(UART_THR, 0xE4).unwrap();
    send(&mut u, "ni");
    assert!(!u.check_panic());
    send(&mut u, "c");
    assert!(u.check_panic());
}

#[test]
fn old_text_is_forgotten() {
    let mut u = Uart::new();
    send(&mut u, "Kernel pani");
    u.reset_panic();
    for _ in 0..2037 {
        u.write8(UART_THR, b'.').unwrap();
    }
    // 2048 bytes are kept; the next one drops the first 1024.
    send(&mut u, "Kernel panic");
    assert!(u.check_panic());
    u.reset_panic();
    for _ in 0..2300 {
        u.write8(UART_THR, b'.').unwrap();
    }
    u.reset_panic();
    u.write8(UART_THR, b'.').unwrap();
    assert!(!u.check_panic());
}
