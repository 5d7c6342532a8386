//! A 16550 UART. Sending is immediate: a byte written to the transmitter goes to
//! the output queue at once, and the transmitter is empty again.

use crate::text::contains;
#[allow(unused_imports)]
use crate::text::{ascii, occurs};
use std::collections::VecDeque;
use vstd::prelude::*;

verus! {

/// Receiver holding register (read).
pub const UART_RHR: u64 = 0x0;

/// Transmitter holding register (write).
pub const UART_THR: u64 = 0x0;

/// Interrupt enable register.
pub const UART_IER: u64 = 0x1;

/// Interrupt status register (read).
pub const UART_ISR: u64 = 0x2;

/// FIFO control register (write).
pub const UART_FCR: u64 = 0x2;

/// Line control register.
pub const UART_LCR: u64 = 0x3;

/// Modem control register.
pub const UART_MCR: u64 = 0x4;

/// Line status register.
pub const UART_LSR: u64 = 0x5;

/// Modem status register.
pub const UART_MSR: u64 = 0x6;

/// Scratch register.
pub const UART_SCR: u64 = 0x7;

/// Line status: data ready.
pub const LSR_DR: u8 = 0x01;

/// Line status: overrun error.
pub const LSR_OE: u8 = 0x02;

/// Line status: parity error.
pub const LSR_PE: u8 = 0x04;

/// Line status: framing error.
pub const LSR_FE: u8 = 0x08;

/// Line status: break interrupt.
pub const LSR_BI: u8 = 0x10;

/// Line status: transmitter holding register empty.
pub const LSR_THRE: u8 = 0x20;

/// Line status: transmitter empty.
pub const LSR_TEMT: u8 = 0x40;

/// Line status: nothing is being sent.
pub const LSR_IDLE: u8 = 0x60;

/// A serial port.
pub struct Uart {
    /// Interrupt enable register.
    pub ier: u8,
    lcr: u8,
    mcr: u8,
    scr: u8,
    /// The bytes received and not yet read.
    pub input_buffer: VecDeque<u8>,
    /// The bytes sent and not yet taken by the host.
    sent: Vec<u8>,
    /// The text sent last, in which the words of a kernel panic are looked for.
    output_buffer: Vec<u8>,
    /// A kernel panic was seen in the text sent.
    pub panic_detected: bool,
    /// What was counted since then.
    pub panic_post_count: u64,
    thr_ipending: bool,
    /// How often a transmitter interrupt was acknowledged.
    pub thre_interrupt_count: u64,
    /// How many bytes were sent.
    pub thr_write_count: u64,
}

/// The state of a serial port.
#[verifier::ext_equal]
pub struct UartView {
    pub ier: u8,
    pub lcr: u8,
    pub mcr: u8,
    pub scr: u8,
    /// The bytes received and not yet read, oldest first.
    pub input: Seq<u8>,
    /// The bytes sent and not yet taken by the host, oldest first.
    pub sent: Seq<u8>,
    /// The text sent last.
    pub recent: Seq<u8>,
    pub panic_detected: bool,
    pub panic_post_count: u64,
    /// The transmitter became empty and no status read has said so yet.
    pub thr_ipending: bool,
    pub thre_interrupt_count: u64,
    pub thr_write_count: u64,
}

impl View for Uart {
    type V = UartView;

    closed spec fn view(&self) -> UartView {
        UartView {
            ier: self.ier,
            lcr: self.lcr,
            mcr: self.mcr,
            scr: self.scr,
            input: self.input_buffer@,
            sent: self.sent@,
            recent: self.output_buffer@,
            panic_detected: self.panic_detected,
            panic_post_count: self.panic_post_count,
            thr_ipending: self.thr_ipending,
            thre_interrupt_count: self.thre_interrupt_count,
            thr_write_count: self.thr_write_count,
        }
    }
}

/// A serial port after reset.
pub open spec fn uart_reset() -> UartView {
    UartView {
        ier: 0,
        lcr: 0,
        mcr: 0,
        scr: 0,
        input: Seq::empty(),
        sent: Seq::empty(),
        recent: Seq::empty(),
        panic_detected: false,
        panic_post_count: 0,
        thr_ipending: true,
        thre_interrupt_count: 0,
        thr_write_count: 0,
    }
}

/// `text` holds one of the phrases that a kernel prints when it panics.
pub open spec fn tells_of_panic(text: Seq<u8>) -> bool {
    ||| occurs(text, ascii("Kernel panic"@))
    ||| occurs(text, ascii("kernel panic"@))
    ||| occurs(text, ascii("not syncing"@))
}

/// The recent text after one more byte: of more than 2048 bytes the oldest 1024
/// are dropped.
pub open spec fn recent_after(recent: Seq<u8>, value: u8) -> Seq<u8> {
    if recent.len() >= 2048 {
        recent.push(value).skip(1024)
    } else {
        recent.push(value)
    }
}

impl UartView {
    /// The receiver's interrupt condition: it is enabled and a byte is there.
    pub open spec fn rx_interrupt(self) -> bool {
        self.ier & 0x01 != 0 && self.input.len() > 0
    }

    /// The transmitter's interrupt condition.
    pub open spec fn tx_interrupt(self) -> bool {
        self.ier & 0x02 != 0 && self.thr_ipending
    }

    /// The interrupt line is high.
    pub open spec fn has_interrupt(self) -> bool {
        self.rx_interrupt() || self.tx_interrupt()
    }

    /// A register read: the port after it and the value read.
    pub open spec fn read8(self, offset: u64) -> (UartView, u8) {
        if offset == UART_RHR {
            if self.input.len() > 0 {
                (UartView { input: self.input.drop_first(), ..self }, self.input[0])
            } else {
                (self, 0)
            }
        } else if offset == UART_IER {
            (self, self.ier)
        } else if offset == UART_ISR {
            if self.rx_interrupt() {
                (self, 0x04)
            } else if self.tx_interrupt() {
                (
                    UartView {
                        thr_ipending: false,
                        thre_interrupt_count: self.thre_interrupt_count.wrapping_add(1),
                        ..self
                    },
                    0x02,
                )
            } else {
                (self, 0x01)
            }
        } else if offset == UART_LCR {
            (self, self.lcr)
        } else if offset == UART_MCR {
            (self, self.mcr)
        } else if offset == UART_LSR {
            (
                self,
                if self.input.len() > 0 {
                    0x61
                } else {
                    0x60
                },
            )
        } else if offset == UART_SCR {
            (self, self.scr)
        } else {
            (self, 0)
        }
    }

    /// One byte is sent.
    pub open spec fn send(self, value: u8) -> UartView {
        let u = UartView {
            sent: self.sent.push(value),
            thr_write_count: self.thr_write_count.wrapping_add(1),
            thr_ipending: true,
            ..self
        };
        if 0 < value < 128 {
            let recent = recent_after(self.recent, value);
            UartView {
                recent,
                panic_detected: self.panic_detected || tells_of_panic(recent),
                ..u
            }
        } else {
            u
        }
    }

    /// A register write.
    pub open spec fn write8(self, offset: u64, value: u8) -> UartView {
        if offset == UART_THR {
            self.send(value)
        } else if offset == UART_IER {
            UartView {
                ier: value,
                thr_ipending: self.thr_ipending || (self.ier & 0x02 == 0 && value & 0x02 != 0),
                ..self
            }
        } else if offset == UART_LCR {
            UartView { lcr: value, ..self }
        } else if offset == UART_MCR {
            UartView { mcr: value, ..self }
        } else if offset == UART_SCR {
            UartView { scr: value, ..self }
        } else {
            self
        }
    }

    /// One byte is received.
    pub open spec fn receive(self, byte: u8) -> UartView {
        UartView { input: self.input.push(byte), ..self }
    }
}

/// The text "Kernel panic".
fn upper_panic_text() -> (t: [u8; 12])
    ensures
        t@ == ascii("Kernel panic"@),
{
    proof {
        reveal_strlit("Kernel panic");
    }
    let t: [u8; 12] = [
        0x4b,
        0x65,
        0x72,
        0x6e,
        0x65,
        0x6c,
        0x20,
        0x70,
        0x61,
        0x6e,
        0x69,
        0x63,
    ];
    assert(t@ =~= ascii("Kernel panic"@));
    t
}

/// The text "kernel panic".
fn lower_panic_text() -> (t: [u8; 12])
    ensures
        t@ == ascii("kernel panic"@),
{
    proof {
        reveal_strlit("kernel panic");
    }
    let t: [u8; 12] = [
        0x6b,
        0x65,
        0x72,
        0x6e,
        0x65,
        0x6c,
        0x20,
        0x70,
        0x61,
        0x6e,
        0x69,
        0x63,
    ];
    assert(t@ =~= ascii("kernel panic"@));
    t
}

/// The text "not syncing".
fn not_syncing_text() -> (t: [u8; 11])
    ensures
        t@ == ascii("not syncing"@),
{
    proof {
        reveal_strlit("not syncing");
    }
    let t: [u8; 11] = [0x6e, 0x6f, 0x74, 0x20, 0x73, 0x79, 0x6e, 0x63, 0x69, 0x6e, 0x67];
    assert(t@ =~= ascii("not syncing"@));
    t
}

/// Whether `text` holds one of the phrases of a kernel panic.
fn is_panic_text(text: &[u8]) -> (b: bool)
    ensures
        b == tells_of_panic(text@),
{
    let upper = upper_panic_text();
    let lower = lower_panic_text();
    let syncing = not_syncing_text();
    contains(text, upper.as_slice()) || contains(text, lower.as_slice()) || contains(
        text,
        syncing.as_slice(),
    )
}

impl Uart {
    /// A serial port after reset.
    pub fn new() -> (u: Self)
        ensures
            u@ == uart_reset(),
    {
        Self {
            ier: 0,
            lcr: 0,
            mcr: 0,
            scr: 0,
            input_buffer: VecDeque::new(),
            sent: Vec::new(),
            output_buffer: Vec::new(),
            panic_detected: false,
            panic_post_count: 0,
            thr_ipending: true,
            thre_interrupt_count: 0,
            thr_write_count: 0,
        }
    }

    /// Whether a kernel panic was seen.
    pub fn check_panic(&self) -> (b: bool)
        ensures
            b == self@.panic_detected,
    {
        self.panic_detected
    }

    /// Forgets a kernel panic.
    pub fn reset_panic(&mut self)
        ensures
            final(self)@ == (UartView { panic_detected: false, panic_post_count: 0, ..old(self)@ }),
    {
        self.panic_detected = false;
        self.panic_post_count = 0;
    }

    /// Counts one more event after a kernel panic.
    pub fn inc_panic_post_count(&mut self)
        ensures
            final(self)@ == if old(self)@.panic_detected {
                UartView {
                    panic_post_count: old(self)@.panic_post_count.wrapping_add(1),
                    ..old(self)@
                }
            } else {
                old(self)@
            },
    {
        if self.panic_detected {
            self.panic_post_count = self.panic_post_count.wrapping_add(1);
        }
    }

    /// Reads a register. Reading the receiver takes the oldest byte out of the
    /// input; reading the interrupt status acknowledges the transmitter.
    pub fn read8(&mut self, offset: u64) -> (r: Result<u8, &'static str>)
        ensures
            r == Ok::<u8, &'static str>(old(self)@.read8(offset).1),
            final(self)@ == old(self)@.read8(offset).0,
    {
        if offset == UART_RHR {
            match self.input_buffer.pop_front() {
                Some(ch) => {
                    assert(self@.input =~= old(self)@.input.drop_first());
                    Ok(ch)
                },
                None => Ok(0),
            }
        } else if offset == UART_IER {
            Ok(self.ier)
        } else if offset == UART_ISR {
            let has_input = self.input_buffer.len() > 0;
            if has_input && self.ier & 0x01 != 0 {
                Ok(0x04)
            } else if self.thr_ipending && self.ier & 0x02 != 0 {
                self.thr_ipending = false;
                self.thre_interrupt_count = self.thre_interrupt_count.wrapping_add(1);
                Ok(0x02)
            } else {
                Ok(0x01)
            }
        } else if offset == UART_LCR {
            Ok(self.lcr)
        } else if offset == UART_MCR {
            Ok(self.mcr)
        } else if offset == UART_LSR {
            if self.input_buffer.len() > 0 {
                assert(0x60u8 | 0x01u8 == 0x61) by (bit_vector);
                Ok(LSR_IDLE | LSR_DR)
            } else {
                Ok(LSR_IDLE)
            }
        } else if offset == UART_SCR {
            Ok(self.scr)
        } else {
            Ok(0)
        }
    }

    /// Writes a register. Writing the transmitter sends the byte.
    pub fn write8(&mut self, offset: u64, value: u8) -> (r: Result<(), &'static str>)
        ensures
            r is Ok,
            final(self)@ == old(self)@.write8(offset, value),
    {
        if offset == UART_THR {
            self.sent.push(value);
            self.thr_write_count = self.thr_write_count.wrapping_add(1);
            if value < 128 && value != 0 {
                self.output_buffer.push(value);
                if self.output_buffer.len() > 2048 {
                    let tail = self.output_buffer.split_off(1024);
                    assert(tail@ =~= old(self)@.recent.push(value).skip(1024));
                    self.output_buffer = tail;
                }
                assert(self.output_buffer@ == recent_after(old(self)@.recent, value));
                if !self.panic_detected && is_panic_text(self.output_buffer.as_slice()) {
                    self.panic_detected = true;
                }
            }
            self.thr_ipending = true;
        } else if offset == UART_IER {
            let before: u8 = self.ier;
            self.ier = value;
            if before & 0x02 == 0 && value & 0x02 != 0 {
                self.thr_ipending = true;
            }
        } else if offset == UART_LCR {
            self.lcr = value;
        } else if offset == UART_MCR {
            self.mcr = value;
        } else if offset == UART_SCR {
            self.scr = value;
        }
        Ok(())
    }

    /// Whether the interrupt line is high.
    pub fn has_pending_interrupt(&self) -> (b: bool)
        ensures
            b == self@.has_interrupt(),
    {
        if self.ier & 0x01 != 0 && self.input_buffer.len() > 0 {
            return true;
        }
        if self.ier & 0x02 != 0 && self.thr_ipending {
            return true;
        }
        false
    }

    /// Receives one byte.
    pub fn receive(&mut self, byte: u8)
        ensures
            final(self)@ == old(self)@.receive(byte),
    {
        self.input_buffer.push_back(byte);
    }

    /// The input queue: what is pushed to it is received.
    pub fn input_mut(&mut self) -> (q: &mut VecDeque<u8>)
        ensures
            q@ == old(self)@.input,
            final(self)@ == (UartView { input: final(q)@, ..old(self)@ }),
    {
        &mut self.input_buffer
    }

    /// Takes the bytes sent since the last call, oldest first.
    pub fn take_output(&mut self) -> (out: Vec<u8>)
        ensures
            out@ == old(self)@.sent,
            final(self)@ == (UartView { sent: Seq::empty(), ..old(self)@ }),
    {
        let out = self.sent.split_off(0);
        assert(out@ =~= old(self)@.sent);
        assert(self.sent@ =~= Seq::<u8>::empty());
        out
    }
}

impl Default for Uart {
    fn default() -> (u: Self)
        ensures
            u@ == uart_reset(),
    {
        Self::new()
    }
}

/// The port after `n` reads of the receiver.
pub open spec fn after_reads(u: UartView, n: nat) -> UartView
    decreases n,
{
    if n == 0 {
        u
    } else {
        after_reads(u, (n - 1) as nat).read8(UART_RHR).0
    }
}

/// What is left of the input after some reads.
proof fn lemma_after_reads(u: UartView, n: nat)
    requires
        n <= u.input.len(),
    ensures
        after_reads(u, n).input == u.input.skip(n as int),
    decreases n,
{
    if n > 0 {
        lemma_after_reads(u, (n - 1) as nat);
        assert(u.input.skip(n - 1).drop_first() =~= u.input.skip(n as int));
    } else {
        assert(u.input.skip(0) =~= u.input);
    }
}

/// Bytes come out of the receiver in the order in which they came in: a byte
/// received while `n` others wait is what the read after `n` reads gets.
pub proof fn law_receive_order(u: UartView, byte: u8)
    ensures
        after_reads(u.receive(byte), u.input.len()).read8(UART_RHR).1 == byte,
        after_reads(u.receive(byte), u.input.len() + 1).input.len() == 0,
{
    lemma_after_reads(u.receive(byte), u.input.len());
    lemma_after_reads(u.receive(byte), u.input.len() + 1);
}

/// A status read that reports the transmitter acknowledges it: the transmitter's
/// interrupt is gone until the next byte is sent or its interrupt is enabled
/// anew.
pub proof fn law_status_read_acknowledges(u: UartView, value: u8)
    ensures
        u.read8(UART_ISR).1 == 0x02 ==> !u.read8(UART_ISR).0.tx_interrupt(),
        u.ier & 0x02 != 0 ==> u.send(value).tx_interrupt(),
        u.ier & 0x02 == 0 && value & 0x02 != 0 ==> u.write8(UART_IER, value).tx_interrupt(),
{
}

/// The status register reports an interrupt exactly when the line is high.
pub proof fn law_status_matches_line(u: UartView)
    ensures
        (u.read8(UART_ISR).1 != 0x01) == u.has_interrupt(),
{
}

/// Sending appends to the output and never loses a byte of it; no read or write
/// of another register changes the output.
pub proof fn law_output_order(u: UartView, offset: u64, value: u8)
    ensures
        u.write8(offset, value).sent == if offset == UART_THR {
            u.sent.push(value)
        } else {
            u.sent
        },
        u.read8(offset).0.sent == u.sent,
{
}

} // verus!
