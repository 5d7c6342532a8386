//! The system bus: which device answers at which physical address, and what an
//! access of each width does there.

#[allow(unused_imports)]
use crate::bytes::{law_read_after_write, lemma_byte_ranges};
use crate::dram::Dram;
#[allow(unused_imports)]
use crate::dram::{
    dram_read16, dram_read32, dram_read64, dram_read8, dram_write16, dram_write32, dram_write64,
    dram_write8,
};
use crate::flash::Flash;
#[allow(unused_imports)]
use crate::flash::{flash_read16, flash_read32, flash_read8, FlashView};
use crate::mrom::Mrom;
#[allow(unused_imports)]
use crate::mrom::{mrom_read16, mrom_read32, mrom_read64, mrom_read8};
#[allow(unused_imports)]
use crate::outcome::same_result;
use crate::plic::Plic;
#[allow(unused_imports)]
use crate::plic::{law_every_plic_is_well_formed, law_pending_of_one, plic_reset, PlicView};
use crate::uart::Uart;
#[allow(unused_imports)]
use crate::uart::{uart_reset, UartView};
use crate::virtio::{BlkStep, DiskReply, VirtioBlock};
#[allow(unused_imports)]
use crate::virtio::{BlkStepView, BlkView, DiskReplyView};
use crate::virtio_rng::{RngStep, VirtioRng};
#[allow(unused_imports)]
use crate::virtio_rng::{rng_reset, RngStepView, RngView};
use std::collections::VecDeque;
use vstd::prelude::*;

verus! {

/// Main memory.
pub const DRAM_BASE: u64 = 0x8000_0000;

pub const DRAM_SIZE: u64 = 0x8000_0000;

/// The core-local interruptor: timer and software interrupts.
pub const CLINT_BASE: u64 = 0x0200_0000;

pub const CLINT_SIZE: u64 = 0x0001_0000;

/// The interrupt controller.
pub const PLIC_BASE: u64 = 0x0c00_0000;

pub const PLIC_SIZE: u64 = 0x0060_0000;

/// The serial port.
pub const UART_BASE: u64 = 0x1000_0000;

pub const UART_SIZE: u64 = 0x0000_0100;

/// The eight VirtIO slots, each of 4 KiB.
pub const VIRTIO_BASE: u64 = 0x1000_1000;

/// The slot of the entropy device.
pub const VIRTIO_RNG_BASE: u64 = 0x1000_7000;

/// The slot of the block device.
pub const VIRTIO_BLK_BASE: u64 = 0x1000_2000;

pub const VIRTIO_SIZE: u64 = 0x0000_8000;

/// The real-time clock.
pub const RTC_BASE: u64 = 0x0010_1000;

pub const RTC_SIZE: u64 = 0x0000_1000;

/// The test device.
pub const TEST_BASE: u64 = 0x0010_0000;

pub const TEST_SIZE: u64 = 0x0000_1000;

/// The firmware configuration device.
pub const FW_CFG_BASE: u64 = 0x1010_0000;

pub const FW_CFG_SIZE: u64 = 0x0000_0018;

/// The flash.
pub const FLASH_BASE: u64 = 0x2000_0000;

pub const FLASH_SIZE: u64 = 0x0200_0000;

/// A second flash bank with nothing in it.
pub const FLASH_BANK1_BASE: u64 = 0x2200_0000;

pub const FLASH_BANK1_SIZE: u64 = 0x0200_0000;

/// PCI configuration space.
pub const PCI_BASE: u64 = 0x3000_0000;

pub const PCI_SIZE: u64 = 0x1000_0000;

/// The boot ROM.
pub const MROM_BASE: u64 = 0x0000_1000;

pub const MROM_SIZE: u64 = 0x0000_f000;

/// The interrupt of the block device.
pub const VIRTIO_BLK_IRQ: u32 = 2;

/// The interrupt of the entropy device.
pub const VIRTIO_RNG_IRQ: u32 = 7;

/// The interrupt of the serial port.
pub const UART_IRQ: u32 = 10;

/// What answers at a physical address.
#[derive(Debug, Clone, Copy, PartialEq, Eq, Structural)]
pub enum Region {
    Mrom,
    Dram,
    Clint,
    Plic,
    Uart,
    /// A VirtIO slot without a device.
    VirtioEmpty,
    Block,
    Rng,
    Rtc,
    Test,
    FwCfg,
    Flash,
    /// The empty flash bank.
    FlashBank1,
    Pci,
    Unmapped,
}

/// The memory map.
pub open spec fn region_of(addr: u64) -> Region {
    if MROM_BASE <= addr <= 0x0000_FFFF {
        Region::Mrom
    } else if DRAM_BASE <= addr < DRAM_BASE + DRAM_SIZE {
        Region::Dram
    } else if CLINT_BASE <= addr <= 0x020F_FFFF {
        Region::Clint
    } else if PLIC_BASE <= addr < PLIC_BASE + PLIC_SIZE {
        Region::Plic
    } else if UART_BASE <= addr < UART_BASE + UART_SIZE {
        Region::Uart
    } else if VIRTIO_BLK_BASE <= addr <= 0x1000_2FFF {
        Region::Block
    } else if VIRTIO_RNG_BASE <= addr <= 0x1000_7FFF {
        Region::Rng
    } else if VIRTIO_BASE <= addr < VIRTIO_BASE + VIRTIO_SIZE {
        Region::VirtioEmpty
    } else if RTC_BASE <= addr < RTC_BASE + RTC_SIZE {
        Region::Rtc
    } else if TEST_BASE <= addr < TEST_BASE + TEST_SIZE {
        Region::Test
    } else if FW_CFG_BASE <= addr < FW_CFG_BASE + FW_CFG_SIZE {
        Region::FwCfg
    } else if FLASH_BASE <= addr < FLASH_BASE + FLASH_SIZE {
        Region::Flash
    } else if FLASH_BANK1_BASE <= addr < FLASH_BANK1_BASE + FLASH_BANK1_SIZE {
        Region::FlashBank1
    } else if PCI_BASE <= addr < PCI_BASE + PCI_SIZE {
        Region::Pci
    } else {
        Region::Unmapped
    }
}

/// What answers at `addr`.
fn region(addr: u64) -> (r: Region)
    ensures
        r == region_of(addr),
{
    if MROM_BASE <= addr && addr <= 0x0000_FFFF {
        Region::Mrom
    } else if DRAM_BASE <= addr && addr < DRAM_BASE + DRAM_SIZE {
        Region::Dram
    } else if CLINT_BASE <= addr && addr <= 0x020F_FFFF {
        Region::Clint
    } else if PLIC_BASE <= addr && addr < PLIC_BASE + PLIC_SIZE {
        Region::Plic
    } else if UART_BASE <= addr && addr < UART_BASE + UART_SIZE {
        Region::Uart
    } else if VIRTIO_BLK_BASE <= addr && addr <= 0x1000_2FFF {
        Region::Block
    } else if VIRTIO_RNG_BASE <= addr && addr <= 0x1000_7FFF {
        Region::Rng
    } else if VIRTIO_BASE <= addr && addr < VIRTIO_BASE + VIRTIO_SIZE {
        Region::VirtioEmpty
    } else if RTC_BASE <= addr && addr < RTC_BASE + RTC_SIZE {
        Region::Rtc
    } else if TEST_BASE <= addr && addr < TEST_BASE + TEST_SIZE {
        Region::Test
    } else if FW_CFG_BASE <= addr && addr < FW_CFG_BASE + FW_CFG_SIZE {
        Region::FwCfg
    } else if FLASH_BASE <= addr && addr < FLASH_BASE + FLASH_SIZE {
        Region::Flash
    } else if FLASH_BANK1_BASE <= addr && addr < FLASH_BANK1_BASE + FLASH_BANK1_SIZE {
        Region::FlashBank1
    } else if PCI_BASE <= addr && addr < PCI_BASE + PCI_SIZE {
        Region::Pci
    } else {
        Region::Unmapped
    }
}

/// A device whose driver rang its bell, with the queue not served yet.
#[derive(Debug, Clone, Copy, PartialEq, Eq, Structural)]
pub enum Bell {
    Block,
    Rng,
}

/// The bus with everything on it.
pub struct Bus {
    pub mrom: Mrom,
    pub dram: Dram,
    pub uart: Uart,
    pub flash: Flash,
    pub plic: Plic,
    pub virtio_block: Option<VirtioBlock>,
    pub virtio_rng: VirtioRng,
    mtime: u64,
    mtimecmp: u64,
    /// The supervisor timer's deadline; the largest value disables it.
    pub stimecmp: u64,
    msip: u64,
    /// The wall-clock time in seconds, as the host set it last.
    rtc: u64,
    /// The device whose driver rang.
    bell: Option<Bell>,
}

/// The state of the bus and of everything on it.
#[verifier::ext_equal]
pub struct BusView {
    pub mrom: Seq<u8>,
    pub dram: Seq<u8>,
    pub uart: UartView,
    pub flash: FlashView,
    pub plic: PlicView,
    pub blk: Option<BlkView>,
    pub rng: RngView,
    pub mtime: u64,
    pub mtimecmp: u64,
    pub stimecmp: u64,
    pub msip: u64,
    pub rtc: u64,
    pub bell: Option<Bell>,
}

impl View for Bus {
    type V = BusView;

    closed spec fn view(&self) -> BusView {
        BusView {
            mrom: self.mrom@,
            dram: self.dram@,
            uart: self.uart@,
            flash: self.flash@,
            plic: self.plic@,
            blk: match self.virtio_block {
                Some(b) => Some(b@),
                None => None,
            },
            rng: self.virtio_rng@,
            mtime: self.mtime,
            mtimecmp: self.mtimecmp,
            stimecmp: self.stimecmp,
            msip: self.msip,
            rtc: self.rtc,
            bell: self.bell,
        }
    }
}

/// The low half of `v`.
pub open spec fn low32(v: u64) -> u32 {
    (v % 0x1_0000_0000) as u32
}

/// The high half of `v`.
pub open spec fn high32(v: u64) -> u32 {
    (v / 0x1_0000_0000) as u32
}

/// The number with the given halves.
pub open spec fn halves(high: u32, low: u32) -> u64 {
    (high * 0x1_0000_0000 + low) as u64
}

/// Byte `i` of the word `v`, counted from the least significant one.
pub open spec fn word_byte(v: u32, i: u64) -> u8 {
    if i == 0 {
        (v % 256) as u8
    } else if i == 1 {
        (v / 0x100 % 256) as u8
    } else if i == 2 {
        (v / 0x1_0000 % 256) as u8
    } else {
        (v / 0x100_0000) as u8
    }
}

/// The low byte of `v`.
pub open spec fn low_byte(v: u64) -> u8 {
    (v % 256) as u8
}

/// The message of a read that nothing answers.
pub open spec fn read_error() -> Seq<char> {
    "总线读取：地址超出范围"@
}

/// The message of a write that nothing takes.
pub open spec fn write_error() -> Seq<char> {
    "总线写入：地址超出范围或只读区域"@
}

impl BusView {
    /// The interrupt line of the serial port drives its source of the interrupt
    /// controller.
    pub open spec fn sync_uart(self) -> BusView {
        BusView {
            plic: if self.uart.has_interrupt() {
                self.plic.set_pending(UART_IRQ as int)
            } else {
                self.plic.clear_pending(UART_IRQ as int)
            },
            ..self
        }
    }

    /// A register of the serial port is read.
    pub open spec fn uart_read(self, offset: u64) -> (BusView, u8) {
        let (uart, v) = self.uart.read8(offset);
        (BusView { uart, ..self }.sync_uart(), v)
    }

    /// A register of the serial port is written.
    pub open spec fn uart_write(self, offset: u64, value: u8) -> BusView {
        BusView { uart: self.uart.write8(offset, value), ..self }.sync_uart()
    }

    /// A register of the block device is read.
    pub open spec fn blk_read(self, offset: u64) -> u32 {
        match self.blk {
            Some(b) => b.read32(offset),
            None => 0,
        }
    }

    /// A register of the block device is written. Ringing the bell of queue 0 is
    /// left for the queue to be served; an acknowledgement lets the interrupt
    /// line follow the interrupt status.
    pub open spec fn blk_write(self, offset: u64, value: u32) -> BusView {
        match self.blk {
            None => self,
            Some(b) => {
                let b2 = b.write32(offset, value);
                let s = BusView { blk: Some(b2), ..self };
                if offset == 0x50 && value == 0 {
                    BusView { bell: Some(Bell::Block), ..s }
                } else if offset == 0x64 {
                    if b2.interrupt_status == 0 {
                        BusView { plic: s.plic.clear_pending(VIRTIO_BLK_IRQ as int), ..s }
                    } else {
                        BusView { plic: s.plic.set_pending(VIRTIO_BLK_IRQ as int), ..s }
                    }
                } else {
                    s
                }
            },
        }
    }

    /// A register of the entropy device is written.
    pub open spec fn rng_write(self, offset: u64, value: u32) -> BusView {
        let r2 = self.rng.write32(offset, value);
        let s = BusView { rng: r2, ..self };
        if offset == 0x50 && value == 0 {
            BusView { bell: Some(Bell::Rng), ..s }
        } else if offset == 0x64 {
            if r2.interrupt_status == 0 {
                BusView { plic: s.plic.clear_pending(VIRTIO_RNG_IRQ as int), ..s }
            } else {
                BusView { plic: s.plic.set_pending(VIRTIO_RNG_IRQ as int), ..s }
            }
        } else {
            s
        }
    }

    /// An eight-byte read of the interruptor.
    pub open spec fn clint_read64(self, offset: u64) -> u64 {
        if offset == 0 {
            self.msip
        } else if offset == 0xBFF8 {
            self.mtime
        } else if offset == 0x4000 {
            self.mtimecmp
        } else {
            0
        }
    }

    /// A four-byte read of the interruptor.
    pub open spec fn clint_read32(self, offset: u64) -> u32 {
        if offset == 0 {
            low32(self.msip)
        } else if offset == 0xBFF8 {
            low32(self.mtime)
        } else if offset == 0xBFFC {
            high32(self.mtime)
        } else if offset == 0x4000 {
            low32(self.mtimecmp)
        } else if offset == 0x4004 {
            high32(self.mtimecmp)
        } else {
            0
        }
    }

    /// An eight-byte write to the interruptor. The time itself cannot be written.
    pub open spec fn clint_write64(self, offset: u64, value: u64) -> BusView {
        if offset == 0 {
            BusView { msip: value % 2, ..self }
        } else if offset == 0x4000 {
            BusView { mtimecmp: value, ..self }
        } else {
            self
        }
    }

    /// A four-byte write to the interruptor.
    pub open spec fn clint_write32(self, offset: u64, value: u32) -> BusView {
        if offset == 0 {
            BusView { msip: halves(0, value % 2), ..self }
        } else if offset == 0x4000 {
            BusView { mtimecmp: halves(high32(self.mtimecmp), value), ..self }
        } else if offset == 0x4004 {
            BusView { mtimecmp: halves(value, low32(self.mtimecmp)), ..self }
        } else {
            self
        }
    }

    /// An eight-byte read.
    #[verifier::opaque]
    pub open spec fn read64(self, addr: u64) -> (BusView, Result<u64, Seq<char>>) {
        match region_of(addr) {
            Region::Mrom => (self, mrom_read64(self.mrom, (addr - MROM_BASE) as u64)),
            Region::Dram => (self, dram_read64(self.dram, (addr - DRAM_BASE) as u64)),
            Region::Clint => (self, Ok(self.clint_read64((addr - CLINT_BASE) as u64))),
            Region::Uart => {
                let (s, v) = self.uart_read((addr - UART_BASE) as u64);
                (s, Ok(v as u64))
            },
            Region::Block => (
                self,
                Ok(
                    if addr - VIRTIO_BLK_BASE == 0x100 && self.blk is Some {
                        self.blk->0.capacity
                    } else {
                        0
                    },
                ),
            ),
            Region::Flash => (self, self.flash.read((addr - FLASH_BASE) as u64, 8)),
            Region::FlashBank1 => (self, Ok(u64::MAX)),
            Region::Unmapped => (self, Err(read_error())),
            _ => (self, Ok(0)),
        }
    }

    /// A four-byte read.
    #[verifier::opaque]
    pub open spec fn read32(self, addr: u64) -> (BusView, Result<u32, Seq<char>>) {
        match region_of(addr) {
            Region::Mrom => (self, mrom_read32(self.mrom, (addr - MROM_BASE) as u64)),
            Region::Dram => (self, dram_read32(self.dram, (addr - DRAM_BASE) as u64)),
            Region::Clint => (self, Ok(self.clint_read32((addr - CLINT_BASE) as u64))),
            Region::Plic => {
                let (plic, v) = self.plic.read32((addr - PLIC_BASE) as u64);
                (BusView { plic, ..self }, Ok(v))
            },
            Region::Uart => {
                let (s, v) = self.uart_read((addr - UART_BASE) as u64);
                (s, Ok(v as u32))
            },
            Region::Block => (self, Ok(self.blk_read((addr - VIRTIO_BLK_BASE) as u64))),
            Region::Rng => (self, Ok(self.rng.read32((addr - VIRTIO_RNG_BASE) as u64))),
            Region::Rtc => (
                self,
                Ok(
                    if addr == RTC_BASE {
                        low32(self.rtc)
                    } else if addr == RTC_BASE + 4 {
                        high32(self.rtc)
                    } else {
                        0
                    },
                ),
            ),
            Region::Flash => (self, flash_read32(self.flash, (addr - FLASH_BASE) as u64)),
            Region::FlashBank1 => (self, Ok(u32::MAX)),
            Region::Unmapped => (self, Err(read_error())),
            _ => (self, Ok(0)),
        }
    }

    /// A two-byte read.
    #[verifier::opaque]
    pub open spec fn read16(self, addr: u64) -> (BusView, Result<u16, Seq<char>>) {
        match region_of(addr) {
            Region::Mrom => (self, mrom_read16(self.mrom, (addr - MROM_BASE) as u64)),
            Region::Dram => (self, dram_read16(self.dram, (addr - DRAM_BASE) as u64)),
            Region::Flash => (self, flash_read16(self.flash, (addr - FLASH_BASE) as u64)),
            Region::FlashBank1 => (self, Ok(u16::MAX)),
            Region::Clint => (self, Err(read_error())),
            Region::Uart => (self, Err(read_error())),
            Region::Rtc => (self, Err(read_error())),
            Region::Test => (self, Err(read_error())),
            Region::Unmapped => (self, Err(read_error())),
            _ => (self, Ok(0)),
        }
    }

    /// A one-byte read.
    #[verifier::opaque]
    pub open spec fn read8(self, addr: u64) -> (BusView, Result<u8, Seq<char>>) {
        match region_of(addr) {
            Region::Mrom => (self, mrom_read8(self.mrom, (addr - MROM_BASE) as u64)),
            Region::Dram => (self, dram_read8(self.dram, (addr - DRAM_BASE) as u64)),
            Region::Uart => {
                let (s, v) = self.uart_read((addr - UART_BASE) as u64);
                (s, Ok(v))
            },
            Region::Block => {
                let offset = (addr - VIRTIO_BLK_BASE) as u64;
                (
                    self,
                    Ok(
                        if offset >= 0x100 {
                            word_byte(self.blk_read((offset - offset % 4) as u64), offset % 4)
                        } else {
                            0
                        },
                    ),
                )
            },
            Region::Rng => {
                let offset = (addr - VIRTIO_RNG_BASE) as u64;
                (
                    self,
                    Ok(
                        if offset >= 0x100 {
                            word_byte(self.rng.read32((offset - offset % 4) as u64), offset % 4)
                        } else {
                            0
                        },
                    ),
                )
            },
            Region::Flash => (self, flash_read8(self.flash, (addr - FLASH_BASE) as u64)),
            Region::FlashBank1 => (self, Ok(u8::MAX)),
            Region::Clint => (self, Err(read_error())),
            Region::Rtc => (self, Err(read_error())),
            Region::Test => (self, Err(read_error())),
            Region::Unmapped => (self, Err(read_error())),
            _ => (self, Ok(0)),
        }
    }

    /// An eight-byte write.
    #[verifier::opaque]
    pub open spec fn write64(self, addr: u64, value: u64) -> (BusView, Result<(), Seq<char>>) {
        match region_of(addr) {
            Region::Dram => {
                let (dram, r) = dram_write64(self.dram, (addr - DRAM_BASE) as u64, value);
                (BusView { dram, ..self }, r)
            },
            Region::Clint => (self.clint_write64((addr - CLINT_BASE) as u64, value), Ok(())),
            Region::Uart => (self.uart_write((addr - UART_BASE) as u64, low_byte(value)), Ok(())),
            Region::Flash => (BusView { flash: self.flash.write(value), ..self }, Ok(())),
            Region::Mrom => (self, Err(write_error())),
            Region::Rtc => (self, Err(write_error())),
            Region::FwCfg => (self, Err(write_error())),
            Region::Unmapped => (self, Err(write_error())),
            _ => (self, Ok(())),
        }
    }

    /// A four-byte write. Outside of main memory it never fails: what nothing
    /// takes is dropped.
    #[verifier::opaque]
    pub open spec fn write32(self, addr: u64, value: u32) -> (BusView, Result<(), Seq<char>>) {
        match region_of(addr) {
            Region::Dram => {
                let (dram, r) = dram_write32(self.dram, (addr - DRAM_BASE) as u64, value);
                (BusView { dram, ..self }, r)
            },
            Region::Clint => (self.clint_write32((addr - CLINT_BASE) as u64, value), Ok(())),
            Region::Plic => (
                BusView {
                    plic: self.plic.write32((addr - PLIC_BASE) as u64, value),
                    ..self
                }.sync_uart(),
                Ok(()),
            ),
            Region::Uart => (
                self.uart_write((addr - UART_BASE) as u64, low_byte(value as u64)),
                Ok(()),
            ),
            Region::Block => (self.blk_write((addr - VIRTIO_BLK_BASE) as u64, value), Ok(())),
            Region::Rng => (self.rng_write((addr - VIRTIO_RNG_BASE) as u64, value), Ok(())),
            Region::Flash => (BusView { flash: self.flash.write(value as u64), ..self }, Ok(())),
            _ => (self, Ok(())),
        }
    }

    /// A two-byte write.
    #[verifier::opaque]
    pub open spec fn write16(self, addr: u64, value: u16) -> (BusView, Result<(), Seq<char>>) {
        match region_of(addr) {
            Region::Dram => {
                let (dram, r) = dram_write16(self.dram, (addr - DRAM_BASE) as u64, value);
                (BusView { dram, ..self }, r)
            },
            Region::Flash => (BusView { flash: self.flash.write(value as u64), ..self }, Ok(())),
            _ => (self, Ok(())),
        }
    }

    /// A one-byte write.
    #[verifier::opaque]
    pub open spec fn write8(self, addr: u64, value: u8) -> (BusView, Result<(), Seq<char>>) {
        match region_of(addr) {
            Region::Dram => {
                let (dram, r) = dram_write8(self.dram, (addr - DRAM_BASE) as u64, value);
                (BusView { dram, ..self }, r)
            },
            Region::Uart => (self.uart_write((addr - UART_BASE) as u64, value), Ok(())),
            Region::Flash => (BusView { flash: self.flash.write(value as u64), ..self }, Ok(())),
            _ => (self, Ok(())),
        }
    }

    /// The bus after the block device and the memory changed as a step of serving
    /// the device's queue says; a raised interrupt reaches the interrupt
    /// controller.
    pub open spec fn after_blk(self, out: (BlkView, Seq<u8>, BlkStepView)) -> (
        BusView,
        BlkStepView,
    ) {
        let s = BusView { blk: Some(out.0), dram: out.1, ..self };
        if out.2 == BlkStepView::Done(true) {
            (BusView { plic: s.plic.set_pending(VIRTIO_BLK_IRQ as int), ..s }, out.2)
        } else {
            (s, out.2)
        }
    }

    /// The queue of the block device is served from its registers on.
    pub open spec fn process_blk(self) -> (BusView, BlkStepView) {
        match self.blk {
            None => (self, BlkStepView::Done(false)),
            Some(b) => self.after_blk(b.process(self.dram, DRAM_BASE)),
        }
    }

    /// The queue of the block device is served on with the disk's reply.
    pub open spec fn resume_blk(self, reply: DiskReplyView) -> (BusView, BlkStepView) {
        match self.blk {
            None => (self, BlkStepView::Done(false)),
            Some(b) => self.after_blk(b.resume(self.dram, DRAM_BASE, reply)),
        }
    }

    /// The bus after a step of serving the entropy device's queue.
    pub open spec fn after_rng(self, out: (RngView, Seq<u8>, RngStepView)) -> (
        BusView,
        RngStepView,
    ) {
        let s = BusView { rng: out.0, dram: out.1, ..self };
        if out.2 == RngStepView::Done(true) {
            (BusView { plic: s.plic.set_pending(VIRTIO_RNG_IRQ as int), ..s }, out.2)
        } else {
            (s, out.2)
        }
    }

    /// The queue of the entropy device is served from its registers on.
    pub open spec fn process_rng(self) -> (BusView, RngStepView) {
        self.after_rng(self.rng.process(self.dram, DRAM_BASE))
    }

    /// The queue of the entropy device is served on with random bytes.
    pub open spec fn resume_rng(self, bytes: Seq<u8>) -> (BusView, RngStepView) {
        self.after_rng(self.rng.resume(self.dram, DRAM_BASE, bytes))
    }

    /// One byte arrives at the serial port.
    pub open spec fn receive(self, byte: u8) -> BusView {
        BusView {
            uart: self.uart.receive(byte),
            plic: self.plic.set_pending(UART_IRQ as int),
            ..self
        }
    }

    /// The machine timer has run out.
    pub open spec fn timer_due(self) -> bool {
        self.mtime >= self.mtimecmp
    }

    /// The software interrupt of hart `hart` is pending.
    pub open spec fn software_due(self, hart: usize) -> bool {
        (self.msip >> hart) & 1 != 0
    }

    /// The supervisor timer is in use and has run out.
    pub open spec fn s_timer_due(self) -> bool {
        self.stimecmp != u64::MAX && self.mtime >= self.stimecmp
    }
}

/// The low half of `v`.
fn low_half(v: u64) -> (r: u32)
    ensures
        r == low32(v),
{
    (v % 0x1_0000_0000) as u32
}

/// The high half of `v`.
fn high_half(v: u64) -> (r: u32)
    ensures
        r == high32(v),
{
    (v / 0x1_0000_0000) as u32
}

/// The number with the given halves.
fn join_halves(high: u32, low: u32) -> (v: u64)
    ensures
        v == halves(high, low),
{
    high as u64 * 0x1_0000_0000 + low as u64
}

/// Byte `i` of the word `v`.
fn byte_of_word(v: u32, i: u64) -> (b: u8)
    ensures
        b == word_byte(v, i),
{
    if i == 0 {
        (v % 256) as u8
    } else if i == 1 {
        (v / 0x100 % 256) as u8
    } else if i == 2 {
        (v / 0x1_0000 % 256) as u8
    } else {
        (v / 0x100_0000) as u8
    }
}

impl Bus {
    /// A bus with the given memories, with or without a block device, and with
    /// everything else after reset.
    pub fn new(mrom: Mrom, dram: Dram, flash: Flash, drive: Option<VirtioBlock>) -> (b: Self)
        ensures
            b@ == (BusView {
                mrom: mrom@,
                dram: dram@,
                uart: uart_reset(),
                flash: flash@,
                plic: plic_reset(),
                blk: match drive {
                    Some(d) => Some(d@),
                    None => None,
                },
                rng: rng_reset(),
                mtime: 0,
                mtimecmp: 10000,
                stimecmp: u64::MAX,
                msip: 0,
                rtc: 0,
                bell: None,
            }),
    {
        Self {
            mrom,
            dram,
            uart: Uart::new(),
            flash,
            plic: Plic::new(),
            virtio_block: drive,
            virtio_rng: VirtioRng::new(),
            mtime: 0,
            mtimecmp: 10000,
            stimecmp: u64::MAX,
            msip: 0,
            rtc: 0,
            bell: None,
        }
    }

    /// Advances the time by one tick.
    pub fn tick_timer(&mut self)
        ensures
            final(self)@ == (BusView { mtime: old(self)@.mtime.wrapping_add(1), ..old(self)@ }),
    {
        self.tick_timer_by(1);
    }

    /// Advances the time by `delta` ticks; the counter wraps.
    pub fn tick_timer_by(&mut self, delta: u64)
        ensures
            final(self)@ == (BusView { mtime: old(self)@.mtime.wrapping_add(delta), ..old(self)@ }),
    {
        self.mtime = self.mtime.wrapping_add(delta);
    }

    /// Sets the wall-clock time, in seconds, that the real-time clock shows.
    pub fn set_rtc(&mut self, seconds: u64)
        ensures
            final(self)@ == (BusView { rtc: seconds, ..old(self)@ }),
    {
        self.rtc = seconds;
    }

    /// The supervisor timer's deadline.
    pub fn deadline(&self) -> (t: u64)
        ensures
            t == self@.stimecmp,
    {
        self.stimecmp
    }

    /// Sets the supervisor timer's deadline.
    pub fn set_stimecmp(&mut self, value: u64)
        ensures
            final(self)@ == (BusView { stimecmp: value, ..old(self)@ }),
    {
        self.stimecmp = value;
    }

    /// The device whose driver rang its bell, if any.
    pub fn rung(&self) -> (b: Option<Bell>)
        ensures
            b == self@.bell,
    {
        self.bell
    }

    /// Answers the bell: it is silent again.
    pub fn silence(&mut self)
        ensures
            final(self)@ == (BusView { bell: None, ..old(self)@ }),
    {
        self.bell = None;
    }

    /// Serves the queue of the block device from its registers on.
    pub fn process_virtio_block_queue(&mut self) -> (r: BlkStep)
        ensures
            (final(self)@, r@) == old(self)@.process_blk(),
    {
        let step = match &mut self.virtio_block {
            None => return BlkStep::Done(false),
            Some(vb) => vb.process_queue(&mut self.dram, DRAM_BASE),
        };
        if let BlkStep::Done(true) = step {
            self.plic.set_pending(VIRTIO_BLK_IRQ);
        }
        step
    }

    /// Serves the queue of the block device on with the disk's reply.
    pub fn resume_virtio_block_queue(&mut self, reply: &DiskReply) -> (r: BlkStep)
        ensures
            (final(self)@, r@) == old(self)@.resume_blk(reply@),
    {
        let step = match &mut self.virtio_block {
            None => return BlkStep::Done(false),
            Some(vb) => vb.resume_queue(&mut self.dram, DRAM_BASE, reply),
        };
        if let BlkStep::Done(true) = step {
            self.plic.set_pending(VIRTIO_BLK_IRQ);
        }
        step
    }

    /// Serves the queue of the entropy device from its registers on.
    pub fn process_virtio_rng_queue(&mut self) -> (r: RngStep)
        ensures
            (final(self)@, r@) == old(self)@.process_rng(),
    {
        let step = self.virtio_rng.process_queue(&mut self.dram, DRAM_BASE);
        if let RngStep::Done(true) = step {
            self.plic.set_pending(VIRTIO_RNG_IRQ);
        }
        step
    }

    /// Serves the queue of the entropy device on with random bytes.
    pub fn resume_virtio_rng_queue(&mut self, bytes: &Vec<u8>) -> (r: RngStep)
        ensures
            (final(self)@, r@) == old(self)@.resume_rng(bytes@),
    {
        let step = self.virtio_rng.resume_queue(&mut self.dram, DRAM_BASE, bytes);
        if let RngStep::Done(true) = step {
            self.plic.set_pending(VIRTIO_RNG_IRQ);
        }
        step
    }

    /// Lets the interrupt controller see the interrupt line of the serial port.
    fn update_uart_irq(&mut self)
        ensures
            final(self)@ == old(self)@.sync_uart(),
    {
        if self.uart.has_pending_interrupt() {
            self.plic.set_pending(UART_IRQ);
        } else {
            self.plic.clear_pending(UART_IRQ);
        }
    }

    /// Lets the interrupt controller see the interrupt line of the serial port.
    pub fn update_uart_irq_public(&mut self)
        ensures
            final(self)@ == old(self)@.sync_uart(),
    {
        self.update_uart_irq();
    }

    /// Reads a register of the serial port.
    fn read_uart(&mut self, offset: u64) -> (v: u8)
        ensures
            (final(self)@, v) == old(self)@.uart_read(offset),
    {
        let v: u8 = match self.uart.read8(offset) {
            Ok(v) => v,
            Err(_) => 0,
        };
        self.update_uart_irq();
        v
    }

    /// Writes a register of the serial port.
    fn write_uart(&mut self, offset: u64, value: u8) -> (r: Result<(), &'static str>)
        ensures
            r is Ok,
            final(self)@ == old(self)@.uart_write(offset, value),
    {
        let r = self.uart.write8(offset, value);
        self.update_uart_irq();
        r
    }

    /// Reads a register of the block device.
    fn read_block(&mut self, offset: u64) -> (v: u32)
        ensures
            final(self)@ == old(self)@,
            v == old(self)@.blk_read(offset),
    {
        match &mut self.virtio_block {
            None => 0,
            Some(vb) => match vb.read32(offset) {
                Ok(v) => v,
                Err(_) => 0,
            },
        }
    }

    /// Writes a register of the block device.
    fn write_block(&mut self, offset: u64, value: u32)
        ensures
            final(self)@ == old(self)@.blk_write(offset, value),
    {
        let status: u32 = match &mut self.virtio_block {
            None => return ,
            Some(vb) => {
                let _ = vb.write32(offset, value);
                match vb.read32(0x60) {
                    Ok(v) => v,
                    Err(_) => 0,
                }
            },
        };
        if offset == 0x50 && value == 0 {
            self.bell = Some(Bell::Block);
        } else if offset == 0x64 {
            if status == 0 {
                self.plic.clear_pending(VIRTIO_BLK_IRQ);
            } else {
                self.plic.set_pending(VIRTIO_BLK_IRQ);
            }
        }
    }

    /// Writes a register of the entropy device.
    fn write_rng(&mut self, offset: u64, value: u32)
        ensures
            final(self)@ == old(self)@.rng_write(offset, value),
    {
        let _ = self.virtio_rng.write32(offset, value);
        if offset == 0x50 && value == 0 {
            self.bell = Some(Bell::Rng);
        } else if offset == 0x64 {
            let status: u32 = match self.virtio_rng.read32(0x60) {
                Ok(v) => v,
                Err(_) => 0,
            };
            if status == 0 {
                self.plic.clear_pending(VIRTIO_RNG_IRQ);
            } else {
                self.plic.set_pending(VIRTIO_RNG_IRQ);
            }
        }
    }

    /// An eight-byte read of the interruptor.
    fn read_clint64(&self, offset: u64) -> (v: u64)
        ensures
            v == self@.clint_read64(offset),
    {
        if offset == 0 {
            self.msip
        } else if offset == 0xBFF8 {
            self.mtime
        } else if offset == 0x4000 {
            self.mtimecmp
        } else {
            0
        }
    }

    /// A four-byte read of the interruptor.
    fn read_clint32(&self, offset: u64) -> (v: u32)
        ensures
            v == self@.clint_read32(offset),
    {
        if offset == 0 {
            low_half(self.msip)
        } else if offset == 0xBFF8 {
            low_half(self.mtime)
        } else if offset == 0xBFFC {
            high_half(self.mtime)
        } else if offset == 0x4000 {
            low_half(self.mtimecmp)
        } else if offset == 0x4004 {
            high_half(self.mtimecmp)
        } else {
            0
        }
    }

    /// An eight-byte write to the interruptor.
    fn write_clint64(&mut self, offset: u64, value: u64)
        ensures
            final(self)@ == old(self)@.clint_write64(offset, value),
    {
        if offset == 0 {
            self.msip = value % 2;
        } else if offset == 0x4000 {
            self.mtimecmp = value;
        }
    }

    /// A four-byte write to the interruptor.
    fn write_clint32(&mut self, offset: u64, value: u32)
        ensures
            final(self)@ == old(self)@.clint_write32(offset, value),
    {
        if offset == 0 {
            self.msip = join_halves(0, value % 2);
        } else if offset == 0x4000 {
            self.mtimecmp = join_halves(high_half(self.mtimecmp), value);
        } else if offset == 0x4004 {
            self.mtimecmp = join_halves(value, low_half(self.mtimecmp));
        }
    }

    /// Reads eight bytes.
    pub fn read64(&mut self, addr: u64) -> (r: Result<u64, &'static str>)
        ensures
            final(self)@ == old(self)@.read64(addr).0,
            same_result(r, old(self)@.read64(addr).1),
    {
        proof {
            reveal(BusView::read64);
        }
        match region(addr) {
            Region::Mrom => self.mrom.read64(addr - MROM_BASE),
            Region::Dram => self.dram.read64(addr - DRAM_BASE),
            Region::Clint => Ok(self.read_clint64(addr - CLINT_BASE)),
            Region::Uart => Ok(self.read_uart(addr - UART_BASE) as u64),
            Region::Block => {
                if addr - VIRTIO_BLK_BASE == 0x100 {
                    let low: u32 = self.read_block(0x100);
                    let high: u32 = self.read_block(0x104);
                    Ok(join_halves(high, low))
                } else {
                    Ok(0)
                }
            },
            Region::Flash => self.flash.read64(addr - FLASH_BASE),
            Region::FlashBank1 => Ok(u64::MAX),
            Region::Unmapped => Err("总线读取：地址超出范围"),
            _ => Ok(0),
        }
    }

    /// Writes eight bytes.
    pub fn write64(&mut self, addr: u64, value: u64) -> (r: Result<(), &'static str>)
        ensures
            final(self)@ == old(self)@.write64(addr, value).0,
            same_result(r, old(self)@.write64(addr, value).1),
    {
        proof {
            reveal(BusView::write64);
        }
        match region(addr) {
            Region::Dram => self.dram.write64(addr - DRAM_BASE, value),
            Region::Clint => {
                self.write_clint64(addr - CLINT_BASE, value);
                Ok(())
            },
            Region::Uart => self.write_uart(addr - UART_BASE, (value % 256) as u8),
            Region::Flash => self.flash.write64(addr - FLASH_BASE, value),
            Region::Mrom | Region::Rtc | Region::FwCfg | Region::Unmapped => Err(
                "总线写入：地址超出范围或只读区域",
            ),
            _ => Ok(()),
        }
    }

    /// Reads four bytes.
    pub fn read32(&mut self, addr: u64) -> (r: Result<u32, &'static str>)
        ensures
            final(self)@ == old(self)@.read32(addr).0,
            same_result(r, old(self)@.read32(addr).1),
    {
        proof {
            reveal(BusView::read32);
        }
        match region(addr) {
            Region::Mrom => self.mrom.read32(addr - MROM_BASE),
            Region::Dram => self.dram.read32(addr - DRAM_BASE),
            Region::Clint => Ok(self.read_clint32(addr - CLINT_BASE)),
            Region::Plic => self.plic.read32(addr - PLIC_BASE),
            Region::Uart => Ok(self.read_uart(addr - UART_BASE) as u32),
            Region::Block => Ok(self.read_block(addr - VIRTIO_BLK_BASE)),
            Region::Rng => self.virtio_rng.read32(addr - VIRTIO_RNG_BASE),
            Region::Rtc => {
                if addr == RTC_BASE {
                    Ok(low_half(self.rtc))
                } else if addr == RTC_BASE + 4 {
                    Ok(high_half(self.rtc))
                } else {
                    Ok(0)
                }
            },
            Region::Flash => self.flash.read32(addr - FLASH_BASE),
            Region::FlashBank1 => Ok(u32::MAX),
            Region::Unmapped => Err("总线读取：地址超出范围"),
            _ => Ok(0),
        }
    }

    /// Writes four bytes.
    pub fn write32(&mut self, addr: u64, value: u32) -> (r: Result<(), &'static str>)
        ensures
            final(self)@ == old(self)@.write32(addr, value).0,
            same_result(r, old(self)@.write32(addr, value).1),
    {
        proof {
            reveal(BusView::write32);
        }
        match region(addr) {
            Region::Dram => self.dram.write32(addr - DRAM_BASE, value),
            Region::Clint => {
                self.write_clint32(addr - CLINT_BASE, value);
                Ok(())
            },
            Region::Plic => {
                let r = self.plic.write32(addr - PLIC_BASE, value);
                self.update_uart_irq();
                r
            },
            Region::Uart => self.write_uart(addr - UART_BASE, (value % 256) as u8),
            Region::Block => {
                self.write_block(addr - VIRTIO_BLK_BASE, value);
                Ok(())
            },
            Region::Rng => {
                self.write_rng(addr - VIRTIO_RNG_BASE, value);
                Ok(())
            },
            Region::Flash => self.flash.write32(addr - FLASH_BASE, value),
            _ => Ok(()),
        }
    }

    /// Reads two bytes.
    pub fn read16(&mut self, addr: u64) -> (r: Result<u16, &'static str>)
        ensures
            final(self)@ == old(self)@.read16(addr).0,
            same_result(r, old(self)@.read16(addr).1),
    {
        proof {
            reveal(BusView::read16);
        }
        match region(addr) {
            Region::Mrom => self.mrom.read16(addr - MROM_BASE),
            Region::Dram => self.dram.read16(addr - DRAM_BASE),
            Region::Flash => self.flash.read16(addr - FLASH_BASE),
            Region::FlashBank1 => Ok(u16::MAX),
            Region::Clint | Region::Uart | Region::Rtc | Region::Test | Region::Unmapped => Err(
                "总线读取：地址超出范围",
            ),
            _ => Ok(0),
        }
    }

    /// Writes two bytes.
    pub fn write16(&mut self, addr: u64, value: u16) -> (r: Result<(), &'static str>)
        ensures
            final(self)@ == old(self)@.write16(addr, value).0,
            same_result(r, old(self)@.write16(addr, value).1),
    {
        proof {
            reveal(BusView::write16);
        }
        match region(addr) {
            Region::Dram => self.dram.write16(addr - DRAM_BASE, value),
            Region::Flash => self.flash.write16(addr - FLASH_BASE, value),
            _ => Ok(()),
        }
    }

    /// Reads one byte.
    pub fn read8(&mut self, addr: u64) -> (r: Result<u8, &'static str>)
        ensures
            final(self)@ == old(self)@.read8(addr).0,
            same_result(r, old(self)@.read8(addr).1),
    {
        proof {
            reveal(BusView::read8);
        }
        match region(addr) {
            Region::Mrom => self.mrom.read8(addr - MROM_BASE),
            Region::Dram => self.dram.read8(addr - DRAM_BASE),
            Region::Uart => Ok(self.read_uart(addr - UART_BASE)),
            Region::Block => {
                let offset: u64 = addr - VIRTIO_BLK_BASE;
                if offset >= 0x100 {
                    let w: u32 = self.read_block(offset - offset % 4);
                    Ok(byte_of_word(w, offset % 4))
                } else {
                    Ok(0)
                }
            },
            Region::Rng => {
                let offset: u64 = addr - VIRTIO_RNG_BASE;
                if offset >= 0x100 {
                    match self.virtio_rng.read32(offset - offset % 4) {
                        Ok(w) => Ok(byte_of_word(w, offset % 4)),
                        Err(_) => Ok(0),
                    }
                } else {
                    Ok(0)
                }
            },
            Region::Flash => self.flash.read8(addr - FLASH_BASE),
            Region::FlashBank1 => Ok(u8::MAX),
            Region::Clint | Region::Rtc | Region::Test | Region::Unmapped => Err(
                "总线读取：地址超出范围",
            ),
            _ => Ok(0),
        }
    }

    /// Writes one byte.
    pub fn write8(&mut self, addr: u64, value: u8) -> (r: Result<(), &'static str>)
        ensures
            final(self)@ == old(self)@.write8(addr, value).0,
            same_result(r, old(self)@.write8(addr, value).1),
    {
        proof {
            reveal(BusView::write8);
        }
        match region(addr) {
            Region::Dram => self.dram.write8(addr - DRAM_BASE, value),
            Region::Uart => self.write_uart(addr - UART_BASE, value),
            Region::Flash => self.flash.write8(addr - FLASH_BASE, value),
            _ => Ok(()),
        }
    }

    /// The input queue of the serial port.
    pub fn get_uart_input_buffer(&mut self) -> (q: &mut VecDeque<u8>)
        ensures
            q@ == old(self)@.uart.input,
            final(self)@ == (BusView {
                uart: UartView { input: final(q)@, ..old(self)@.uart },
                ..old(self)@
            }),
    {
        self.uart.input_mut()
    }

    /// Receives one byte at the serial port and raises its interrupt.
    pub fn receive_input(&mut self, byte: u8)
        ensures
            final(self)@ == old(self)@.receive(byte),
    {
        self.uart.receive(byte);
        self.plic.set_pending(UART_IRQ);
    }

    /// Takes the bytes that the serial port has sent.
    pub fn take_output(&mut self) -> (out: Vec<u8>)
        ensures
            out@ == old(self)@.uart.sent,
            final(self)@ == (BusView {
                uart: UartView { sent: Seq::empty(), ..old(self)@.uart },
                ..old(self)@
            }),
    {
        self.uart.take_output()
    }

    /// Whether the interrupt controller has an interrupt for context
    /// `context_id`.
    pub fn has_external_interrupt(&self, context_id: usize) -> (b: bool)
        ensures
            b == self@.plic.has_pending(context_id as int),
    {
        self.plic.has_pending_interrupt(context_id)
    }

    /// Whether the machine timer has run out.
    pub fn has_timer_interrupt(&self) -> (b: bool)
        ensures
            b == self@.timer_due(),
    {
        self.mtime >= self.mtimecmp
    }

    /// The time.
    pub fn get_mtime_public(&self) -> (t: u64)
        ensures
            t == self@.mtime,
    {
        self.mtime
    }

    /// The machine timer's deadline.
    pub fn get_mtimecmp(&self) -> (t: u64)
        ensures
            t == self@.mtimecmp,
    {
        self.mtimecmp
    }

    /// Whether the supervisor timer is in use and has run out.
    pub fn has_s_timer_interrupt(&self) -> (b: bool)
        ensures
            b == self@.s_timer_due(),
    {
        self.stimecmp != u64::MAX && self.mtime >= self.stimecmp
    }

    /// Whether the software interrupt of hart `hart_id` is pending.
    pub fn has_software_interrupt(&self, hart_id: usize) -> (b: bool)
        requires
            hart_id < 64,
        ensures
            b == self@.software_due(hart_id),
    {
        (self.msip >> hart_id) & 1 != 0
    }
}

/// The read-only memories hold the same bytes.
pub open spec fn rom_kept(before: BusView, after: BusView) -> bool {
    after.mrom == before.mrom && after.flash.data == before.flash.data
}

/// No read changes a memory or rings a bell. Only reads of the interrupt
/// controller, which may claim an interrupt, and of the serial port, which may
/// take a byte or acknowledge an interrupt, change anything.
pub proof fn law_reads(b: BusView, addr: u64)
    ensures
        region_of(addr) != Region::Plic && region_of(addr) != Region::Uart ==> {
            &&& b.read64(addr).0 == b
            &&& b.read32(addr).0 == b
            &&& b.read16(addr).0 == b
            &&& b.read8(addr).0 == b
        },
        rom_kept(b, b.read64(addr).0) && b.read64(addr).0.dram == b.dram,
        rom_kept(b, b.read32(addr).0) && b.read32(addr).0.dram == b.dram,
        rom_kept(b, b.read16(addr).0) && b.read16(addr).0.dram == b.dram,
        rom_kept(b, b.read8(addr).0) && b.read8(addr).0.dram == b.dram,
        b.read64(addr).0.bell == b.bell,
        b.read32(addr).0.bell == b.bell,
        b.read16(addr).0.bell == b.bell,
        b.read8(addr).0.bell == b.bell,
{
    reveal(BusView::read64);
    reveal(BusView::read32);
    reveal(BusView::read16);
    reveal(BusView::read8);
}

/// No write changes the boot ROM or what the flash stores.
pub proof fn law_writes_keep_rom(b: BusView, addr: u64, value: u64)
    ensures
        rom_kept(b, b.write64(addr, value).0),
        rom_kept(b, b.write32(addr, low32(value)).0),
        rom_kept(b, b.write16(addr, (value % 0x1_0000) as u16).0),
        rom_kept(b, b.write8(addr, low_byte(value)).0),
{
    reveal(BusView::write64);
    reveal(BusView::write32);
    reveal(BusView::write16);
    reveal(BusView::write8);
}

/// A bell is rung only by a four-byte write to a VirtIO device, and such a write
/// never fails.
pub proof fn law_who_rings(b: BusView, addr: u64, value: u64, half: u32)
    ensures
        b.write64(addr, value).0.bell == b.bell,
        b.write16(addr, (value % 0x1_0000) as u16).0.bell == b.bell,
        b.write8(addr, low_byte(value)).0.bell == b.bell,
        region_of(addr) != Region::Block && region_of(addr) != Region::Rng ==> b.write32(
            addr,
            half,
        ).0.bell == b.bell,
        b.write32(addr, half).1 is Err ==> b.write32(addr, half).0.bell == b.bell,
{
    reveal(BusView::write64);
    reveal(BusView::write32);
    reveal(BusView::write16);
    reveal(BusView::write8);
}

/// The supervisor timer's deadline is as before.
pub open spec fn deadline_kept(before: BusView, after: BusView) -> bool {
    after.stimecmp == before.stimecmp
}

/// No access over the bus changes the supervisor timer's deadline.
pub proof fn law_accesses_keep_deadline(b: BusView, addr: u64, value: u64, half: u32)
    ensures
        deadline_kept(b, b.read64(addr).0),
        deadline_kept(b, b.read32(addr).0),
        deadline_kept(b, b.read16(addr).0),
        deadline_kept(b, b.read8(addr).0),
        deadline_kept(b, b.write64(addr, value).0),
        deadline_kept(b, b.write32(addr, half).0),
        deadline_kept(b, b.write16(addr, (value % 0x1_0000) as u16).0),
        deadline_kept(b, b.write8(addr, low_byte(value)).0),
{
    reveal(BusView::read64);
    reveal(BusView::read32);
    reveal(BusView::read16);
    reveal(BusView::read8);
    reveal(BusView::write64);
    reveal(BusView::write32);
    reveal(BusView::write16);
    reveal(BusView::write8);
}

/// The `n` bytes from `addr` on are in main memory.
pub open spec fn in_dram(b: BusView, addr: u64, n: nat) -> bool {
    DRAM_BASE <= addr && addr + n <= DRAM_BASE + DRAM_SIZE && addr + n <= DRAM_BASE + b.dram.len()
}

/// Main memory reads back what was written to it, for every width, and nothing
/// but main memory changes.
pub proof fn law_dram_reads_back(b: BusView, addr: u64, v: u64)
    ensures
        in_dram(b, addr, 8) ==> ({
            let (s, r) = b.write64(addr, v);
            r is Ok && s == BusView { dram: s.dram, ..b } && s.read64(addr) == (
                s,
                Ok::<u64, Seq<char>>(v),
            )
        }),
        in_dram(b, addr, 4) ==> ({
            let (s, r) = b.write32(addr, low32(v));
            r is Ok && s == BusView { dram: s.dram, ..b } && s.read32(addr) == (
                s,
                Ok::<u32, Seq<char>>(low32(v)),
            )
        }),
        in_dram(b, addr, 2) ==> ({
            let h = (v % 0x1_0000) as u16;
            let (s, r) = b.write16(addr, h);
            r is Ok && s == BusView { dram: s.dram, ..b } && s.read16(addr) == (
                s,
                Ok::<u16, Seq<char>>(h),
            )
        }),
        in_dram(b, addr, 1) ==> ({
            let (s, r) = b.write8(addr, low_byte(v));
            r is Ok && s == BusView { dram: s.dram, ..b } && s.read8(addr) == (
                s,
                Ok::<u8, Seq<char>>(low_byte(v)),
            )
        }),
{
    reveal(BusView::read64);
    reveal(BusView::read32);
    reveal(BusView::read16);
    reveal(BusView::read8);
    reveal(BusView::write64);
    reveal(BusView::write32);
    reveal(BusView::write16);
    reveal(BusView::write8);
    lemma_byte_ranges();
    let a = addr - DRAM_BASE;
    if in_dram(b, addr, 8) {
        law_read_after_write(b.dram, a, 8, v as nat);
    }
    if in_dram(b, addr, 4) {
        law_read_after_write(b.dram, a, 4, low32(v) as nat);
    }
    if in_dram(b, addr, 2) {
        law_read_after_write(b.dram, a, 2, ((v % 0x1_0000) as u16) as nat);
    }
}

/// The interrupt controller sees the interrupt line of the serial port: after the
/// lines are synchronised, its source is pending exactly when the line is high.
/// A byte that arrives makes it pending.
pub proof fn law_uart_line(b: BusView, byte: u8)
    requires
        b.plic.wf(),
    ensures
        b.sync_uart().plic.is_pending(10) == b.uart.has_interrupt(),
        b.receive(byte).plic.is_pending(10),
{
    law_pending_of_one(b.plic, 10, 10);
}

/// The machine timer is due from its deadline on, whichever way the deadline was
/// written; the supervisor timer likewise, but never for the largest deadline.
pub proof fn law_timers(b: BusView, deadline: u64)
    ensures
        b.clint_write64(0x4000, deadline).timer_due() == (b.mtime >= deadline),
        b.clint_write32(0x4000, low32(deadline)).clint_write32(0x4004, high32(deadline)).timer_due()
            == (b.mtime >= deadline),
        (BusView { stimecmp: deadline, ..b }).s_timer_due() == (deadline != u64::MAX && b.mtime
            >= deadline),
{
}

/// The software interrupt of hart 0 follows the low bit of what was written.
pub proof fn law_software_interrupt(b: BusView, value: u64)
    ensures
        b.clint_write64(0, value).software_due(0) == (value % 2 == 1),
{
    let m = value % 2;
    assert(m < 2 ==> ((m >> 0usize) & 1 != 0) == (m == 1)) by (bit_vector);
}

/// The interrupt controller of every bus is well-formed.
pub proof fn law_every_bus_is_well_formed(b: &Bus)
    ensures
        b@.plic.wf(),
{
    law_every_plic_is_well_formed(&b.plic);
}

} // verus!
