use riscv64_emulator::bus::{
    Bell, Bus, CLINT_BASE, DRAM_BASE, DRAM_SIZE, FLASH_BANK1_BASE, FLASH_BASE, FW_CFG_BASE, MROM_BASE,
    PCI_BASE, PLIC_BASE, RTC_BASE, TEST_BASE, UART_BASE, VIRTIO_BASE, VIRTIO_BLK_BASE,
    VIRTIO_RNG_BASE,
};
use riscv64_emulator::dram::Dram;
use riscv64_emulator::flash::Flash;
use riscv64_emulator::mrom::Mrom;
use riscv64_emulator::virtio::VirtioBlock;

const READ_ERROR: &str = "总线读取：地址超出范围";
const WRITE_ERROR: &str = "总线写入：地址超出范围或只读区域";

fn bus() -> Bus {
    let mut mrom = Mrom::new(0x1000).unwrap();
    mrom.load(0, &[1, 2, 3, 4, 5, 6, 7, 8]).unwrap();
    let mut flash = Flash::new(0x1000);
    flash.load(0, &[9, 8, 7, 6, 5, 4, 3, 2]).unwrap();
    Bus::new(mrom, Dram::new(0x1_0000).unwrap(), flash, Some(VirtioBlock::new(0x3_0000_0000_0200)))
}

#[test]
fn rom_is_read_at_every_width_and_never_written() {
    let mut b = bus();
    for _ in 0..2 {
        assert_eq!(b.read64(MROM_BASE), Ok(0x0807_0605_0403_0201));
        assert_eq!(b.read32(MROM_BASE + 4), Ok(0x0807_0605));
        assert_eq!(b.read16(MROM_BASE + 2), Ok(0x0403));
        assert_eq!(b.read8(MROM_BASE + 7), Ok(8));
        assert_eq!(b.write64(MROM_BASE, 0), Err(WRITE_ERROR));
        assert_eq!(b.write32(MROM_BASE, 0), Ok(()));
        assert_eq!(b.write16(MROM_BASE, 0), Ok(()));
        assert_eq!(b.write8(MROM_BASE, 0), Ok(()));
    }
    assert_eq!(b.read64(0x2000), Err("MROM 读取64：地址超出范围"));
    assert_eq!(b.read8(0xFFF), Err(READ_ERROR));
}

#[test]
fn main_memory() {
    let mut b = bus();
    b.write64(DRAM_BASE + 8, 0x1122_3344_5566_7788).unwrap();
    assert_eq!(b.read64(DRAM_BASE + 8), Ok(0x1122_3344_5566_7788));
    b.write32(DRAM_BASE + 8, 1).unwrap();
    assert_eq!(b.read32(DRAM_BASE + 8), Ok(1));
    b.write16(DRAM_BASE + 12, 2).unwrap();
    assert_eq!(b.read16(DRAM_BASE + 12), Ok(2));
    b.write8(DRAM_BASE + 15, 3).unwrap();
    assert_eq!(b.read8(DRAM_BASE + 15), Ok(3));
    assert_eq!(b.read64(DRAM_BASE + 8), Ok(0x0322_0002_0000_0001));
    assert_eq!(b.read64(DRAM_BASE + 0x1_0000), Err("DRAM 读取64：地址超出范围"));
    assert_eq!(b.write32(DRAM_BASE + 0x1_0000, 0), Err("DRAM 写入32：地址超出范围"));
    assert_eq!(b.read64(DRAM_BASE + DRAM_SIZE), Err(READ_ERROR));
    assert_eq!(b.read64(DRAM_BASE - 1), Err(READ_ERROR));
}

#[test]
fn interruptor() {
    let mut b = bus();
    assert_eq!(b.get_mtimecmp(), 10000);
    assert!(!b.has_timer_interrupt());
    b.tick_timer_by(0xA_0000_0000);
    b.tick_timer();
    assert_eq!(b.get_mtime_public(), 0xA_0000_0001);
    assert_eq!(b.read64(CLINT_BASE + 0xBFF8), Ok(0xA_0000_0001));
    assert_eq!(b.read32(CLINT_BASE + 0xBFF8), Ok(1));
    assert_eq!(b.read32(CLINT_BASE + 0xBFFC), Ok(0xA));
    assert!(b.has_timer_interrupt());
    // The time cannot be written.
    b.write64(CLINT_BASE + 0xBFF8, 0).unwrap();
    assert_eq!(b.get_mtime_public(), 0xA_0000_0001);
    b.write32(CLINT_BASE + 0x4000, 2).unwrap();
    b.write32(CLINT_BASE + 0x4004, 0xA).unwrap();
    assert_eq!(b.get_mtimecmp(), 0xA_0000_0002);
    assert!(!b.has_timer_interrupt());
    assert_eq!(b.read32(CLINT_BASE + 0x4000), Ok(2));
    assert_eq!(b.read32(CLINT_BASE + 0x4004), Ok(0xA));
    b.write64(CLINT_BASE + 0x4000, 0xA_0000_0001).unwrap();
    assert_eq!(b.read64(CLINT_BASE + 0x4000), Ok(0xA_0000_0001));
    assert!(b.has_timer_interrupt());
    // Software interrupts: one bit.
    b.write32(CLINT_BASE, 3).unwrap();
    assert!(b.has_software_interrupt(0));
    assert!(!b.has_software_interrupt(1));
    assert_eq!(b.read32(CLINT_BASE), Ok(1));
    b.write64(CLINT_BASE, 2).unwrap();
    assert_eq!(b.read64(CLINT_BASE), Ok(0));
    assert!(!b.has_software_interrupt(0));
    // Elsewhere there is nothing, and narrow reads are refused.
    assert_eq!(b.read64(CLINT_BASE + 0xF_FFF8), Ok(0));
    assert_eq!(b.read32(CLINT_BASE + 8), Ok(0));
    assert_eq!(b.read16(CLINT_BASE), Err(READ_ERROR));
    assert_eq!(b.read8(CLINT_BASE), Err(READ_ERROR));
    assert_eq!(b.write8(CLINT_BASE, 1), Ok(()));
}

#[test]
fn supervisor_timer() {
    let mut b = bus();
    b.tick_timer_by(5);
    assert!(!b.has_s_timer_interrupt());
    b.set_stimecmp(5);
    assert!(b.has_s_timer_interrupt());
    b.set_stimecmp(6);
    assert!(!b.has_s_timer_interrupt());
    assert_eq!(b.deadline(), 6);
    b.tick_timer_by(u64::MAX - 5);
    b.set_stimecmp(u64::MAX);
    assert!(!b.has_s_timer_interrupt());
}

#[test]
fn serial_port_drives_its_interrupt() {
    let mut b = bus();
    b.write32(PLIC_BASE + 4 * 10, 1).unwrap();
    b.write32(PLIC_BASE + 0x2080, 1 << 10).unwrap();
    assert!(!b.has_external_interrupt(1));
    b.write8(UART_BASE + 1, 3).unwrap();
    assert!(b.has_external_interrupt(1));
    assert!(!b.has_external_interrupt(0));
    // The status read acknowledges the transmitter.
    assert_eq!(b.read8(UART_BASE + 2), Ok(2));
    assert!(!b.has_external_interrupt(1));
    b.receive_input(b'q');
    assert!(b.has_external_interrupt(1));
    assert_eq!(b.read32(PLIC_BASE + 0x20_1004), Ok(10));
    assert!(!b.has_external_interrupt(1));
    // The line is still high: completing shows it again.
    b.write32(PLIC_BASE + 0x20_1004, 10).unwrap();
    assert!(b.has_external_interrupt(1));
    assert_eq!(b.read64(UART_BASE), Ok(b'q' as u64));
    assert!(!b.has_external_interrupt(1));
    b.get_uart_input_buffer().push_back(7);
    assert!(!b.has_external_interrupt(1));
    b.update_uart_irq_public();
    assert!(b.has_external_interrupt(1));
    assert_eq!(b.read32(UART_BASE), Ok(7));
}

#[test]
fn serial_port_takes_the_low_byte() {
    let mut b = bus();
    b.write64(UART_BASE, 0x1141).unwrap();
    b.write32(UART_BASE, 0x1142).unwrap();
    b.write8(UART_BASE, 0x43).unwrap();
    assert_eq!(b.take_output(), b"ABC".to_vec());
    assert_eq!(b.read16(UART_BASE), Err(READ_ERROR));
    assert_eq!(b.write16(UART_BASE, 0x44), Ok(()));
    assert_eq!(b.take_output(), Vec::<u8>::new());
}

#[test]
fn interrupt_controller_takes_words_only() {
    let mut b = bus();
    b.write32(PLIC_BASE + 8, 5).unwrap();
    assert_eq!(b.read32(PLIC_BASE + 8), Ok(5));
    assert_eq!(b.read64(PLIC_BASE + 8), Ok(0));
    assert_eq!(b.read16(PLIC_BASE + 8), Ok(0));
    assert_eq!(b.read8(PLIC_BASE + 8), Ok(0));
    b.write64(PLIC_BASE + 8, 1).unwrap();
    b.write16(PLIC_BASE + 8, 1).unwrap();
    b.write8(PLIC_BASE + 8, 1).unwrap();
    assert_eq!(b.read32(PLIC_BASE + 8), Ok(5));
}

#[test]
fn flash_banks() {
    let mut b = bus();
    assert_eq!(b.read64(FLASH_BASE), Ok(0x0203_0405_0607_0809));
    assert_eq!(b.read32(FLASH_BASE), Ok(0x0607_0809));
    assert_eq!(b.read16(FLASH_BASE), Ok(0x0809));
    assert_eq!(b.read8(FLASH_BASE), Ok(9));
    b.write8(FLASH_BASE, 0x90).unwrap();
    assert_eq!(b.read8(FLASH_BASE), Ok(0x89));
    b.write64(FLASH_BASE, 0xFF).unwrap();
    b.write16(FLASH_BASE, 0x98).unwrap();
    assert_eq!(b.read16(FLASH_BASE + 0x40), Ok(0x51));
    b.write32(FLASH_BASE, 0xF0).unwrap();
    assert_eq!(b.read8(FLASH_BASE), Ok(9));
    assert_eq!(b.read64(FLASH_BANK1_BASE), Ok(u64::MAX));
    assert_eq!(b.read32(FLASH_BANK1_BASE), Ok(u32::MAX));
    assert_eq!(b.read16(FLASH_BANK1_BASE), Ok(u16::MAX));
    assert_eq!(b.read8(FLASH_BANK1_BASE + 0x1FF_FFFF), Ok(u8::MAX));
    assert_eq!(b.write64(FLASH_BANK1_BASE, 0), Ok(()));
}

#[test]
fn clock() {
    let mut b = bus();
    b.set_rtc(0x2_6789_ABCD);
    assert_eq!(b.read32(RTC_BASE), Ok(0x6789_ABCD));
    assert_eq!(b.read32(RTC_BASE + 4), Ok(2));
    assert_eq!(b.read32(RTC_BASE + 8), Ok(0));
    assert_eq!(b.read64(RTC_BASE), Ok(0));
    assert_eq!(b.read16(RTC_BASE), Err(READ_ERROR));
    assert_eq!(b.read8(RTC_BASE), Err(READ_ERROR));
    assert_eq!(b.write64(RTC_BASE, 0), Err(WRITE_ERROR));
    assert_eq!(b.write32(RTC_BASE, 0), Ok(()));
}

#[test]
fn places_without_a_device() {
    let mut b = bus();
    for a in [PCI_BASE, PCI_BASE + 0xFFF_FFF8, VIRTIO_BASE, 0x1000_3000, 0x1000_6FF8, 0x1000_8000] {
        assert_eq!(b.read64(a), Ok(0));
        assert_eq!(b.read32(a), Ok(0));
        assert_eq!(b.read16(a), Ok(0));
        assert_eq!(b.read8(a), Ok(0));
        assert_eq!(b.write64(a, 1), Ok(()));
    }
    assert_eq!(b.read64(FW_CFG_BASE), Ok(0));
    assert_eq!(b.read8(FW_CFG_BASE + 0x17), Ok(0));
    assert_eq!(b.read8(FW_CFG_BASE + 0x18), Err(READ_ERROR));
    assert_eq!(b.write64(FW_CFG_BASE, 0), Err(WRITE_ERROR));
    assert_eq!(b.write8(FW_CFG_BASE, 0), Ok(()));
    assert_eq!(b.read64(TEST_BASE), Ok(0));
    assert_eq!(b.read32(TEST_BASE), Ok(0));
    assert_eq!(b.read16(TEST_BASE), Err(READ_ERROR));
    assert_eq!(b.read8(TEST_BASE), Err(READ_ERROR));
    assert_eq!(b.write64(TEST_BASE, 0), Ok(()));
    for a in [0, 0x1_0000, 0x4000_0000, 0x1_0000_0000, u64::MAX] {
        assert_eq!(b.read64(a), Err(READ_ERROR));
        assert_eq!(b.read32(a), Err(READ_ERROR));
        assert_eq!(b.read16(a), Err(READ_ERROR));
        assert_eq!(b.read8(a), Err(READ_ERROR));
        assert_eq!(b.write64(a, 0), Err(WRITE_ERROR));
        assert_eq!(b.write32(a, 0), Ok(()));
        assert_eq!(b.write16(a, 0), Ok(()));
        assert_eq!(b.write8(a, 0), Ok(()));
    }
}

#[test]
fn virtio_registers_on_the_bus() {
    let mut b = bus();
    assert_eq!(b.read32(VIRTIO_BLK_BASE), Ok(0x7472_6976));
    assert_eq!(b.read32(VIRTIO_BLK_BASE + 8), Ok(2));
    assert_eq!(b.read32(VIRTIO_RNG_BASE + 8), Ok(4));
    // The capacity: 0x1_8000_0001 sectors.
    assert_eq!(b.read64(VIRTIO_BLK_BASE + 0x100), Ok(0x180_0000_0001));
    assert_eq!(b.read32(VIRTIO_BLK_BASE + 0x104), Ok(0x180));
    assert_eq!(b.read8(VIRTIO_BLK_BASE + 0x100), Ok(1));
    assert_eq!(b.read8(VIRTIO_BLK_BASE + 0x104), Ok(0x80));
    assert_eq!(b.read8(VIRTIO_BLK_BASE + 0x105), Ok(1));
    // size_max is 0x20000.
    assert_eq!(b.read8(VIRTIO_BLK_BASE + 0x10A), Ok(2));
    assert_eq!(b.read8(VIRTIO_BLK_BASE + 0x10B), Ok(0));
    assert_eq!(b.read8(VIRTIO_BLK_BASE), Ok(0));
    assert_eq!(b.read8(VIRTIO_RNG_BASE + 0x100), Ok(0));
    assert_eq!(b.read16(VIRTIO_BLK_BASE), Ok(0));
    assert_eq!(b.read64(VIRTIO_BLK_BASE), Ok(0));
    assert_eq!(b.read64(VIRTIO_RNG_BASE), Ok(0));
    b.write32(VIRTIO_BLK_BASE + 0x70, 3).unwrap();
    assert_eq!(b.read32(VIRTIO_BLK_BASE + 0x70), Ok(3));
    b.write64(VIRTIO_BLK_BASE + 0x70, 4).unwrap();
    b.write16(VIRTIO_BLK_BASE + 0x70, 4).unwrap();
    b.write8(VIRTIO_BLK_BASE + 0x70, 4).unwrap();
    assert_eq!(b.read32(VIRTIO_BLK_BASE + 0x70), Ok(3));
}

#[test]
fn a_bus_without_a_disk() {
    let mut b = Bus::new(
        Mrom::new(16).unwrap(),
        Dram::new(4096).unwrap(),
        Flash::new(0),
        None,
    );
    assert_eq!(b.read32(VIRTIO_BLK_BASE), Ok(0));
    assert_eq!(b.read64(VIRTIO_BLK_BASE + 0x100), Ok(0));
    assert_eq!(b.read8(VIRTIO_BLK_BASE + 0x100), Ok(0));
    b.write32(VIRTIO_BLK_BASE + 0x50, 0).unwrap();
    assert_eq!(b.rung(), None);
}

#[test]
fn bells() {
    let mut b = bus();
    b.write32(VIRTIO_BLK_BASE + 0x50, 1).unwrap();
    assert_eq!(b.rung(), None);
    b.write32(VIRTIO_BLK_BASE + 0x50, 0).unwrap();
    assert_eq!(b.rung(), Some(Bell::Block));
    b.silence();
    assert_eq!(b.rung(), None);
    b.write32(VIRTIO_RNG_BASE + 0x50, 0).unwrap();
    assert_eq!(b.rung(), Some(Bell::Rng));
}
