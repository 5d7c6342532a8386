use riscv64_emulator::bus::{Bus, DRAM_BASE, PLIC_BASE, VIRTIO_BLK_BASE};
use riscv64_emulator::cpu::{Cpu, Request};
use riscv64_emulator::csr::{MCAUSE, MEPC, MTVAL};
use riscv64_emulator::dram::Dram;
use riscv64_emulator::flash::Flash;
use riscv64_emulator::mrom::Mrom;
use riscv64_emulator::virtio::{BlkStep, DiskAction, DiskReply, VirtioBlock};

const NEXT: u16 = 1;
const WRITE: u16 = 2;

/// The queue has eight entries and stands at page 1 of main memory.
const QUEUE: u64 = 0x1000;
const AVAIL: u64 = QUEUE + 8 * 16;
const USED: u64 = QUEUE + 0x1000;

const HEADER: u64 = 0x4000;
const STATUS: u64 = 0x4100;
const DATA: u64 = 0x5000;

fn dram() -> Dram {
    let mut d = Dram::new(0x1_0000).unwrap();
    d.write8(STATUS, 0xEE).unwrap();
    d
}

fn desc(d: &mut Dram, i: u64, addr: u64, len: u32, flags: u16, next: u16) {
    let a = QUEUE + 16 * i;
    d.write64(a, DRAM_BASE + addr).unwrap();
    d.write32(a + 8, len).unwrap();
    d.write16(a + 12, flags).unwrap();
    d.write16(a + 14, next).unwrap();
}

fn header(d: &mut Dram, kind: u32, sector: u64) {
    d.write32(HEADER, kind).unwrap();
    d.write64(HEADER + 8, sector).unwrap();
}

/// Offers the chains with these heads.
fn offer(d: &mut Dram, heads: &[u16]) {
    for (i, h) in heads.iter().enumerate() {
        d.write16(AVAIL + 4 + 2 * i as u64, *h).unwrap();
    }
    d.write16(AVAIL + 2, heads.len() as u16).unwrap();
}

/// A device of 16 sectors whose queue is set up.
fn device() -> VirtioBlock {
    let mut b = VirtioBlock::new(16 * 512 + 100);
    b.write32(0x38, 8).unwrap();
    b.write32(0x40, ((DRAM_BASE + QUEUE) >> 12) as u32).unwrap();
    b
}

/// A request of header, one data buffer and status.
fn request(d: &mut Dram, kind: u32, sector: u64, len: u32) {
    header(d, kind, sector);
    desc(d, 0, HEADER, 16, NEXT, 1);
    desc(d, 1, DATA, len, NEXT | WRITE, 2);
    desc(d, 2, STATUS, 1, WRITE, 0);
    offer(d, &[0]);
}

fn used(d: &Dram, i: u64) -> (u32, u32) {
    (d.read32(USED + 4 + 8 * i).unwrap(), d.read32(USED + 8 + 8 * i).unwrap())
}

fn process(b: &mut VirtioBlock, d: &mut Dram) -> BlkStep {
    b.process_queue(d, DRAM_BASE)
}

#[test]
fn registers() {
    let mut b = VirtioBlock::new(0x1_0000_0000_0000 * 512 + 511);
    let want = [
        (0x000, 0x7472_6976),
        (0x004, 1),
        (0x008, 2),
        (0x00c, 0x554d_4551),
        (0x010, 0x246),
        (0x034, 256),
        (0x03c, 4096),
        (0x0fc, 0),
        (0x100, 0),
        (0x104, 0x1_0000),
        (0x108, 0x2_0000),
        (0x10c, 128),
        (0x114, 512),
        (0x200, 0),
    ];
    for (a, v) in want {
        assert_eq!(b.read32(a), Ok(v), "{a:#x}");
    }
    b.write32(0x014, 1).unwrap();
    assert_eq!(b.read32(0x010), Ok(0));
    b.write32(0x03c, 512).unwrap();
    assert_eq!(b.read32(0x03c), Ok(512));
    b.write32(0x40, 77).unwrap();
    assert_eq!(b.read32(0x40), Ok(77));
    assert_eq!(b.read32(0x44), Ok(1));
    b.write32(0x44, 0).unwrap();
    assert_eq!(b.read32(0x44), Ok(0));
    b.write32(0x30, 1).unwrap();
    assert_eq!(b.read32(0x40), Ok(0));
    b.write32(0x40, 5).unwrap();
    b.write32(0x30, 0).unwrap();
    assert_eq!(b.read32(0x40), Ok(77));
    b.write32(0x20, 0xF).unwrap();
    b.write32(0x24, 1).unwrap();
    b.write32(0x20, 0xF).unwrap();
    b.write32(0x28, 4096).unwrap();
    b.write32(0x70, 7).unwrap();
    assert_eq!(b.read32(0x70), Ok(7));
    // Reset.
    b.write32(0x70, 0).unwrap();
    assert_eq!(b.read32(0x70), Ok(0));
    assert_eq!(b.read32(0x40), Ok(0));
    assert_eq!(b.read32(0x03c), Ok(4096));
    assert_eq!(b.read32(0x010), Ok(0x246));
    assert_eq!(b.read32(0x104), Ok(0x1_0000));
}

#[test]
fn a_read_fills_the_buffers() {
    let mut d = dram();
    let mut b = device();
    header(&mut d, 0, 3);
    desc(&mut d, 5, HEADER, 16, NEXT, 1);
    desc(&mut d, 1, DATA, 500, NEXT | WRITE, 3);
    desc(&mut d, 3, DATA + 0x1000, 12, NEXT | WRITE, 2);
    desc(&mut d, 2, STATUS, 1, WRITE, 0);
    offer(&mut d, &[5]);
    match process(&mut b, &mut d) {
        BlkStep::Disk(DiskAction::Read { offset, len }) => {
            assert_eq!((offset, len), (3 * 512, 512));
        }
        s => panic!("{s:?}"),
    }
    let disk: Vec<u8> = (0..512u32).map(|i| i as u8).collect();
    let reply = DiskReply::Data(disk);
    assert!(matches!(b.resume_queue(&mut d, DRAM_BASE, &reply), BlkStep::Done(true)));
    assert_eq!(d.read8(DATA + 7), Ok(7));
    assert_eq!(d.read8(DATA + 499), Ok(499u32 as u8));
    assert_eq!(d.read8(DATA + 500), Ok(0));
    assert_eq!(d.read8(DATA + 0x1000), Ok(500u32 as u8));
    assert_eq!(d.read8(DATA + 0x1000 + 11), Ok(511u32 as u8));
    assert_eq!(d.read8(STATUS), Ok(0));
    assert_eq!(used(&d, 0), (5, 513));
    assert_eq!(d.read16(USED + 2), Ok(1));
    assert_eq!(b.read32(0x60), Ok(1));
    b.write32(0x64, 1).unwrap();
    assert_eq!(b.read32(0x60), Ok(0));
    // Nothing is left to do.
    assert!(matches!(process(&mut b, &mut d), BlkStep::Done(false)));
}

#[test]
fn a_write_collects_the_buffers() {
    let mut d = dram();
    let mut b = device();
    header(&mut d, 1, 15);
    d.load(DATA as usize, b"hello ").unwrap();
    d.load(DATA as usize + 0x800, b"world").unwrap();
    desc(&mut d, 0, HEADER, 16, NEXT, 1);
    desc(&mut d, 1, DATA, 6, NEXT, 2);
    desc(&mut d, 2, DATA + 0x800, 5, NEXT, 3);
    desc(&mut d, 3, STATUS, 1, WRITE, 0);
    offer(&mut d, &[0]);
    match process(&mut b, &mut d) {
        BlkStep::Disk(DiskAction::Write { offset, data }) => {
            assert_eq!(offset, 15 * 512);
            assert_eq!(data, b"hello world".to_vec());
        }
        s => panic!("{s:?}"),
    }
    assert!(matches!(b.resume_queue(&mut d, DRAM_BASE, &DiskReply::Done), BlkStep::Done(true)));
    assert_eq!(d.read8(STATUS), Ok(0));
    assert_eq!(used(&d, 0), (0, 1));
}

#[test]
fn what_was_read_can_be_written_back() {
    let mut d = dram();
    let mut b = device();
    header(&mut d, 0, 2);
    desc(&mut d, 0, HEADER, 16, NEXT, 1);
    desc(&mut d, 1, DATA + 0x300, 100, NEXT | WRITE, 2);
    desc(&mut d, 2, DATA, 412, NEXT | WRITE, 3);
    desc(&mut d, 3, STATUS, 1, WRITE, 0);
    offer(&mut d, &[0]);
    assert!(matches!(
        process(&mut b, &mut d),
        BlkStep::Disk(DiskAction::Read { offset: 1024, len: 512 })
    ));
    let disk: Vec<u8> = (0..512u32).map(|i| (i * 7 + i / 256) as u8).collect();
    let reply = DiskReply::Data(disk.clone());
    assert!(matches!(b.resume_queue(&mut d, DRAM_BASE, &reply), BlkStep::Done(true)));
    assert_eq!(d.read8(DATA + 0x300), Ok(disk[0]));
    assert_eq!(d.read8(DATA), Ok(disk[100]));
    header(&mut d, 1, 9);
    offer(&mut d, &[0, 0]);
    match process(&mut b, &mut d) {
        BlkStep::Disk(DiskAction::Write { offset, data }) => {
            assert_eq!(offset, 9 * 512);
            assert_eq!(data, disk);
        }
        s => panic!("{s:?}"),
    }
}

#[test]
fn failures_of_the_disk_are_reported() {
    for (kind, reply) in [
        (0, DiskReply::Failed),
        (0, DiskReply::Done),
        (0, DiskReply::Data(vec![1; 511])),
        (1, DiskReply::Failed),
        (4, DiskReply::Failed),
    ] {
        let mut d = dram();
        let mut b = device();
        request(&mut d, kind, 0, 512);
        assert!(matches!(process(&mut b, &mut d), BlkStep::Disk(_)));
        assert!(matches!(b.resume_queue(&mut d, DRAM_BASE, &reply), BlkStep::Done(true)));
        assert_eq!(d.read8(STATUS), Ok(2));
        assert_eq!(d.read8(DATA), Ok(0));
        assert_eq!(used(&d, 0), (0, if kind == 0 { 513 } else { 1 }));
    }
}

#[test]
fn flushing() {
    let mut d = dram();
    let mut b = device();
    request(&mut d, 4, 0, 0);
    assert!(matches!(process(&mut b, &mut d), BlkStep::Disk(DiskAction::Flush)));
    assert!(matches!(b.resume_queue(&mut d, DRAM_BASE, &DiskReply::Done), BlkStep::Done(true)));
    assert_eq!(d.read8(STATUS), Ok(0));
}

#[test]
fn requests_past_the_end_do_not_reach_the_disk() {
    for (kind, sector, len, used_len) in [
        (0, 16, 1, 2u32),
        (0, 15, 513, 514),
        (1, 16, 512, 1),
        (1, u64::MAX, 512, 1),
        (0, 17, 0, 1),
    ] {
        let mut d = dram();
        let mut b = device();
        request(&mut d, kind, sector, len);
        assert!(matches!(process(&mut b, &mut d), BlkStep::Done(true)));
        assert_eq!(d.read8(STATUS), Ok(2));
        assert_eq!(used(&d, 0), (0, used_len));
    }
    // The last sector is within reach.
    let mut d = dram();
    let mut b = device();
    request(&mut d, 0, 15, 512);
    assert!(matches!(process(&mut b, &mut d), BlkStep::Disk(_)));
}

#[test]
fn the_serial_number() {
    for (len, want) in [
        (20u32, b"MYSIM-VIRTIO-BLK\0\0\0\0".to_vec()),
        (16, b"MYSIM-VIRTIO-BLK".to_vec()),
        (5, b"MYSIM".to_vec()),
    ] {
        let mut d = dram();
        let mut b = device();
        d.load(DATA as usize, &[0xCC; 32]).unwrap();
        request(&mut d, 8, 0, len);
        assert!(matches!(process(&mut b, &mut d), BlkStep::Done(true)));
        for (i, c) in want.iter().enumerate() {
            assert_eq!(d.read8(DATA + i as u64), Ok(*c));
        }
        assert_eq!(d.read8(DATA + len as u64), Ok(0xCC));
        assert_eq!(d.read8(STATUS), Ok(0));
        assert_eq!(used(&d, 0), (0, len + 1));
    }
    // Without a buffer for it.
    let mut d = dram();
    let mut b = device();
    header(&mut d, 8, 0);
    desc(&mut d, 0, HEADER, 16, NEXT, 1);
    desc(&mut d, 1, STATUS, 1, WRITE, 0);
    offer(&mut d, &[0]);
    assert!(matches!(process(&mut b, &mut d), BlkStep::Done(true)));
    assert_eq!(d.read8(STATUS), Ok(2));
    assert_eq!(used(&d, 0), (0, 1));
}

#[test]
fn unknown_requests_fail() {
    let mut d = dram();
    let mut b = device();
    request(&mut d, 99, 0, 512);
    assert!(matches!(process(&mut b, &mut d), BlkStep::Done(true)));
    assert_eq!(d.read8(STATUS), Ok(2));
    assert_eq!(used(&d, 0), (0, 1));
}

#[test]
fn several_requests_in_one_go() {
    let mut d = dram();
    let mut b = device();
    header(&mut d, 8, 0);
    for i in 0..2u64 {
        desc(&mut d, 2 * i, HEADER, 16, NEXT, 2 * i as u16 + 1);
        desc(&mut d, 2 * i + 1, STATUS + i, 1, WRITE, 0);
    }
    // No interrupt is wanted.
    d.write16(AVAIL, 1).unwrap();
    offer(&mut d, &[0, 2, 0]);
    assert!(matches!(process(&mut b, &mut d), BlkStep::Done(false)));
    assert_eq!(b.read32(0x60), Ok(0));
    assert_eq!(d.read16(USED + 2), Ok(3));
    assert_eq!(used(&d, 0), (0, 1));
    assert_eq!(used(&d, 1), (2, 1));
    assert_eq!(used(&d, 2), (0, 1));
    assert_eq!(d.read8(STATUS + 1), Ok(2));
}

#[test]
fn the_used_ring_stands_where_the_alignment_says() {
    let mut d = dram();
    let mut b = device();
    b.write32(0x3c, 256).unwrap();
    request(&mut d, 99, 0, 0);
    // 8 * 18 + 6 = 150, so the ring starts at 256.
    assert!(matches!(process(&mut b, &mut d), BlkStep::Done(true)));
    assert_eq!(d.read16(QUEUE + 256 + 2), Ok(1));
    assert_eq!(d.read32(QUEUE + 256 + 8), Ok(1));
}

#[test]
fn bad_queues() {
    // No queue.
    let mut d = dram();
    let mut b = VirtioBlock::new(512);
    assert!(matches!(process(&mut b, &mut d), BlkStep::Done(false)));
    // A chain that is too short.
    let mut b = device();
    request(&mut d, 0, 0, 512);
    desc(&mut d, 0, HEADER, 16, 0, 0);
    assert!(matches!(process(&mut b, &mut d), BlkStep::Failed("描述符链太短")));
    assert_eq!(d.read16(USED + 2), Ok(0));
    // One without an end.
    desc(&mut d, 0, HEADER, 16, NEXT, 0);
    assert!(matches!(process(&mut b, &mut d), BlkStep::Failed("描述符链过长")));
    // Addresses outside of main memory.
    request(&mut d, 0, 0, 512);
    desc(&mut d, 0, 0x1_0000, 16, NEXT, 1);
    assert!(matches!(
        process(&mut b, &mut d),
        BlkStep::Failed("DRAM 读取32：地址超出范围")
    ));
    request(&mut d, 1, 0, 512);
    desc(&mut d, 1, 0xFFFF, 512, NEXT, 2);
    assert!(matches!(
        process(&mut b, &mut d),
        BlkStep::Failed("DRAM 读取8：地址超出范围")
    ));
    request(&mut d, 0, 0, 512);
    desc(&mut d, 1, 0xFFFF, 512, NEXT, 2);
    assert!(matches!(process(&mut b, &mut d), BlkStep::Disk(_)));
    let reply = DiskReply::Data(vec![9; 512]);
    assert!(matches!(
        b.resume_queue(&mut d, DRAM_BASE, &reply),
        BlkStep::Failed("DRAM 写入8：地址超出范围")
    ));
    // What was written before the end of memory stays.
    assert_eq!(d.read8(0xFFFF), Ok(9));
    // Registers that make no sense.
    request(&mut d, 0, 0, 512);
    b.write32(0x3c, 0).unwrap();
    assert!(matches!(process(&mut b, &mut d), BlkStep::Failed(_)));
    b.write32(0x3c, 4096).unwrap();
    b.write32(0x38, 0).unwrap();
    d.write16(QUEUE + 2, 1).unwrap();
    assert!(matches!(process(&mut b, &mut d), BlkStep::Failed(_)));
    b.write32(0x40, 1).unwrap();
    assert!(matches!(
        process(&mut b, &mut d),
        BlkStep::Failed("DRAM 读取16：地址超出范围")
    ));
    // A reply that nobody waits for.
    let r = b.resume_queue(&mut d, DRAM_BASE, &DiskReply::Done);
    assert!(matches!(r, BlkStep::Failed("没有等待磁盘的请求")));
}

/// A hart whose next instruction rings the bell of the block device: sw x0, 0(x5).
fn ringing_hart(d: Dram) -> Cpu {
    let mut c = Cpu::new(Bus::new(
        Mrom::new(16).unwrap(),
        d,
        Flash::new(0),
        Some(VirtioBlock::new(16 * 512)),
    ));
    c.bus.write32(VIRTIO_BLK_BASE + 0x38, 8).unwrap();
    c.bus.write32(VIRTIO_BLK_BASE + 0x40, ((DRAM_BASE + QUEUE) >> 12) as u32).unwrap();
    c.bus.dram.write32(0, 0x0002_A023).unwrap();
    c.write_reg(5, VIRTIO_BLK_BASE + 0x50);
    c.pc = DRAM_BASE;
    c
}

#[test]
fn the_hart_waits_for_the_disk() {
    let mut d = dram();
    request(&mut d, 0, 2, 512);
    let mut c = ringing_hart(d);
    c.bus.write32(PLIC_BASE + 4 * 2, 1).unwrap();
    c.bus.write32(PLIC_BASE + 0x2000, 1 << 2).unwrap();
    c.step().unwrap();
    assert!(matches!(c.request, Some(Request::Block(_))));
    match c.serve_block(None) {
        Some(DiskAction::Read { offset, len }) => assert_eq!((offset, len), (1024, 512)),
        a => panic!("{a:?}"),
    }
    assert!(!c.bus.has_external_interrupt(0));
    assert!(c.serve_block(Some(DiskReply::Data(vec![0x77; 512]))).is_none());
    assert_eq!(c.request, None);
    assert_eq!(c.pc, DRAM_BASE + 4);
    assert_eq!(c.bus.dram.read8(DATA + 511), Ok(0x77));
    assert!(c.bus.has_external_interrupt(0));
    // Acknowledging clears the line.
    c.bus.write32(VIRTIO_BLK_BASE + 0x64, 1).unwrap();
    assert!(!c.bus.has_external_interrupt(0));
    c.bus.write32(VIRTIO_BLK_BASE + 0x64, 0).unwrap();
    assert!(!c.bus.has_external_interrupt(0));
}

#[test]
fn a_store_that_cannot_be_served_faults() {
    let mut d = dram();
    request(&mut d, 0, 2, 512);
    desc(&mut d, 0, HEADER, 16, 0, 0);
    let mut c = ringing_hart(d);
    // amoswap.w x7, x0, (x5) instead of the store.
    c.bus.dram.write32(0, 0x0802_A3AF).unwrap();
    c.write_reg(7, 0x1234);
    c.step().unwrap();
    assert!(matches!(c.request, Some(Request::Block(_))));
    assert_eq!(c.read_reg(7), 0);
    assert!(c.serve_block(None).is_none());
    assert_eq!(c.request, None);
    assert_eq!(c.read_reg(7), 0x1234);
    assert_eq!(c.csr.read(MCAUSE), 7);
    assert_eq!(c.csr.read(MEPC), DRAM_BASE);
    assert_eq!(c.csr.read(MTVAL), VIRTIO_BLK_BASE + 0x50);
    assert_eq!(c.pc, 0);
}
