use riscv64_emulator::bus::{Bus, DRAM_BASE, PLIC_BASE, VIRTIO_RNG_BASE};
use riscv64_emulator::cpu::{Cpu, Request};
use riscv64_emulator::csr::{MCAUSE, MTVAL};
use riscv64_emulator::dram::Dram;
use riscv64_emulator::flash::Flash;
use riscv64_emulator::mrom::Mrom;
use riscv64_emulator::virtio_rng::{pseudo_random_bytes, RngStep, VirtioRng};

const NEXT: u16 = 1;
const WRITE: u16 = 2;
const QUEUE: u64 = 0x1000;
const AVAIL: u64 = QUEUE + 4 * 16;
const USED: u64 = QUEUE + 0x1000;
const DATA: u64 = 0x5000;

fn desc(d: &mut Dram, i: u64, addr: u64, len: u32, flags: u16, next: u16) {
    let a = QUEUE + 16 * i;
    d.write64(a, DRAM_BASE + addr).unwrap();
    d.write32(a + 8, len).unwrap();
    d.write16(a + 12, flags).unwrap();
    d.write16(a + 14, next).unwrap();
}

fn offer(d: &mut Dram, heads: &[u16]) {
    for (i, h) in heads.iter().enumerate() {
        d.write16(AVAIL + 4 + 2 * i as u64, *h).unwrap();
    }
    d.write16(AVAIL + 2, heads.len() as u16).unwrap();
}

fn device() -> VirtioRng {
    let mut r = VirtioRng::default();
    r.write32(0x38, 4).unwrap();
    r.write32(0x40, ((DRAM_BASE + QUEUE) >> 12) as u32).unwrap();
    r
}

#[test]
fn rng_registers() {
    let mut r = VirtioRng::new();
    for (a, v) in [
        (0x000, 0x7472_6976),
        (0x004, 1),
        (0x008, 4),
        (0x00c, 0x554d_4551),
        (0x010, 0),
        (0x034, 64),
        (0x03c, 0),
        (0x0fc, 0),
        (0x100, 0),
    ] {
        assert_eq!(r.read32(a), Ok(v), "{a:#x}");
    }
    r.write32(0x3c, 512).unwrap();
    assert_eq!(r.read32(0x3c), Ok(0));
    r.write32(0x40, 9).unwrap();
    assert_eq!(r.read32(0x40), Ok(9));
    assert_eq!(r.read32(0x44), Ok(1));
    r.write32(0x44, 0).unwrap();
    assert_eq!(r.read32(0x44), Ok(0));
    r.write32(0x30, 3).unwrap();
    assert_eq!(r.read32(0x40), Ok(0));
    r.write32(0x14, 1).unwrap();
    r.write32(0x20, 1).unwrap();
    r.write32(0x24, 1).unwrap();
    r.write32(0x20, 1).unwrap();
    r.write32(0x70, 0xF).unwrap();
    assert_eq!(r.read32(0x70), Ok(0xF));
    r.write32(0x70, 0).unwrap();
    assert_eq!(r.read32(0x70), Ok(0));
    assert_eq!(r.read32(0x40), Ok(0));
}

#[test]
fn buffers_are_filled() {
    let mut d = Dram::new(0x1_0000).unwrap();
    let mut r = device();
    // A buffer, one that the device does not write to, and another.
    desc(&mut d, 2, DATA, 4, NEXT | WRITE, 1);
    desc(&mut d, 1, DATA + 0x100, 50, NEXT, 0);
    desc(&mut d, 0, DATA + 0x200, 3, WRITE, 0);
    offer(&mut d, &[2]);
    assert!(matches!(r.process_queue(&mut d, DRAM_BASE), RngStep::NeedBytes(4)));
    let s = r.resume_queue(&mut d, DRAM_BASE, &vec![1, 2, 3, 4]);
    assert!(matches!(s, RngStep::NeedBytes(3)));
    let s = r.resume_queue(&mut d, DRAM_BASE, &vec![5, 6, 7]);
    assert!(matches!(s, RngStep::Done(true)));
    assert_eq!(d.read32(DATA), Ok(0x0403_0201));
    assert_eq!(d.read8(DATA + 4), Ok(0));
    assert_eq!(d.read64(DATA + 0x100), Ok(0));
    assert_eq!(d.read32(DATA + 0x200), Ok(0x0007_0605));
    assert_eq!(d.read32(USED + 4), Ok(2));
    assert_eq!(d.read32(USED + 8), Ok(7));
    assert_eq!(d.read16(USED + 2), Ok(1));
    assert_eq!(r.read32(0x60), Ok(1));
    r.write32(0x64, 3).unwrap();
    assert_eq!(r.read32(0x60), Ok(0));
    assert!(matches!(r.process_queue(&mut d, DRAM_BASE), RngStep::Done(false)));
}

#[test]
fn requests_without_a_buffer() {
    let mut d = Dram::new(0x1_0000).unwrap();
    let mut r = device();
    desc(&mut d, 0, DATA, 4, 0, 0);
    d.write16(AVAIL, 1).unwrap();
    offer(&mut d, &[0, 0]);
    assert!(matches!(r.process_queue(&mut d, DRAM_BASE), RngStep::Done(false)));
    assert_eq!(d.read16(USED + 2), Ok(2));
    assert_eq!(d.read32(USED + 16), Ok(0));
    assert_eq!(r.read32(0x60), Ok(0));
}

#[test]
fn an_endless_chain_is_cut() {
    let mut d = Dram::new(0x1_0000).unwrap();
    let mut r = device();
    desc(&mut d, 0, DATA, 1, NEXT | WRITE, 0);
    offer(&mut d, &[0]);
    let mut s = r.process_queue(&mut d, DRAM_BASE);
    let mut n = 0;
    while let RngStep::NeedBytes(1) = s {
        n += 1;
        s = r.resume_queue(&mut d, DRAM_BASE, &vec![n]);
    }
    assert!(matches!(s, RngStep::Done(true)));
    assert_eq!(n, 64);
    assert_eq!(d.read8(DATA), Ok(64));
    assert_eq!(d.read32(USED + 8), Ok(64));
}

#[test]
fn rng_queues_that_cannot_be_served() {
    let mut d = Dram::new(0x1_0000).unwrap();
    let mut r = VirtioRng::new();
    assert!(matches!(r.process_queue(&mut d, DRAM_BASE), RngStep::Done(false)));
    r.write32(0x40, ((DRAM_BASE + QUEUE) >> 12) as u32).unwrap();
    assert!(matches!(r.process_queue(&mut d, DRAM_BASE), RngStep::Done(false)));
    let mut r = device();
    desc(&mut d, 0, 0xFFFF, 2, WRITE, 0);
    offer(&mut d, &[0]);
    assert!(matches!(r.process_queue(&mut d, DRAM_BASE), RngStep::NeedBytes(2)));
    let s = r.resume_queue(&mut d, DRAM_BASE, &vec![8, 8]);
    assert!(matches!(s, RngStep::Failed("DRAM 写入8：地址超出范围")));
    // Not as many as were asked for, and nobody asked.
    assert!(matches!(r.process_queue(&mut d, DRAM_BASE), RngStep::NeedBytes(2)));
    let s = r.resume_queue(&mut d, DRAM_BASE, &vec![8]);
    assert!(matches!(s, RngStep::Failed("没有等待随机数的请求")));
    let s = r.resume_queue(&mut d, DRAM_BASE, &vec![8, 8]);
    assert!(matches!(s, RngStep::Failed("没有等待随机数的请求")));
    r.write32(0x40, 1).unwrap();
    let s = r.process_queue(&mut d, DRAM_BASE);
    assert!(matches!(s, RngStep::Failed("DRAM 读取16：地址超出范围")));
}

#[test]
fn pseudo_random_sequence() {
    let mut state = 0x0123_4567_89AB_CDEFu64;
    let mut want = Vec::new();
    for _ in 0..100 {
        state ^= state << 13;
        state ^= state >> 7;
        state ^= state << 17;
        want.push(state as u8);
    }
    assert_eq!(pseudo_random_bytes(0x0123_4567_89AB_CDEF, 100), want);
    assert_eq!(pseudo_random_bytes(1, 2).len(), 2);
    // 1 -> 0x2001 -> 0x2041 -> 0x40822041.
    assert_eq!(pseudo_random_bytes(1, 1), vec![0x41]);
}

#[test]
fn the_hart_waits_for_random_bytes() {
    let mut d = Dram::new(0x1_0000).unwrap();
    desc(&mut d, 0, DATA, 2, WRITE, 0);
    offer(&mut d, &[0]);
    // c.sw x8, 0(x9)
    d.write16(0, 0xC080).unwrap();
    let mut c = Cpu::new(Bus::new(Mrom::new(16).unwrap(), d, Flash::new(0), None));
    c.bus.write32(VIRTIO_RNG_BASE + 0x38, 4).unwrap();
    c.bus.write32(VIRTIO_RNG_BASE + 0x40, ((DRAM_BASE + QUEUE) >> 12) as u32).unwrap();
    c.bus.write32(PLIC_BASE + 4 * 7, 1).unwrap();
    c.bus.write32(PLIC_BASE + 0x2000, 1 << 7).unwrap();
    c.write_reg(9, VIRTIO_RNG_BASE + 0x50);
    c.pc = DRAM_BASE;
    c.step().unwrap();
    assert!(matches!(c.request, Some(Request::Rng(_))));
    assert_eq!(c.serve_rng(None), Some(2));
    assert_eq!(c.serve_rng(Some(vec![3, 4])), None);
    assert_eq!(c.request, None);
    assert_eq!(c.bus.dram.read16(DATA), Ok(0x0403));
    assert_eq!(c.pc, DRAM_BASE + 2);
    assert!(c.bus.has_external_interrupt(0));
    // Now a queue outside of memory.
    c.bus.write32(VIRTIO_RNG_BASE + 0x40, 1).unwrap();
    c.pc = DRAM_BASE;
    c.step().unwrap();
    assert_eq!(c.serve_rng(None), None);
    assert_eq!(c.csr.read(MCAUSE), 7);
    assert_eq!(c.csr.read(MTVAL), VIRTIO_RNG_BASE + 0x50);
}
