//! A VirtIO block device on the legacy MMIO interface.
//!
//! The device itself does no disk I/O. Serving the queue stops wherever the disk
//! is needed, hands out what is to be done there, and goes on with the disk's
//! reply.

use crate::dram::Dram;
#[allow(unused_imports)]
use crate::dram::{dram_read32, dram_read64, dram_read8, dram_write8};
#[allow(unused_imports)]
use crate::outcome::same_result;
#[allow(unused_imports)]
use crate::text::ascii;
#[allow(unused_imports)]
use crate::virtq::{
    apart, descriptor_at, guest_offset, guest_write, holds, law_guest_write, lemma_apart_holds,
    lemma_written_holds, queue_at,
};
use crate::virtq::{
    open_queue, read_descriptor, read_u32, read_u64, read_u8, write_bytes, write_u8, QueueRun,
    VirtqDesc, VIRTQ_DESC_F_NEXT,
};
use vstd::prelude::*;

verus! {

pub const VIRTIO_MMIO_MAGIC_VALUE: u64 = 0x000;

pub const VIRTIO_MMIO_VERSION: u64 = 0x004;

pub const VIRTIO_MMIO_DEVICE_ID: u64 = 0x008;

pub const VIRTIO_MMIO_VENDOR_ID: u64 = 0x00c;

pub const VIRTIO_MMIO_DEVICE_FEATURES: u64 = 0x010;

pub const VIRTIO_MMIO_DEVICE_FEATURES_SEL: u64 = 0x014;

pub const VIRTIO_MMIO_DRIVER_FEATURES: u64 = 0x020;

pub const VIRTIO_MMIO_DRIVER_FEATURES_SEL: u64 = 0x024;

pub const VIRTIO_MMIO_QUEUE_SEL: u64 = 0x030;

pub const VIRTIO_MMIO_QUEUE_NUM_MAX: u64 = 0x034;

pub const VIRTIO_MMIO_QUEUE_NUM: u64 = 0x038;

pub const VIRTIO_MMIO_QUEUE_ALIGN: u64 = 0x03c;

pub const VIRTIO_MMIO_QUEUE_PFN: u64 = 0x040;

pub const VIRTIO_MMIO_QUEUE_READY: u64 = 0x044;

pub const VIRTIO_MMIO_QUEUE_NOTIFY: u64 = 0x050;

pub const VIRTIO_MMIO_INTERRUPT_STATUS: u64 = 0x060;

pub const VIRTIO_MMIO_INTERRUPT_ACK: u64 = 0x064;

pub const VIRTIO_MMIO_STATUS: u64 = 0x070;

/// The features offered: the largest segment size and count, the block size, and
/// flushing (bits 1, 2, 6 and 9).
pub const BLOCK_FEATURES: u32 = 0x246;

/// Request type: read.
pub const VIRTIO_BLK_T_IN: u32 = 0;

/// Request type: write.
pub const VIRTIO_BLK_T_OUT: u32 = 1;

/// Request type: flush.
pub const VIRTIO_BLK_T_FLUSH: u32 = 4;

/// Request type: get the serial number.
pub const VIRTIO_BLK_T_GET_ID: u32 = 8;

/// Request status: it succeeded.
pub const VIRTIO_BLK_S_OK: u8 = 0;

/// Request status: it failed.
pub const VIRTIO_BLK_S_IOERR: u8 = 2;

/// The size of a sector in bytes.
pub const SECTOR_SIZE: u64 = 512;

/// The longest descriptor chain.
pub const MAX_CHAIN_LEN: usize = 256;

/// What is to be done with the disk.
#[derive(Debug)]
pub enum DiskAction {
    /// Read `len` bytes from `offset` on.
    Read { offset: u64, len: u64 },
    /// Write `data` from `offset` on.
    Write { offset: u64, data: Vec<u8> },
    /// Make everything written durable.
    Flush,
}

/// The model of `DiskAction`.
#[verifier::ext_equal]
pub enum DiskActionView {
    Read { offset: u64, len: u64 },
    Write { offset: u64, data: Seq<u8> },
    Flush,
}

impl View for DiskAction {
    type V = DiskActionView;

    open spec fn view(&self) -> DiskActionView {
        match self {
            DiskAction::Read { offset, len } => DiskActionView::Read { offset: *offset, len: *len },
            DiskAction::Write { offset, data } => DiskActionView::Write {
                offset: *offset,
                data: data@,
            },
            DiskAction::Flush => DiskActionView::Flush,
        }
    }
}

/// What came of it.
#[derive(Debug)]
pub enum DiskReply {
    /// The bytes read.
    Data(Vec<u8>),
    /// The write or the flush succeeded.
    Done,
    /// It failed.
    Failed,
}

/// The model of `DiskReply`.
#[verifier::ext_equal]
pub enum DiskReplyView {
    Data(Seq<u8>),
    Done,
    Failed,
}

impl View for DiskReply {
    type V = DiskReplyView;

    open spec fn view(&self) -> DiskReplyView {
        match self {
            DiskReply::Data(b) => DiskReplyView::Data(b@),
            DiskReply::Done => DiskReplyView::Done,
            DiskReply::Failed => DiskReplyView::Failed,
        }
    }
}

/// How serving the queue went on.
#[derive(Debug)]
pub enum BlkStep {
    /// The disk is needed.
    Disk(DiskAction),
    /// The queue is served; the interrupt was raised or not.
    Done(bool),
    /// Serving was given up.
    Failed(&'static str),
}

/// The model of `BlkStep`.
#[verifier::ext_equal]
pub enum BlkStepView {
    Disk(DiskActionView),
    Done(bool),
    Failed(Seq<char>),
}

impl View for BlkStep {
    type V = BlkStepView;

    open spec fn view(&self) -> BlkStepView {
        match self {
            BlkStep::Disk(a) => BlkStepView::Disk(a@),
            BlkStep::Done(b) => BlkStepView::Done(*b),
            BlkStep::Failed(e) => BlkStepView::Failed(e@),
        }
    }
}

/// What the disk was asked to do.
#[derive(Debug, Clone, Copy, PartialEq, Eq, Structural)]
pub enum DiskOp {
    Read,
    Write,
    Flush,
}

/// A request that waits for the disk, and the queue it came from.
pub struct BlkRun {
    queue: QueueRun,
    head: u16,
    status_addr: u64,
    op: DiskOp,
    buffers: Vec<VirtqDesc>,
    total: u64,
}

/// The model of `BlkRun`.
#[verifier::ext_equal]
pub struct BlkRunView {
    pub queue: QueueRun,
    /// The head descriptor.
    pub head: u16,
    /// Where the status byte goes.
    pub status_addr: u64,
    pub op: DiskOp,
    /// The data buffers.
    pub buffers: Seq<VirtqDesc>,
    /// How many bytes they hold together.
    pub total: u64,
}

impl View for BlkRun {
    type V = BlkRunView;

    closed spec fn view(&self) -> BlkRunView {
        BlkRunView {
            queue: self.queue,
            head: self.head,
            status_addr: self.status_addr,
            op: self.op,
            buffers: self.buffers@,
            total: self.total,
        }
    }
}

/// A block device.
pub struct VirtioBlock {
    status: u32,
    queue_sel: u32,
    queue_align: u32,
    queue_num: u32,
    queue_pfn: u32,
    queue_ready: bool,
    driver_features: u64,
    device_features_sel: u32,
    driver_features_sel: u32,
    interrupt_status: u32,
    capacity: u64,
    run: Option<BlkRun>,
}

/// The registers of a block device, and the request that waits for the disk.
#[verifier::ext_equal]
pub struct BlkView {
    pub status: u32,
    pub queue_sel: u32,
    pub queue_align: u32,
    pub queue_num: u32,
    pub queue_pfn: u32,
    pub queue_ready: bool,
    pub driver_features: u64,
    pub device_features_sel: u32,
    pub driver_features_sel: u32,
    pub interrupt_status: u32,
    /// The size of the disk in sectors.
    pub capacity: u64,
    pub run: Option<BlkRunView>,
}

impl View for VirtioBlock {
    type V = BlkView;

    closed spec fn view(&self) -> BlkView {
        BlkView {
            status: self.status,
            queue_sel: self.queue_sel,
            queue_align: self.queue_align,
            queue_num: self.queue_num,
            queue_pfn: self.queue_pfn,
            queue_ready: self.queue_ready,
            driver_features: self.driver_features,
            device_features_sel: self.device_features_sel,
            driver_features_sel: self.driver_features_sel,
            interrupt_status: self.interrupt_status,
            capacity: self.capacity,
            run: match self.run {
                Some(r) => Some(r@),
                None => None,
            },
        }
    }
}

/// A block device of `capacity` sectors after reset.
pub open spec fn blk_reset(capacity: u64) -> BlkView {
    BlkView {
        status: 0,
        queue_sel: 0,
        queue_align: 4096,
        queue_num: 0,
        queue_pfn: 0,
        queue_ready: false,
        driver_features: 0,
        device_features_sel: 0,
        driver_features_sel: 0,
        interrupt_status: 0,
        capacity,
        run: None,
    }
}

/// `features` with one of its halves replaced.
pub open spec fn with_features(features: u64, sel: u32, value: u32) -> u64 {
    if sel == 0 {
        (features & 0xFFFF_FFFF_0000_0000) | (value as u64)
    } else {
        (features & 0x0000_0000_FFFF_FFFF) | ((value as u64) << 32)
    }
}

impl BlkView {
    /// A register read.
    pub open spec fn read32(self, offset: u64) -> u32 {
        if offset == VIRTIO_MMIO_MAGIC_VALUE {
            0x74726976
        } else if offset == VIRTIO_MMIO_VERSION {
            1
        } else if offset == VIRTIO_MMIO_DEVICE_ID {
            2
        } else if offset == VIRTIO_MMIO_VENDOR_ID {
            0x554d4551
        } else if offset == VIRTIO_MMIO_DEVICE_FEATURES {
            if self.device_features_sel == 0 {
                BLOCK_FEATURES
            } else {
                0
            }
        } else if offset == VIRTIO_MMIO_QUEUE_ALIGN {
            self.queue_align
        } else if offset == VIRTIO_MMIO_QUEUE_NUM_MAX {
            256
        } else if offset == VIRTIO_MMIO_QUEUE_PFN {
            if self.queue_sel == 0 {
                self.queue_pfn
            } else {
                0
            }
        } else if offset == VIRTIO_MMIO_QUEUE_READY {
            if self.queue_sel == 0 && self.queue_ready {
                1
            } else {
                0
            }
        } else if offset == VIRTIO_MMIO_INTERRUPT_STATUS {
            self.interrupt_status
        } else if offset == VIRTIO_MMIO_STATUS {
            self.status
        } else if offset == 0x100 {
            (self.capacity % 0x1_0000_0000) as u32
        } else if offset == 0x104 {
            (self.capacity / 0x1_0000_0000) as u32
        } else if offset == 0x108 {
            0x20000
        } else if offset == 0x10c {
            128
        } else if offset == 0x114 {
            512
        } else {
            0
        }
    }

    /// A register write. Writing zero to the status register resets the device.
    pub open spec fn write32(self, offset: u64, value: u32) -> BlkView {
        if offset == VIRTIO_MMIO_DEVICE_FEATURES_SEL {
            BlkView { device_features_sel: value, ..self }
        } else if offset == VIRTIO_MMIO_DRIVER_FEATURES {
            BlkView {
                driver_features: with_features(
                    self.driver_features,
                    self.driver_features_sel,
                    value,
                ),
                ..self
            }
        } else if offset == VIRTIO_MMIO_DRIVER_FEATURES_SEL {
            BlkView { driver_features_sel: value, ..self }
        } else if offset == VIRTIO_MMIO_QUEUE_SEL {
            BlkView { queue_sel: value, ..self }
        } else if offset == VIRTIO_MMIO_QUEUE_NUM && self.queue_sel == 0 {
            BlkView { queue_num: value, ..self }
        } else if offset == VIRTIO_MMIO_QUEUE_ALIGN {
            BlkView { queue_align: value, ..self }
        } else if offset == VIRTIO_MMIO_QUEUE_PFN && self.queue_sel == 0 {
            BlkView { queue_pfn: value, queue_ready: value != 0, ..self }
        } else if offset == VIRTIO_MMIO_QUEUE_READY && self.queue_sel == 0 {
            BlkView { queue_ready: value != 0, ..self }
        } else if offset == VIRTIO_MMIO_INTERRUPT_ACK {
            BlkView { interrupt_status: self.interrupt_status & !value, ..self }
        } else if offset == VIRTIO_MMIO_STATUS {
            if value == 0 {
                blk_reset(self.capacity)
            } else {
                BlkView { status: value, ..self }
            }
        } else {
            self
        }
    }
}

/// The descriptor chain that goes on at descriptor `idx`, behind the descriptors
/// in `acc`.
pub open spec fn chain_at(
    d: Seq<u8>,
    base: u64,
    q: QueueRun,
    idx: u16,
    acc: Seq<VirtqDesc>,
) -> Result<Seq<VirtqDesc>, Seq<char>>
    decreases 256 - acc.len(),
{
    if acc.len() >= 256 {
        Err("描述符链过长"@)
    } else {
        match descriptor_at(d, q.desc_addr(idx), base) {
            Err(e) => Err(e),
            Ok(desc) => if desc.flags & VIRTQ_DESC_F_NEXT == 0 {
                Ok(acc.push(desc))
            } else {
                chain_at(d, base, q, desc.next, acc.push(desc))
            },
        }
    }
}

/// A request header: the type and the first sector.
pub struct BlkHeader {
    pub req_type: u32,
    pub sector: u64,
}

/// The request header at the guest-physical address `addr`.
pub open spec fn header_at(d: Seq<u8>, addr: u64, base: u64) -> Result<BlkHeader, Seq<char>> {
    match dram_read32(d, guest_offset(addr, base)) {
        Err(e) => Err(e),
        Ok(req_type) => match dram_read32(d, guest_offset(addr.wrapping_add(4), base)) {
            Err(e) => Err(e),
            Ok(reserved) => match dram_read64(d, guest_offset(addr.wrapping_add(8), base)) {
                Err(e) => Err(e),
                Ok(sector) => Ok(BlkHeader { req_type, sector }),
            },
        },
    }
}

/// How many bytes some buffers hold together.
pub open spec fn total_len(buffers: Seq<VirtqDesc>) -> nat
    decreases buffers.len(),
{
    if buffers.len() == 0 {
        0
    } else {
        total_len(buffers.drop_last()) + buffers.last().len as nat
    }
}

/// How many sectors `total` bytes take up.
pub open spec fn sectors_needed(total: nat) -> nat {
    (total + 511) / 512
}

/// A request for `total` bytes from `sector` on ends within the disk.
pub open spec fn fits(sector: u64, total: nat, capacity: u64) -> bool {
    sector + sectors_needed(total) <= capacity
}

/// The bytes of one buffer from index `i` on, behind those in `acc`.
pub open spec fn gather_one(
    d: Seq<u8>,
    base: u64,
    buffer: VirtqDesc,
    i: nat,
    acc: Seq<u8>,
) -> Result<Seq<u8>, Seq<char>>
    decreases buffer.len - i,
{
    if i >= buffer.len {
        Ok(acc)
    } else {
        match dram_read8(d, guest_offset(buffer.addr.wrapping_add(i as u64), base)) {
            Err(e) => Err(e),
            Ok(b) => gather_one(d, base, buffer, i + 1, acc.push(b)),
        }
    }
}

/// The bytes of the buffers from index `k` on, behind those in `acc`.
pub open spec fn gather(
    d: Seq<u8>,
    base: u64,
    buffers: Seq<VirtqDesc>,
    k: nat,
    acc: Seq<u8>,
) -> Result<Seq<u8>, Seq<char>>
    decreases buffers.len() - k,
{
    if k >= buffers.len() {
        Ok(acc)
    } else {
        match gather_one(d, base, buffers[k as int], 0, acc) {
            Err(e) => Err(e),
            Ok(acc2) => gather(d, base, buffers, k + 1, acc2),
        }
    }
}

/// Filling the buffers from index `k` on with `data` from `off` on: the memory
/// after it and the request's status.
pub open spec fn scatter(
    d: Seq<u8>,
    base: u64,
    buffers: Seq<VirtqDesc>,
    data: Seq<u8>,
    k: nat,
    off: nat,
) -> (Seq<u8>, Result<u8, Seq<char>>)
    decreases buffers.len() - k,
{
    if k >= buffers.len() {
        (d, Ok(VIRTIO_BLK_S_OK))
    } else {
        let end = off + buffers[k as int].len as nat;
        if end > data.len() {
            (d, Ok(VIRTIO_BLK_S_IOERR))
        } else {
            match guest_write(
                d,
                buffers[k as int].addr,
                base,
                data.subrange(off as int, end as int),
                0,
            ) {
                (d2, Err(e)) => (d2, Err(e)),
                (d2, Ok(())) => scatter(d2, base, buffers, data, k + 1, end),
            }
        }
    }
}

/// The serial number in a buffer of `len` bytes: cut off, or padded with zeros.
pub open spec fn serial_in(len: nat) -> Seq<u8> {
    let serial = ascii("MYSIM-VIRTIO-BLK"@);
    Seq::new(
        len,
        |i: int|
            if i < 16 {
                serial[i]
            } else {
                0u8
            },
    )
}

/// The length that the used ring reports for `n` bytes of data: one more, for
/// the status byte, modulo 2^32.
pub open spec fn used_len(n: nat) -> u32 {
    ((n + 1) % 0x1_0000_0000) as u32
}

/// How a request begins.
#[verifier::ext_equal]
pub enum Begin {
    /// It cannot be served.
    Failed(Seq<char>),
    /// It waits for the disk.
    Wait(BlkRunView, DiskActionView),
    /// It is settled without the disk.
    Settled { head: u16, status_addr: u64, status: u8, len: u32 },
}

/// The request whose descriptors are `chain` begins: the memory after that and
/// what it comes to.
pub open spec fn begin_request(
    d: Seq<u8>,
    base: u64,
    capacity: u64,
    q: QueueRun,
    head: u16,
    h: BlkHeader,
    status_addr: u64,
    buffers: Seq<VirtqDesc>,
) -> (Seq<u8>, Begin) {
    let total = total_len(buffers);
    let offset = h.sector.wrapping_mul(512);
    if h.req_type == VIRTIO_BLK_T_IN {
        if !fits(h.sector, total, capacity) {
            (
                d,
                Begin::Settled {
                    head,
                    status_addr,
                    status: VIRTIO_BLK_S_IOERR,
                    len: used_len(total),
                },
            )
        } else {
            (
                d,
                Begin::Wait(
                    BlkRunView {
                        queue: q,
                        head,
                        status_addr,
                        op: DiskOp::Read,
                        buffers,
                        total: total as u64,
                    },
                    DiskActionView::Read { offset, len: total as u64 },
                ),
            )
        }
    } else if h.req_type == VIRTIO_BLK_T_OUT {
        if !fits(h.sector, total, capacity) {
            (d, Begin::Settled { head, status_addr, status: VIRTIO_BLK_S_IOERR, len: 1 })
        } else {
            match gather(d, base, buffers, 0, Seq::empty()) {
                Err(e) => (d, Begin::Failed(e)),
                Ok(data) => (
                    d,
                    Begin::Wait(
                        BlkRunView {
                            queue: q,
                            head,
                            status_addr,
                            op: DiskOp::Write,
                            buffers,
                            total: total as u64,
                        },
                        DiskActionView::Write { offset, data },
                    ),
                ),
            }
        }
    } else if h.req_type == VIRTIO_BLK_T_FLUSH {
        (
            d,
            Begin::Wait(
                BlkRunView {
                    queue: q,
                    head,
                    status_addr,
                    op: DiskOp::Flush,
                    buffers,
                    total: total as u64,
                },
                DiskActionView::Flush,
            ),
        )
    } else if h.req_type == VIRTIO_BLK_T_GET_ID && buffers.len() > 0 {
        match guest_write(d, buffers[0].addr, base, serial_in(buffers[0].len as nat), 0) {
            (d2, Err(e)) => (d2, Begin::Failed(e)),
            (d2, Ok(())) => (
                d2,
                Begin::Settled {
                    head,
                    status_addr,
                    status: VIRTIO_BLK_S_OK,
                    len: used_len(buffers[0].len as nat),
                },
            ),
        }
    } else {
        (d, Begin::Settled { head, status_addr, status: VIRTIO_BLK_S_IOERR, len: 1 })
    }
}

/// The next request of the queue begins.
pub open spec fn begin(d: Seq<u8>, base: u64, capacity: u64, q: QueueRun) -> (Seq<u8>, Begin) {
    match q.head(d, base) {
        Err(e) => (d, Begin::Failed(e)),
        Ok(head) => match chain_at(d, base, q, head, Seq::empty()) {
            Err(e) => (d, Begin::Failed(e)),
            Ok(chain) => if chain.len() < 2 {
                (d, Begin::Failed("描述符链太短"@))
            } else {
                match header_at(d, chain[0].addr, base) {
                    Err(e) => (d, Begin::Failed(e)),
                    Ok(h) => begin_request(
                        d,
                        base,
                        capacity,
                        q,
                        head,
                        h,
                        chain.last().addr,
                        chain.subrange(1, chain.len() - 1),
                    ),
                }
            },
        },
    }
}

/// A request ends: its status byte and its used-ring entry are written.
pub open spec fn end_request(
    d: Seq<u8>,
    base: u64,
    q: QueueRun,
    head: u16,
    status_addr: u64,
    status: u8,
    len: u32,
) -> (Seq<u8>, Result<QueueRun, Seq<char>>) {
    match dram_write8(d, guest_offset(status_addr, base), status) {
        (d2, Err(e)) => (d2, Err(e)),
        (d2, Ok(())) => q.complete(d2, base, head, len),
    }
}

/// Where serving a queue stops.
#[verifier::ext_equal]
pub enum Served {
    Failed(Seq<char>),
    Wait(BlkRunView, DiskActionView),
    /// No request is left.
    All(QueueRun),
}

/// Serving the requests of a queue up to the next one that needs the disk.
#[verifier::opaque]
pub open spec fn serve(d: Seq<u8>, base: u64, capacity: u64, q: QueueRun) -> (Seq<u8>, Served)
    decreases q.left,
{
    if q.left == 0 {
        (d, Served::All(q))
    } else if q.num == 0 {
        (d, Served::Failed("VirtIO 队列长度为零"@))
    } else {
        match begin(d, base, capacity, q) {
            (d2, Begin::Failed(e)) => (d2, Served::Failed(e)),
            (d2, Begin::Wait(r, a)) => (d2, Served::Wait(r, a)),
            (d2, Begin::Settled { head, status_addr, status, len }) => match end_request(
                d2,
                base,
                q,
                head,
                status_addr,
                status,
                len,
            ) {
                (d3, Err(e)) => (d3, Served::Failed(e)),
                (d3, Ok(q2)) => serve(d3, base, capacity, q2),
            },
        }
    }
}

/// The disk's reply settles the request that waited for it: the memory after
/// that and the request's status.
#[verifier::opaque]
pub open spec fn settle(d: Seq<u8>, base: u64, r: BlkRunView, reply: DiskReplyView) -> (
    Seq<u8>,
    Result<u8, Seq<char>>,
) {
    match (r.op, reply) {
        (DiskOp::Read, DiskReplyView::Data(data)) => if data.len() == r.total {
            scatter(d, base, r.buffers, data, 0, 0)
        } else {
            (d, Ok(VIRTIO_BLK_S_IOERR))
        },
        (DiskOp::Write, DiskReplyView::Done) => (d, Ok(VIRTIO_BLK_S_OK)),
        (DiskOp::Flush, DiskReplyView::Done) => (d, Ok(VIRTIO_BLK_S_OK)),
        _ => (d, Ok(VIRTIO_BLK_S_IOERR)),
    }
}

/// The length that the used ring reports for a request that waited.
pub open spec fn run_used_len(r: BlkRunView) -> u32 {
    if r.op == DiskOp::Read {
        used_len(r.total as nat)
    } else {
        1
    }
}

impl BlkView {
    /// The device after serving stopped as `out` says.
    pub open spec fn after(self, base: u64, out: (Seq<u8>, Served)) -> (
        BlkView,
        Seq<u8>,
        BlkStepView,
    ) {
        match out.1 {
            Served::Failed(e) => (BlkView { run: None, ..self }, out.0, BlkStepView::Failed(e)),
            Served::Wait(r, a) => (BlkView { run: Some(r), ..self }, out.0, BlkStepView::Disk(a)),
            Served::All(q) => match q.finish(out.0, base) {
                (d2, Err(e)) => (BlkView { run: None, ..self }, d2, BlkStepView::Failed(e)),
                (d2, Ok(())) => if q.wants_interrupt() {
                    (
                        BlkView { run: None, interrupt_status: self.interrupt_status | 1, ..self },
                        d2,
                        BlkStepView::Done(true),
                    )
                } else {
                    (BlkView { run: None, ..self }, d2, BlkStepView::Done(false))
                },
            },
        }
    }

    /// The driver rang the bell: the device, the memory and how it goes on.
    #[verifier::opaque]
    pub open spec fn process(self, d: Seq<u8>, base: u64) -> (BlkView, Seq<u8>, BlkStepView) {
        let idle = BlkView { run: None, ..self };
        if self.queue_pfn == 0 {
            (idle, d, BlkStepView::Done(false))
        } else if self.queue_align == 0 {
            (idle, d, BlkStepView::Failed("VirtIO 队列对齐为零"@))
        } else {
            match queue_at(d, base, self.queue_pfn, self.queue_num, self.queue_align) {
                Err(e) => (idle, d, BlkStepView::Failed(e)),
                Ok(q) => if q.left == 0 {
                    (idle, d, BlkStepView::Done(false))
                } else {
                    self.after(base, serve(d, base, self.capacity, q))
                },
            }
        }
    }

    /// The disk replied to the request that waits: the device, the memory and how
    /// it goes on.
    #[verifier::opaque]
    pub open spec fn resume(self, d: Seq<u8>, base: u64, reply: DiskReplyView) -> (
        BlkView,
        Seq<u8>,
        BlkStepView,
    ) {
        let idle = BlkView { run: None, ..self };
        match self.run {
            None => (idle, d, BlkStepView::Failed("没有等待磁盘的请求"@)),
            Some(r) => if r.queue.num == 0 || r.queue.left == 0 {
                (idle, d, BlkStepView::Failed("没有等待磁盘的请求"@))
            } else {
                match settle(d, base, r, reply) {
                    (d2, Err(e)) => (idle, d2, BlkStepView::Failed(e)),
                    (d2, Ok(status)) => match end_request(
                        d2,
                        base,
                        r.queue,
                        r.head,
                        r.status_addr,
                        status,
                        run_used_len(r),
                    ) {
                        (d3, Err(e)) => (idle, d3, BlkStepView::Failed(e)),
                        (d3, Ok(q2)) => self.after(base, serve(d3, base, self.capacity, q2)),
                    },
                }
            },
        }
    }
}

/// Reads the descriptor chain headed by descriptor `head`.
fn read_chain(dram: &Dram, base: u64, q: &QueueRun, head: u16) -> (r: Result<
    Vec<VirtqDesc>,
    &'static str,
>)
    ensures
        match (r, chain_at(dram@, base, *q, head, Seq::empty())) {
            (Ok(c), Ok(s)) => c@ == s && c@.len() <= 256,
            (Err(e), Err(m)) => e@ == m,
            _ => false,
        },
{
    let mut chain: Vec<VirtqDesc> = Vec::new();
    let mut idx: u16 = head;
    loop
        invariant
            chain@.len() <= 256,
            chain_at(dram@, base, *q, head, Seq::empty()) == chain_at(dram@, base, *q, idx, chain@),
        decreases 256 - chain@.len(),
    {
        if chain.len() >= MAX_CHAIN_LEN {
            return Err("描述符链过长");
        }
        let desc = match read_descriptor(dram, q.desc_address(idx), base) {
            Ok(v) => v,
            Err(e) => return Err(e),
        };
        chain.push(desc);
        if desc.flags & VIRTQ_DESC_F_NEXT == 0 {
            return Ok(chain);
        }
        idx = desc.next;
    }
}

/// Reads a request header.
fn read_request_header(dram: &Dram, addr: u64, base: u64) -> (r: Result<BlkHeader, &'static str>)
    ensures
        same_result(r, header_at(dram@, addr, base)),
{
    let req_type: u32 = match read_u32(dram, addr, base) {
        Ok(v) => v,
        Err(e) => return Err(e),
    };
    match read_u32(dram, addr.wrapping_add(4), base) {
        Ok(_) => {},
        Err(e) => return Err(e),
    }
    let sector: u64 = match read_u64(dram, addr.wrapping_add(8), base) {
        Ok(v) => v,
        Err(e) => return Err(e),
    };
    Ok(BlkHeader { req_type, sector })
}

/// A bound on how many bytes some buffers hold together.
proof fn lemma_total_len_bound(buffers: Seq<VirtqDesc>)
    ensures
        total_len(buffers) <= buffers.len() * 0xFFFF_FFFF,
    decreases buffers.len(),
{
    if buffers.len() > 0 {
        lemma_total_len_bound(buffers.drop_last());
    }
}

/// How many bytes some buffers hold together.
fn sum_len(buffers: &Vec<VirtqDesc>) -> (n: u64)
    requires
        buffers@.len() <= 256,
    ensures
        n == total_len(buffers@),
{
    let mut n: u64 = 0;
    let mut i: usize = 0;
    while i < buffers.len()
        invariant
            i <= buffers@.len() <= 256,
            n == total_len(buffers@.take(i as int)),
        decreases buffers@.len() - i,
    {
        proof {
            lemma_total_len_bound(buffers@.take(i as int));
            assert(buffers@.take(i + 1).drop_last() =~= buffers@.take(i as int));
        }
        n = n + buffers[i].len as u64;
        i = i + 1;
    }
    proof {
        assert(buffers@.take(i as int) =~= buffers@);
    }
    n
}

/// Whether a request for `total` bytes from `sector` on ends within the disk.
fn within_disk(sector: u64, total: u64, capacity: u64) -> (b: bool)
    requires
        total <= 0x1_0000_0000_0000,
    ensures
        b == fits(sector, total as nat, capacity),
{
    let needed: u64 = (total + (SECTOR_SIZE - 1)) / SECTOR_SIZE;
    sector <= capacity && needed <= capacity - sector
}

/// Collects the bytes of the buffers.
fn collect(dram: &Dram, base: u64, buffers: &Vec<VirtqDesc>) -> (r: Result<Vec<u8>, &'static str>)
    ensures
        match (r, gather(dram@, base, buffers@, 0, Seq::empty())) {
            (Ok(v), Ok(s)) => v@ == s,
            (Err(e), Err(m)) => e@ == m,
            _ => false,
        },
{
    let mut data: Vec<u8> = Vec::new();
    let mut k: usize = 0;
    while k < buffers.len()
        invariant
            k <= buffers@.len(),
            gather(dram@, base, buffers@, 0, Seq::empty()) == gather(
                dram@,
                base,
                buffers@,
                k as nat,
                data@,
            ),
        decreases buffers@.len() - k,
    {
        let buffer: VirtqDesc = buffers[k];
        let ghost before = data@;
        let mut i: u32 = 0;
        while i < buffer.len
            invariant
                i <= buffer.len,
                gather_one(dram@, base, buffer, 0, before) == gather_one(
                    dram@,
                    base,
                    buffer,
                    i as nat,
                    data@,
                ),
                k < buffers@.len(),
                buffer == buffers@[k as int],
                gather(dram@, base, buffers@, 0, Seq::empty()) == gather(
                    dram@,
                    base,
                    buffers@,
                    k as nat,
                    before,
                ),
            decreases buffer.len - i,
        {
            match read_u8(dram, buffer.addr.wrapping_add(i as u64), base) {
                Ok(b) => data.push(b),
                Err(e) => return Err(e),
            }
            i = i + 1;
        }
        k = k + 1;
    }
    Ok(data)
}

/// Spreads `data` over the buffers.
fn spread(dram: &mut Dram, base: u64, buffers: &Vec<VirtqDesc>, data: &Vec<u8>) -> (r: Result<
    u8,
    &'static str,
>)
    ensures
        final(dram)@ == scatter(old(dram)@, base, buffers@, data@, 0, 0).0,
        same_result(r, scatter(old(dram)@, base, buffers@, data@, 0, 0).1),
{
    let mut off: usize = 0;
    let mut k: usize = 0;
    while k < buffers.len()
        invariant
            k <= buffers@.len(),
            off <= data@.len(),
            scatter(old(dram)@, base, buffers@, data@, 0, 0) == scatter(
                dram@,
                base,
                buffers@,
                data@,
                k as nat,
                off as nat,
            ),
        decreases buffers@.len() - k,
    {
        let n: usize = buffers[k].len as usize;
        if n > data.len() - off {
            return Ok(VIRTIO_BLK_S_IOERR);
        }
        let (_, tail) = data.as_slice().split_at(off);
        let (part, _) = tail.split_at(n);
        assert(part@ =~= data@.subrange(off as int, off + n));
        match write_bytes(dram, buffers[k].addr, part, base) {
            Ok(()) => {},
            Err(e) => return Err(e),
        }
        off = off + n;
        k = k + 1;
    }
    Ok(VIRTIO_BLK_S_OK)
}

/// The serial number.
fn device_serial() -> (s: [u8; 16])
    ensures
        s@ == ascii("MYSIM-VIRTIO-BLK"@),
{
    proof {
        reveal_strlit("MYSIM-VIRTIO-BLK");
    }
    let s: [u8; 16] = [
        0x4d,
        0x59,
        0x53,
        0x49,
        0x4d,
        0x2d,
        0x56,
        0x49,
        0x52,
        0x54,
        0x49,
        0x4f,
        0x2d,
        0x42,
        0x4c,
        0x4b,
    ];
    assert(s@ =~= ascii("MYSIM-VIRTIO-BLK"@));
    s
}

/// Writes the serial number into a buffer of `len` bytes.
fn handle_get_id_request(dram: &mut Dram, addr: u64, len: u32, base: u64) -> (r: Result<
    (),
    &'static str,
>)
    ensures
        final(dram)@ == guest_write(old(dram)@, addr, base, serial_in(len as nat), 0).0,
        same_result(r, guest_write(old(dram)@, addr, base, serial_in(len as nat), 0).1),
{
    let serial = device_serial();
    let ghost data = serial_in(len as nat);
    let mut i: u32 = 0;
    while i < len
        invariant
            i <= len,
            serial@ == ascii("MYSIM-VIRTIO-BLK"@),
            data == serial_in(len as nat),
            guest_write(old(dram)@, addr, base, data, 0) == guest_write(
                dram@,
                addr,
                base,
                data,
                i as nat,
            ),
        decreases len - i,
    {
        let byte: u8 = if i < 16 {
            serial[i as usize]
        } else {
            0
        };
        assert(byte == data[i as int]);
        match write_u8(dram, addr.wrapping_add(i as u64), byte, base) {
            Ok(()) => {},
            Err(e) => return Err(e),
        }
        i = i + 1;
    }
    Ok(())
}

/// One more than `n`, modulo 2^32.
fn with_status_byte(n: u64) -> (r: u32)
    requires
        n < u64::MAX,
    ensures
        r == used_len(n as nat),
{
    ((n + 1) % 0x1_0000_0000) as u32
}

/// The executable form of `Begin`.
enum Begun {
    Failed(&'static str),
    Wait(BlkRun, DiskAction),
    Settled { head: u16, status_addr: u64, status: u8, len: u32 },
}

impl View for Begun {
    type V = Begin;

    closed spec fn view(&self) -> Begin {
        match self {
            Begun::Failed(e) => Begin::Failed(e@),
            Begun::Wait(r, a) => Begin::Wait(r@, a@),
            Begun::Settled { head, status_addr, status, len } => Begin::Settled {
                head: *head,
                status_addr: *status_addr,
                status: *status,
                len: *len,
            },
        }
    }
}

/// Begins the request with the header `h` and the data buffers `buffers`.
fn start_request(
    dram: &mut Dram,
    base: u64,
    capacity: u64,
    q: &QueueRun,
    head: u16,
    h: BlkHeader,
    status_addr: u64,
    buffers: Vec<VirtqDesc>,
) -> (r: Begun)
    requires
        buffers@.len() <= 256,
    ensures
        (final(dram)@, r@) == begin_request(
            old(dram)@,
            base,
            capacity,
            *q,
            head,
            h,
            status_addr,
            buffers@,
        ),
{
    proof {
        lemma_total_len_bound(buffers@);
    }
    let total: u64 = sum_len(&buffers);
    let offset: u64 = h.sector.wrapping_mul(512);
    if h.req_type == VIRTIO_BLK_T_IN {
        if !within_disk(h.sector, total, capacity) {
            return Begun::Settled {
                head,
                status_addr,
                status: VIRTIO_BLK_S_IOERR,
                len: with_status_byte(total),
            };
        }
        Begun::Wait(
            BlkRun { queue: *q, head, status_addr, op: DiskOp::Read, buffers, total },
            DiskAction::Read { offset, len: total },
        )
    } else if h.req_type == VIRTIO_BLK_T_OUT {
        if !within_disk(h.sector, total, capacity) {
            return Begun::Settled { head, status_addr, status: VIRTIO_BLK_S_IOERR, len: 1 };
        }
        match collect(dram, base, &buffers) {
            Err(e) => Begun::Failed(e),
            Ok(data) => Begun::Wait(
                BlkRun { queue: *q, head, status_addr, op: DiskOp::Write, buffers, total },
                DiskAction::Write { offset, data },
            ),
        }
    } else if h.req_type == VIRTIO_BLK_T_FLUSH {
        Begun::Wait(
            BlkRun { queue: *q, head, status_addr, op: DiskOp::Flush, buffers, total },
            DiskAction::Flush,
        )
    } else if h.req_type == VIRTIO_BLK_T_GET_ID && buffers.len() > 0 {
        match handle_get_id_request(dram, buffers[0].addr, buffers[0].len, base) {
            Err(e) => Begun::Failed(e),
            Ok(()) => Begun::Settled {
                head,
                status_addr,
                status: VIRTIO_BLK_S_OK,
                len: with_status_byte(buffers[0].len as u64),
            },
        }
    } else {
        Begun::Settled { head, status_addr, status: VIRTIO_BLK_S_IOERR, len: 1 }
    }
}

/// Begins the next request of the queue.
fn start_next(dram: &mut Dram, base: u64, capacity: u64, q: &QueueRun) -> (r: Begun)
    requires
        q.num != 0,
    ensures
        (final(dram)@, r@) == begin(old(dram)@, base, capacity, *q),
{
    let head: u16 = match q.read_head(dram, base) {
        Ok(v) => v,
        Err(e) => return Begun::Failed(e),
    };
    let mut chain = match read_chain(dram, base, q, head) {
        Ok(v) => v,
        Err(e) => return Begun::Failed(e),
    };
    if chain.len() < 2 {
        return Begun::Failed("描述符链太短");
    }
    let h = match read_request_header(dram, chain[0].addr, base) {
        Ok(v) => v,
        Err(e) => return Begun::Failed(e),
    };
    let ghost all = chain@;
    let status_addr: u64 = chain[chain.len() - 1].addr;
    chain.truncate(chain.len() - 1);
    let buffers = chain.split_off(1);
    assert(buffers@ =~= all.subrange(1, all.len() - 1));
    start_request(dram, base, capacity, q, head, h, status_addr, buffers)
}

/// Settles the request that waited with the disk's reply.
fn settle_request(dram: &mut Dram, base: u64, run: &BlkRun, reply: &DiskReply) -> (r: Result<
    u8,
    &'static str,
>)
    ensures
        final(dram)@ == settle(old(dram)@, base, run@, reply@).0,
        same_result(r, settle(old(dram)@, base, run@, reply@).1),
{
    proof {
        reveal(settle);
    }
    match (run.op, reply) {
        (DiskOp::Read, DiskReply::Data(data)) => {
            if data.len() as u64 == run.total {
                spread(dram, base, &run.buffers, data)
            } else {
                Ok(VIRTIO_BLK_S_IOERR)
            }
        },
        (DiskOp::Write, DiskReply::Done) => Ok(VIRTIO_BLK_S_OK),
        (DiskOp::Flush, DiskReply::Done) => Ok(VIRTIO_BLK_S_OK),
        _ => Ok(VIRTIO_BLK_S_IOERR),
    }
}

/// Ends a request.
fn close_request(
    dram: &mut Dram,
    base: u64,
    q: &QueueRun,
    head: u16,
    status_addr: u64,
    status: u8,
    len: u32,
) -> (r: Result<QueueRun, &'static str>)
    requires
        q.num != 0,
        q.left > 0,
    ensures
        final(dram)@ == end_request(old(dram)@, base, *q, head, status_addr, status, len).0,
        same_result(r, end_request(old(dram)@, base, *q, head, status_addr, status, len).1),
{
    match write_u8(dram, status_addr, status, base) {
        Ok(()) => {},
        Err(e) => return Err(e),
    }
    q.push_used(dram, base, head, len)
}

impl VirtioBlock {
    /// A block device on a disk image of `image_len` bytes; bytes past the last
    /// whole sector are out of reach.
    pub fn new(image_len: u64) -> (b: Self)
        ensures
            b@ == blk_reset(image_len / 512),
    {
        Self {
            status: 0,
            queue_sel: 0,
            queue_align: 4096,
            queue_num: 0,
            queue_pfn: 0,
            queue_ready: false,
            driver_features: 0,
            device_features_sel: 0,
            driver_features_sel: 0,
            interrupt_status: 0,
            capacity: image_len / SECTOR_SIZE,
            run: None,
        }
    }

    /// Reads a register.
    pub fn read32(&mut self, offset: u64) -> (r: Result<u32, &'static str>)
        ensures
            final(self)@ == old(self)@,
            r == Ok::<u32, &'static str>(old(self)@.read32(offset)),
    {
        let v: u32 = if offset == VIRTIO_MMIO_MAGIC_VALUE {
            0x74726976
        } else if offset == VIRTIO_MMIO_VERSION {
            1
        } else if offset == VIRTIO_MMIO_DEVICE_ID {
            2
        } else if offset == VIRTIO_MMIO_VENDOR_ID {
            0x554d4551
        } else if offset == VIRTIO_MMIO_DEVICE_FEATURES {
            if self.device_features_sel == 0 {
                BLOCK_FEATURES
            } else {
                0
            }
        } else if offset == VIRTIO_MMIO_QUEUE_ALIGN {
            self.queue_align
        } else if offset == VIRTIO_MMIO_QUEUE_NUM_MAX {
            256
        } else if offset == VIRTIO_MMIO_QUEUE_PFN {
            if self.queue_sel == 0 {
                self.queue_pfn
            } else {
                0
            }
        } else if offset == VIRTIO_MMIO_QUEUE_READY {
            if self.queue_sel == 0 && self.queue_ready {
                1
            } else {
                0
            }
        } else if offset == VIRTIO_MMIO_INTERRUPT_STATUS {
            self.interrupt_status
        } else if offset == VIRTIO_MMIO_STATUS {
            self.status
        } else if offset == 0x100 {
            // The configuration space: capacity, size_max, seg_max, blk_size.
            (self.capacity % 0x1_0000_0000) as u32
        } else if offset == 0x104 {
            (self.capacity / 0x1_0000_0000) as u32
        } else if offset == 0x108 {
            0x20000
        } else if offset == 0x10c {
            128
        } else if offset == 0x114 {
            512
        } else {
            0
        };
        Ok(v)
    }

    /// Writes a register. Ringing the bell (the notify register) does nothing
    /// here: who owns the device then calls `process_queue`.
    pub fn write32(&mut self, offset: u64, value: u32) -> (r: Result<(), &'static str>)
        ensures
            r is Ok,
            final(self)@ == old(self)@.write32(offset, value),
    {
        if offset == VIRTIO_MMIO_DEVICE_FEATURES_SEL {
            self.device_features_sel = value;
        } else if offset == VIRTIO_MMIO_DRIVER_FEATURES {
            if self.driver_features_sel == 0 {
                self.driver_features = (self.driver_features & 0xFFFF_FFFF_0000_0000) | (
                value as u64);
            } else {
                self.driver_features = (self.driver_features & 0x0000_0000_FFFF_FFFF) | ((
                value as u64) << 32);
            }
        } else if offset == VIRTIO_MMIO_DRIVER_FEATURES_SEL {
            self.driver_features_sel = value;
        } else if offset == VIRTIO_MMIO_QUEUE_SEL {
            self.queue_sel = value;
        } else if offset == VIRTIO_MMIO_QUEUE_NUM {
            if self.queue_sel == 0 {
                self.queue_num = value;
            }
        } else if offset == VIRTIO_MMIO_QUEUE_ALIGN {
            self.queue_align = value;
        } else if offset == VIRTIO_MMIO_QUEUE_PFN {
            if self.queue_sel == 0 {
                self.queue_pfn = value;
                self.queue_ready = value != 0;
            }
        } else if offset == VIRTIO_MMIO_QUEUE_READY {
            if self.queue_sel == 0 {
                self.queue_ready = value != 0;
            }
        } else if offset == VIRTIO_MMIO_INTERRUPT_ACK {
            self.interrupt_status = self.interrupt_status & !value;
        } else if offset == VIRTIO_MMIO_STATUS {
            if value == 0 {
                self.queue_num = 0;
                self.queue_pfn = 0;
                self.queue_ready = false;
                self.queue_sel = 0;
                self.interrupt_status = 0;
                self.driver_features = 0;
                self.device_features_sel = 0;
                self.driver_features_sel = 0;
                self.queue_align = 4096;
                self.run = None;
            }
            self.status = value;
        }
        Ok(())
    }

    /// Serves the requests of the queue up to the next one that needs the disk.
    fn serve_queue(&mut self, dram: &mut Dram, base: u64, start: QueueRun) -> (r: BlkStep)
        ensures
            (final(self)@, final(dram)@, r@) == old(self)@.after(
                base,
                serve(old(dram)@, base, old(self)@.capacity, start),
            ),
    {
        let mut q: QueueRun = start;
        let capacity: u64 = self.capacity;
        self.run = None;
        let ghost target = serve(dram@, base, capacity, start);
        while q.left > 0
            invariant
                target == serve(dram@, base, capacity, q),
                self@ == (BlkView { run: None, ..old(self)@ }),
                target == serve(old(dram)@, base, old(self)@.capacity, start),
            decreases q.left,
        {
            proof {
                reveal(serve);
            }
            if q.num == 0 {
                return BlkStep::Failed("VirtIO 队列长度为零");
            }
            match start_next(dram, base, capacity, &q) {
                Begun::Failed(e) => return BlkStep::Failed(e),
                Begun::Wait(run, action) => {
                    self.run = Some(run);
                    return BlkStep::Disk(action);
                },
                Begun::Settled { head, status_addr, status, len } => {
                    match close_request(dram, base, &q, head, status_addr, status, len) {
                        Ok(q2) => {
                            q = q2;
                        },
                        Err(e) => return BlkStep::Failed(e),
                    }
                },
            }
        }
        proof {
            reveal(serve);
        }
        match q.publish(dram, base) {
            Ok(()) => {},
            Err(e) => return BlkStep::Failed(e),
        }
        if q.interrupt_wanted() {
            self.interrupt_status = self.interrupt_status | 1;
            BlkStep::Done(true)
        } else {
            BlkStep::Done(false)
        }
    }

    /// Serves the queue from its registers on: the driver rang the bell. Every
    /// request that waits is served, each by a chain of descriptors that holds
    /// the header, the data buffers and the status byte.
    pub fn process_queue(&mut self, dram: &mut Dram, base: u64) -> (r: BlkStep)
        ensures
            (final(self)@, final(dram)@, r@) == old(self)@.process(old(dram)@, base),
    {
        proof {
            reveal(BlkView::process);
        }
        self.run = None;
        if self.queue_pfn == 0 {
            return BlkStep::Done(false);
        }
        if self.queue_align == 0 {
            return BlkStep::Failed("VirtIO 队列对齐为零");
        }
        let q = match open_queue(dram, base, self.queue_pfn, self.queue_num, self.queue_align) {
            Ok(q) => q,
            Err(e) => return BlkStep::Failed(e),
        };
        if q.left == 0 {
            return BlkStep::Done(false);
        }
        self.serve_queue(dram, base, q)
    }

    /// Goes on with the disk's reply to what the last step asked for.
    pub fn resume_queue(&mut self, dram: &mut Dram, base: u64, reply: &DiskReply) -> (r: BlkStep)
        ensures
            (final(self)@, final(dram)@, r@) == old(self)@.resume(old(dram)@, base, reply@),
    {
        proof {
            reveal(BlkView::resume);
        }
        let run = match self.run.take() {
            Some(run) => run,
            None => return BlkStep::Failed("没有等待磁盘的请求"),
        };
        if run.queue.num == 0 || run.queue.left == 0 {
            return BlkStep::Failed("没有等待磁盘的请求");
        }
        let status: u8 = match settle_request(dram, base, &run, reply) {
            Ok(s) => s,
            Err(e) => return BlkStep::Failed(e),
        };
        let len: u32 = match run.op {
            DiskOp::Read => ((run.total as u128 + 1) % 0x1_0000_0000) as u32,
            _ => 1,
        };
        match close_request(dram, base, &run.queue, run.head, run.status_addr, status, len) {
            Ok(q) => self.serve_queue(dram, base, q),
            Err(e) => BlkStep::Failed(e),
        }
    }
}

/// A disk action stays within a disk of `capacity` sectors and starts at a
/// sector.
pub open spec fn action_fits(a: DiskActionView, capacity: u64) -> bool {
    match a {
        DiskActionView::Read { offset, len } => offset % 512 == 0 && offset + len <= capacity * 512,
        DiskActionView::Write { offset, data } => offset % 512 == 0 && offset + data.len()
            <= capacity * 512,
        DiskActionView::Flush => true,
    }
}

/// How many bytes one buffer contributes.
proof fn lemma_gather_one_len(d: Seq<u8>, base: u64, buffer: VirtqDesc, i: nat, acc: Seq<u8>)
    requires
        i <= buffer.len,
    ensures
        gather_one(d, base, buffer, i, acc) matches Ok(s) ==> s.len() == acc.len() + buffer.len
            - i,
    decreases buffer.len - i,
{
    if i < buffer.len {
        match dram_read8(d, guest_offset(buffer.addr.wrapping_add(i as u64), base)) {
            Ok(b) => lemma_gather_one_len(d, base, buffer, i + 1, acc.push(b)),
            Err(e) => {},
        }
    }
}

/// How many bytes the buffers contribute.
proof fn lemma_gather_len(
    d: Seq<u8>,
    base: u64,
    buffers: Seq<VirtqDesc>,
    k: nat,
    acc: Seq<u8>,
)
    requires
        k <= buffers.len(),
        acc.len() == total_len(buffers.take(k as int)),
    ensures
        gather(d, base, buffers, k, acc) matches Ok(s) ==> s.len() == total_len(buffers),
    decreases buffers.len() - k,
{
    if k < buffers.len() {
        lemma_gather_one_len(d, base, buffers[k as int], 0, acc);
        assert(buffers.take(k as int + 1).drop_last() =~= buffers.take(k as int));
        match gather_one(d, base, buffers[k as int], 0, acc) {
            Ok(acc2) => lemma_gather_len(d, base, buffers, k + 1, acc2),
            Err(e) => {},
        }
    } else {
        assert(buffers.take(k as int) =~= buffers);
    }
}

/// A chain is at most as long as allowed.
proof fn lemma_chain_len(d: Seq<u8>, base: u64, q: QueueRun, idx: u16, acc: Seq<VirtqDesc>)
    ensures
        chain_at(d, base, q, idx, acc) matches Ok(c) ==> c.len() <= 256,
    decreases 256 - acc.len(),
{
    if acc.len() < 256 {
        match descriptor_at(d, q.desc_addr(idx), base) {
            Ok(desc) => lemma_chain_len(d, base, q, desc.next, acc.push(desc)),
            Err(e) => {},
        }
    }
}

/// What a request asks of the disk fits the disk.
proof fn lemma_begin_fits(d: Seq<u8>, base: u64, capacity: u64, q: QueueRun)
    requires
        capacity <= u64::MAX / 512,
    ensures
        begin(d, base, capacity, q).1 matches Begin::Wait(r, a) ==> action_fits(a, capacity),
{
    if let Ok(head) = q.head(d, base) {
        lemma_chain_len(d, base, q, head, Seq::empty());
        if let Ok(chain) = chain_at(d, base, q, head, Seq::empty()) {
            if chain.len() >= 2 {
                let buffers = chain.subrange(1, chain.len() - 1);
                lemma_total_len_bound(buffers);
                assert(buffers.take(0) =~= Seq::<VirtqDesc>::empty());
                lemma_gather_len(d, base, buffers, 0, Seq::empty());
            }
        }
    }
}

/// What serving a queue asks of the disk fits the disk.
proof fn lemma_serve_fits(d: Seq<u8>, base: u64, capacity: u64, q: QueueRun)
    requires
        capacity <= u64::MAX / 512,
    ensures
        serve(d, base, capacity, q).1 matches Served::Wait(r, a) ==> action_fits(a, capacity),
    decreases q.left,
{
    reveal(serve);
    if q.left > 0 && q.num != 0 {
        lemma_begin_fits(d, base, capacity, q);
        match begin(d, base, capacity, q) {
            (d2, Begin::Settled { head, status_addr, status, len }) => {
                match end_request(d2, base, q, head, status_addr, status, len) {
                    (d3, Ok(q2)) => lemma_serve_fits(d3, base, capacity, q2),
                    (d3, Err(e)) => {},
                }
            },
            _ => {},
        }
    }
}

/// The device never reaches past the end of the disk: whatever the guest's
/// memory holds, each disk action starts at a sector and ends within the
/// capacity.
pub proof fn law_disk_actions_fit(b: BlkView, d: Seq<u8>, base: u64, reply: DiskReplyView)
    requires
        b.capacity <= u64::MAX / 512,
    ensures
        b.process(d, base).2 matches BlkStepView::Disk(a) ==> action_fits(a, b.capacity),
        b.resume(d, base, reply).2 matches BlkStepView::Disk(a) ==> action_fits(a, b.capacity),
{
    reveal(BlkView::process);
    reveal(BlkView::resume);
    match queue_at(d, base, b.queue_pfn, b.queue_num, b.queue_align) {
        Ok(q) => lemma_serve_fits(d, base, b.capacity, q),
        Err(e) => {},
    }
    if let Some(r) = b.run {
        if let (d2, Ok(status)) = settle(d, base, r, reply) {
            if let (d3, Ok(q2)) = end_request(
                d2,
                base,
                r.queue,
                r.head,
                r.status_addr,
                status,
                run_used_len(r),
            ) {
                lemma_serve_fits(d3, base, b.capacity, q2);
            }
        }
    }
}

/// A request that would reach past the end of the disk is answered with the
/// error status and without the disk.
pub proof fn law_out_of_range_request(
    d: Seq<u8>,
    base: u64,
    capacity: u64,
    q: QueueRun,
    head: u16,
    h: BlkHeader,
    status_addr: u64,
    buffers: Seq<VirtqDesc>,
)
    requires
        h.req_type == VIRTIO_BLK_T_IN || h.req_type == VIRTIO_BLK_T_OUT,
        h.sector + sectors_needed(total_len(buffers)) > capacity,
    ensures
        begin_request(d, base, capacity, q, head, h, status_addr, buffers).0 == d,
        begin_request(d, base, capacity, q, head, h, status_addr, buffers).1 matches Begin::Settled {
            status,
            ..
        } && status == VIRTIO_BLK_S_IOERR,
{
}

/// Writing zero to the status register resets the device, whatever its state;
/// acknowledging an interrupt clears exactly the bits written.
pub proof fn law_block_reset_and_ack(b: BlkView, value: u32)
    ensures
        b.write32(VIRTIO_MMIO_STATUS, 0) == blk_reset(b.capacity),
        b.write32(VIRTIO_MMIO_INTERRUPT_ACK, value).interrupt_status & value == 0,
        b.write32(VIRTIO_MMIO_INTERRUPT_ACK, value).interrupt_status & !value == b.interrupt_status
            & !value,
{
    let s = b.interrupt_status;
    assert((s & !value) & value == 0 && (s & !value) & !value == s & !value) by (bit_vector);
}

/// The device differs from `b` in its interrupt status and its waiting request
/// at most.
pub open spec fn same_registers(p: BlkView, b: BlkView) -> bool {
    p == BlkView { run: p.run, interrupt_status: p.interrupt_status, ..b }
}

/// However serving stops, no register but the interrupt status changes.
proof fn lemma_after_registers(b: BlkView, base: u64, out: (Seq<u8>, Served))
    ensures
        same_registers(b.after(base, out).0, b),
{
}

/// No register access changes the disk's capacity, and serving the queue changes
/// no register but the interrupt status.
pub proof fn law_block_registers(
    b: BlkView,
    offset: u64,
    value: u32,
    d: Seq<u8>,
    base: u64,
    reply: DiskReplyView,
)
    ensures
        b.write32(offset, value).capacity == b.capacity,
        same_registers(b.process(d, base).0, b),
        same_registers(b.resume(d, base, reply).0, b),
{
    assert(same_registers(b.process(d, base).0, b)) by {
        reveal(BlkView::process);
        if let Ok(q) = queue_at(d, base, b.queue_pfn, b.queue_num, b.queue_align) {
            lemma_after_registers(b, base, serve(d, base, b.capacity, q));
        }
    }
    assert(same_registers(b.resume(d, base, reply).0, b)) by {
        reveal(BlkView::resume);
        if let Some(r) = b.run {
            if let (d2, Ok(status)) = settle(d, base, r, reply) {
                if let (d3, Ok(q2)) = end_request(
                    d2,
                    base,
                    r.queue,
                    r.head,
                    r.status_addr,
                    status,
                    run_used_len(r),
                ) {
                    lemma_after_registers(b, base, serve(d3, base, b.capacity, q2));
                }
            }
        }
    }
}

/// Where the data of buffer `k` starts.
pub open spec fn start_of(buffers: Seq<VirtqDesc>, k: int) -> nat {
    total_len(buffers.take(k))
}

/// The part of `data` that buffer `k` gets.
pub open spec fn part_of(buffers: Seq<VirtqDesc>, data: Seq<u8>, k: int) -> Seq<u8> {
    data.subrange(start_of(buffers, k) as int, start_of(buffers, k + 1) as int)
}

/// The buffers below `n` hold their parts of `data`.
#[verifier::opaque]
pub open spec fn filled(
    d: Seq<u8>,
    base: u64,
    buffers: Seq<VirtqDesc>,
    data: Seq<u8>,
    n: int,
) -> bool {
    forall|k: int|
        0 <= k < n ==> holds(
            d,
            (#[trigger] buffers[k]).addr,
            base,
            part_of(buffers, data, k),
        )
}

/// No two buffers have an address in common.
pub open spec fn all_apart(buffers: Seq<VirtqDesc>) -> bool {
    forall|j: int, k: int|
        0 <= j < k < buffers.len() ==> apart(#[trigger] buffers[j], #[trigger] buffers[k])
}

/// The data of one buffer ends where that of the next starts, and within the whole.
proof fn lemma_starts(buffers: Seq<VirtqDesc>, k: int)
    requires
        0 <= k < buffers.len(),
    ensures
        start_of(buffers, k + 1) == start_of(buffers, k) + buffers[k].len,
        start_of(buffers, k + 1) <= total_len(buffers),
    decreases buffers.len() - k,
{
    assert(buffers.take(k + 1).drop_last() =~= buffers.take(k));
    if k + 1 < buffers.len() {
        lemma_starts(buffers, k + 1);
    } else {
        assert(buffers.take(k + 1) =~= buffers);
    }
}

/// Spreading data over the buffers from number `k` on fills them all.
proof fn lemma_scatter_fills(
    d: Seq<u8>,
    base: u64,
    buffers: Seq<VirtqDesc>,
    data: Seq<u8>,
    k: nat,
)
    requires
        k <= buffers.len(),
        data.len() == total_len(buffers),
        d.len() <= 0x1_0000_0000_0000_0000,
        all_apart(buffers),
        filled(d, base, buffers, data, k as int),
        scatter(d, base, buffers, data, k, start_of(buffers, k as int)).1 is Ok,
    ensures
        scatter(d, base, buffers, data, k, start_of(buffers, k as int)).1 == Ok::<u8, Seq<char>>(
            VIRTIO_BLK_S_OK,
        ),
        filled(
            scatter(d, base, buffers, data, k, start_of(buffers, k as int)).0,
            base,
            buffers,
            data,
            buffers.len() as int,
        ),
    decreases buffers.len() - k,
{
    if k < buffers.len() {
        let i = k as int;
        lemma_starts(buffers, i);
        let part = part_of(buffers, data, i);
        let (d2, r) = guest_write(d, buffers[i].addr, base, part, 0);
        assert(r is Ok);
        lemma_written_holds(d, buffers[i].addr, base, part);
        law_guest_write(d, buffers[i].addr, base, part);
        assert(filled(d2, base, buffers, data, i + 1)) by {
            reveal(filled);
            assert forall|j: int| 0 <= j < i + 1 implies holds(
                d2,
                (#[trigger] buffers[j]).addr,
                base,
                part_of(buffers, data, j),
            ) by {
                if j < i {
                    lemma_starts(buffers, j);
                    lemma_apart_holds(
                        d,
                        base,
                        buffers[j],
                        buffers[i],
                        part_of(buffers, data, j),
                        part,
                    );
                }
            }
        }
        lemma_scatter_fills(d2, base, buffers, data, k + 1);
    }
}

/// Collecting one buffer that holds `part`.
proof fn lemma_gather_one_holds(
    d: Seq<u8>,
    base: u64,
    buffer: VirtqDesc,
    part: Seq<u8>,
    i: nat,
    acc: Seq<u8>,
)
    requires
        i <= part.len() == buffer.len,
        holds(d, buffer.addr, base, part),
    ensures
        gather_one(d, base, buffer, i, acc) == Ok::<Seq<u8>, Seq<char>>(
            acc + part.skip(i as int),
        ),
    decreases part.len() - i,
{
    if i < part.len() {
        assert(dram_read8(d, guest_offset(buffer.addr.wrapping_add((i as int) as u64), base))
            == Ok::<u8, Seq<char>>(part[i as int]));
        lemma_gather_one_holds(d, base, buffer, part, i + 1, acc.push(part[i as int]));
        assert(acc.push(part[i as int]) + part.skip(i as int + 1) =~= acc + part.skip(i as int));
    } else {
        assert(acc + part.skip(i as int) =~= acc);
    }
}

/// Collecting buffers that hold `data`.
proof fn lemma_gather_filled(
    d: Seq<u8>,
    base: u64,
    buffers: Seq<VirtqDesc>,
    data: Seq<u8>,
    k: nat,
)
    requires
        k <= buffers.len(),
        data.len() == total_len(buffers),
        filled(d, base, buffers, data, buffers.len() as int),
    ensures
        gather(d, base, buffers, k, data.take(start_of(buffers, k as int) as int)) == Ok::<
            Seq<u8>,
            Seq<char>,
        >(data),
    decreases buffers.len() - k,
{
    let i = k as int;
    if k < buffers.len() {
        lemma_starts(buffers, i);
        let a = start_of(buffers, i) as int;
        let b = start_of(buffers, i + 1) as int;
        let part = part_of(buffers, data, i);
        assert(holds(d, buffers[i].addr, base, part)) by {
            reveal(filled);
        }
        lemma_gather_one_holds(d, base, buffers[i], part, 0, data.take(a));
        assert(data.take(a) + part.skip(0) =~= data.take(b));
        lemma_gather_filled(d, base, buffers, data, k + 1);
    } else {
        assert(buffers.take(i) =~= buffers);
        assert(data.take(data.len() as int) =~= data);
    }
}

/// What a read request puts into the guest's memory is what a write request takes
/// out of it: buffers that do not overlap, filled with the data of the disk without
/// an error, give the same data when they are collected.
pub proof fn law_write_after_read(
    d: Seq<u8>,
    base: u64,
    buffers: Seq<VirtqDesc>,
    data: Seq<u8>,
)
    requires
        data.len() == total_len(buffers),
        d.len() <= 0x1_0000_0000_0000_0000,
        all_apart(buffers),
        scatter(d, base, buffers, data, 0, 0).1 is Ok,
    ensures
        scatter(d, base, buffers, data, 0, 0).1 == Ok::<u8, Seq<char>>(VIRTIO_BLK_S_OK),
        gather(scatter(d, base, buffers, data, 0, 0).0, base, buffers, 0, Seq::empty()) == Ok::<
            Seq<u8>,
            Seq<char>,
        >(data),
{
    assert(buffers.take(0) =~= Seq::<VirtqDesc>::empty());
    assert(start_of(buffers, 0) == 0);
    assert(filled(d, base, buffers, data, 0)) by {
        reveal(filled);
    }
    lemma_scatter_fills(d, base, buffers, data, 0);
    assert(data.take(0) =~= Seq::<u8>::empty());
    lemma_gather_filled(scatter(d, base, buffers, data, 0, 0).0, base, buffers, data, 0);
}

} // verus!
