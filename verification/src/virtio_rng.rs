//! A VirtIO entropy device on the legacy MMIO interface.
//!
//! The device has no source of randomness of its own. Serving the queue stops
//! wherever random bytes are needed, says how many, and goes on with them.

use crate::dram::Dram;
#[allow(unused_imports)]
use crate::virtio::with_features;
use crate::virtio::{
    VIRTIO_MMIO_DEVICE_FEATURES_SEL, VIRTIO_MMIO_DEVICE_ID, VIRTIO_MMIO_DRIVER_FEATURES,
    VIRTIO_MMIO_DRIVER_FEATURES_SEL, VIRTIO_MMIO_INTERRUPT_ACK, VIRTIO_MMIO_INTERRUPT_STATUS,
    VIRTIO_MMIO_MAGIC_VALUE, VIRTIO_MMIO_QUEUE_NUM, VIRTIO_MMIO_QUEUE_NUM_MAX,
    VIRTIO_MMIO_QUEUE_PFN, VIRTIO_MMIO_QUEUE_READY, VIRTIO_MMIO_QUEUE_SEL, VIRTIO_MMIO_STATUS,
    VIRTIO_MMIO_VENDOR_ID, VIRTIO_MMIO_VERSION,
};
#[allow(unused_imports)]
use crate::virtq::{descriptor_at, guest_write, queue_at};
use crate::virtq::{
    open_queue, read_descriptor, write_bytes, QueueRun, VirtqDesc, VIRTQ_DESC_F_NEXT,
    VIRTQ_DESC_F_WRITE,
};
use vstd::prelude::*;

verus! {

/// How many descriptors of a chain are looked at.
pub const RNG_CHAIN_LEN: u32 = 64;

/// How serving the queue went on.
#[derive(Debug)]
pub enum RngStep {
    /// So many random bytes are needed.
    NeedBytes(u32),
    /// The queue is served; the interrupt was raised or not.
    Done(bool),
    /// Serving was given up.
    Failed(&'static str),
}

/// The model of `RngStep`.
#[verifier::ext_equal]
pub enum RngStepView {
    NeedBytes(u32),
    Done(bool),
    Failed(Seq<char>),
}

impl View for RngStep {
    type V = RngStepView;

    open spec fn view(&self) -> RngStepView {
        match self {
            RngStep::NeedBytes(n) => RngStepView::NeedBytes(*n),
            RngStep::Done(b) => RngStepView::Done(*b),
            RngStep::Failed(e) => RngStepView::Failed(e@),
        }
    }
}

/// A buffer that waits for random bytes, and the queue it came from.
#[derive(Debug, Clone, Copy, PartialEq, Eq, Structural)]
pub struct RngRun {
    pub queue: QueueRun,
    /// The head descriptor.
    pub head: u16,
    /// The buffer to fill.
    pub desc: VirtqDesc,
    /// How many descriptors of the chain came before it.
    pub seen: u32,
    /// How many bytes were written for this request so far, modulo 2^32.
    pub written: u32,
}

/// An entropy device.
pub struct VirtioRng {
    status: u32,
    queue_sel: u32,
    queue_num: u32,
    queue_pfn: u32,
    queue_ready: bool,
    driver_features: u64,
    device_features_sel: u32,
    driver_features_sel: u32,
    interrupt_status: u32,
    run: Option<RngRun>,
}

/// The registers of an entropy device, and the buffer that waits.
#[verifier::ext_equal]
pub struct RngView {
    pub status: u32,
    pub queue_sel: u32,
    pub queue_num: u32,
    pub queue_pfn: u32,
    pub queue_ready: bool,
    pub driver_features: u64,
    pub device_features_sel: u32,
    pub driver_features_sel: u32,
    pub interrupt_status: u32,
    pub run: Option<RngRun>,
}

impl View for VirtioRng {
    type V = RngView;

    closed spec fn view(&self) -> RngView {
        RngView {
            status: self.status,
            queue_sel: self.queue_sel,
            queue_num: self.queue_num,
            queue_pfn: self.queue_pfn,
            queue_ready: self.queue_ready,
            driver_features: self.driver_features,
            device_features_sel: self.device_features_sel,
            driver_features_sel: self.driver_features_sel,
            interrupt_status: self.interrupt_status,
            run: self.run,
        }
    }
}

/// An entropy device after reset.
pub open spec fn rng_reset() -> RngView {
    RngView {
        status: 0,
        queue_sel: 0,
        queue_num: 0,
        queue_pfn: 0,
        queue_ready: false,
        driver_features: 0,
        device_features_sel: 0,
        driver_features_sel: 0,
        interrupt_status: 0,
        run: None,
    }
}

impl RngView {
    /// A register read.
    pub open spec fn read32(self, offset: u64) -> u32 {
        if offset == VIRTIO_MMIO_MAGIC_VALUE {
            0x74726976
        } else if offset == VIRTIO_MMIO_VERSION {
            1
        } else if offset == VIRTIO_MMIO_DEVICE_ID {
            4
        } else if offset == VIRTIO_MMIO_VENDOR_ID {
            0x554d4551
        } else if offset == VIRTIO_MMIO_QUEUE_NUM_MAX {
            64
        } else if offset == VIRTIO_MMIO_QUEUE_PFN && self.queue_sel == 0 {
            self.queue_pfn
        } else if offset == VIRTIO_MMIO_QUEUE_READY && self.queue_sel == 0 && self.queue_ready {
            1
        } else if offset == VIRTIO_MMIO_INTERRUPT_STATUS {
            self.interrupt_status
        } else if offset == VIRTIO_MMIO_STATUS {
            self.status
        } else {
            0
        }
    }

    /// A register write. Writing zero to the status register resets the device.
    pub open spec fn write32(self, offset: u64, value: u32) -> RngView {
        if offset == VIRTIO_MMIO_DEVICE_FEATURES_SEL {
            RngView { device_features_sel: value, ..self }
        } else if offset == VIRTIO_MMIO_DRIVER_FEATURES {
            RngView {
                driver_features: with_features(
                    self.driver_features,
                    self.driver_features_sel,
                    value,
                ),
                ..self
            }
        } else if offset == VIRTIO_MMIO_DRIVER_FEATURES_SEL {
            RngView { driver_features_sel: value, ..self }
        } else if offset == VIRTIO_MMIO_QUEUE_SEL {
            RngView { queue_sel: value, ..self }
        } else if offset == VIRTIO_MMIO_QUEUE_NUM && self.queue_sel == 0 {
            RngView { queue_num: value, ..self }
        } else if offset == VIRTIO_MMIO_QUEUE_PFN && self.queue_sel == 0 {
            RngView { queue_pfn: value, queue_ready: value != 0, ..self }
        } else if offset == VIRTIO_MMIO_QUEUE_READY && self.queue_sel == 0 {
            RngView { queue_ready: value != 0, ..self }
        } else if offset == VIRTIO_MMIO_INTERRUPT_ACK {
            RngView { interrupt_status: self.interrupt_status & !value, ..self }
        } else if offset == VIRTIO_MMIO_STATUS {
            if value == 0 {
                rng_reset()
            } else {
                RngView { status: value, ..self }
            }
        } else {
            self
        }
    }
}

/// Where looking through a chain stops.
pub enum Walk {
    Failed(Seq<char>),
    /// At a buffer to fill, behind so many others.
    Buffer(VirtqDesc, u32),
    /// At the end of the chain.
    End,
}

/// Looking through a chain from descriptor `idx` on, behind `seen` others, for a
/// buffer that the device writes to.
pub open spec fn walk(d: Seq<u8>, base: u64, q: QueueRun, idx: u16, seen: u32) -> Walk
    decreases RNG_CHAIN_LEN - seen,
{
    if seen >= RNG_CHAIN_LEN {
        Walk::End
    } else {
        match descriptor_at(d, q.desc_addr(idx), base) {
            Err(e) => Walk::Failed(e),
            Ok(desc) => if desc.flags & VIRTQ_DESC_F_WRITE != 0 {
                Walk::Buffer(desc, seen)
            } else if desc.flags & VIRTQ_DESC_F_NEXT == 0 {
                Walk::End
            } else {
                walk(d, base, q, desc.next, (seen + 1) as u32)
            },
        }
    }
}

/// Looking on behind the buffer `desc`.
pub open spec fn walk_on(d: Seq<u8>, base: u64, q: QueueRun, desc: VirtqDesc, seen: u32) -> Walk {
    if desc.flags & VIRTQ_DESC_F_NEXT == 0 || seen >= RNG_CHAIN_LEN {
        Walk::End
    } else {
        walk(d, base, q, desc.next, (seen + 1) as u32)
    }
}

/// Where serving a queue stops.
pub enum RngServed {
    Failed(Seq<char>),
    Wait(RngRun),
    /// No request is left.
    All(QueueRun),
}

/// Serving the requests of a queue up to the next buffer to fill.
pub open spec fn rng_serve(d: Seq<u8>, base: u64, q: QueueRun) -> (Seq<u8>, RngServed)
    decreases q.left,
{
    if q.left == 0 {
        (d, RngServed::All(q))
    } else {
        match q.head(d, base) {
            Err(e) => (d, RngServed::Failed(e)),
            Ok(head) => match walk(d, base, q, head, 0) {
                Walk::Failed(e) => (d, RngServed::Failed(e)),
                Walk::Buffer(desc, seen) => (
                    d,
                    RngServed::Wait(RngRun { queue: q, head, desc, seen, written: 0 }),
                ),
                Walk::End => match q.complete(d, base, head, 0) {
                    (d2, Err(e)) => (d2, RngServed::Failed(e)),
                    (d2, Ok(q2)) => rng_serve(d2, base, q2),
                },
            },
        }
    }
}

/// The buffer that waited was filled: going on behind it.
pub open spec fn rng_go_on(d: Seq<u8>, base: u64, r: RngRun) -> (Seq<u8>, RngServed) {
    let written = r.written.wrapping_add(r.desc.len);
    match walk_on(d, base, r.queue, r.desc, r.seen) {
        Walk::Failed(e) => (d, RngServed::Failed(e)),
        Walk::Buffer(desc, seen) => (d, RngServed::Wait(RngRun { desc, seen, written, ..r })),
        Walk::End => match r.queue.complete(d, base, r.head, written) {
            (d2, Err(e)) => (d2, RngServed::Failed(e)),
            (d2, Ok(q2)) => rng_serve(d2, base, q2),
        },
    }
}

impl RngView {
    /// The device after serving stopped as `out` says.
    pub open spec fn after(self, base: u64, out: (Seq<u8>, RngServed)) -> (
        RngView,
        Seq<u8>,
        RngStepView,
    ) {
        match out.1 {
            RngServed::Failed(e) => (RngView { run: None, ..self }, out.0, RngStepView::Failed(e)),
            RngServed::Wait(r) => (
                RngView { run: Some(r), ..self },
                out.0,
                RngStepView::NeedBytes(r.desc.len),
            ),
            RngServed::All(q) => match q.finish(out.0, base) {
                (d2, Err(e)) => (RngView { run: None, ..self }, d2, RngStepView::Failed(e)),
                (d2, Ok(())) => if q.wants_interrupt() {
                    (
                        RngView { run: None, interrupt_status: self.interrupt_status | 1, ..self },
                        d2,
                        RngStepView::Done(true),
                    )
                } else {
                    (RngView { run: None, ..self }, d2, RngStepView::Done(false))
                },
            },
        }
    }

    /// The driver rang the bell: the device, the memory and how it goes on.
    #[verifier::opaque]
    pub open spec fn process(self, d: Seq<u8>, base: u64) -> (RngView, Seq<u8>, RngStepView) {
        let idle = RngView { run: None, ..self };
        if self.queue_pfn == 0 || self.queue_num == 0 {
            (idle, d, RngStepView::Done(false))
        } else {
            match queue_at(d, base, self.queue_pfn, self.queue_num, 4096) {
                Err(e) => (idle, d, RngStepView::Failed(e)),
                Ok(q) => if q.left == 0 {
                    (idle, d, RngStepView::Done(false))
                } else {
                    self.after(base, rng_serve(d, base, q))
                },
            }
        }
    }

    /// The random bytes came: the device, the memory and how it goes on.
    #[verifier::opaque]
    pub open spec fn resume(self, d: Seq<u8>, base: u64, bytes: Seq<u8>) -> (
        RngView,
        Seq<u8>,
        RngStepView,
    ) {
        let idle = RngView { run: None, ..self };
        match self.run {
            None => (idle, d, RngStepView::Failed("没有等待随机数的请求"@)),
            Some(r) => if r.queue.num == 0 || r.queue.left == 0 || bytes.len() != r.desc.len {
                (idle, d, RngStepView::Failed("没有等待随机数的请求"@))
            } else {
                match guest_write(d, r.desc.addr, base, bytes, 0) {
                    (d2, Err(e)) => (idle, d2, RngStepView::Failed(e)),
                    (d2, Ok(())) => self.after(base, rng_go_on(d2, base, r)),
                }
            },
        }
    }
}

/// One step of the xorshift generator with the shifts 13, 7 and 17.
pub open spec fn xorshift(state: u64) -> u64 {
    let a = state ^ (state << 13);
    let b = a ^ (a >> 7);
    b ^ (b << 17)
}

/// The generator after `n` steps.
pub open spec fn xorshift_after(seed: u64, n: nat) -> u64
    decreases n,
{
    if n == 0 {
        seed
    } else {
        xorshift(xorshift_after(seed, (n - 1) as nat))
    }
}

/// The bytes that stand in for random ones where the host has no source of them:
/// the low bytes of an xorshift generator started with `seed`.
pub fn pseudo_random_bytes(seed: u64, count: usize) -> (bytes: Vec<u8>)
    ensures
        bytes@ == Seq::new(count as nat, |i: int| xorshift_after(seed, (i + 1) as nat) as u8),
{
    let mut bytes: Vec<u8> = Vec::new();
    let mut state: u64 = seed;
    let mut i: usize = 0;
    while i < count
        invariant
            i <= count,
            bytes@.len() == i,
            state == xorshift_after(seed, i as nat),
            forall|j: int| 0 <= j < i ==> bytes@[j] == xorshift_after(seed, (j + 1) as nat) as u8,
        decreases count - i,
    {
        let a: u64 = state ^ (state << 13);
        let b: u64 = a ^ (a >> 7);
        state = b ^ (b << 17);
        bytes.push(state as u8);
        i = i + 1;
    }
    assert(bytes@ =~= Seq::new(count as nat, |i: int| xorshift_after(seed, (i + 1) as nat) as u8));
    bytes
}

/// The executable form of `Walk`.
enum Found {
    Failed(&'static str),
    Buffer(VirtqDesc, u32),
    End,
}

impl View for Found {
    type V = Walk;

    closed spec fn view(&self) -> Walk {
        match self {
            Found::Failed(e) => Walk::Failed(e@),
            Found::Buffer(desc, seen) => Walk::Buffer(*desc, *seen),
            Found::End => Walk::End,
        }
    }
}

/// Looks for a buffer to fill from descriptor `start` on.
fn find_buffer(dram: &Dram, base: u64, q: &QueueRun, start: u16, skipped: u32) -> (f: Found)
    ensures
        f@ == walk(dram@, base, *q, start, skipped),
{
    let mut idx: u16 = start;
    let mut seen: u32 = skipped;
    while seen < RNG_CHAIN_LEN
        invariant
            walk(dram@, base, *q, start, skipped) == walk(dram@, base, *q, idx, seen),
        decreases RNG_CHAIN_LEN - seen,
    {
        let desc = match read_descriptor(dram, q.desc_address(idx), base) {
            Ok(v) => v,
            Err(e) => return Found::Failed(e),
        };
        if desc.flags & VIRTQ_DESC_F_WRITE != 0 {
            return Found::Buffer(desc, seen);
        }
        if desc.flags & VIRTQ_DESC_F_NEXT == 0 {
            return Found::End;
        }
        idx = desc.next;
        seen = seen + 1;
    }
    Found::End
}

impl VirtioRng {
    /// An entropy device after reset.
    pub fn new() -> (r: Self)
        ensures
            r@ == rng_reset(),
    {
        Self {
            status: 0,
            queue_sel: 0,
            queue_num: 0,
            queue_pfn: 0,
            queue_ready: false,
            driver_features: 0,
            device_features_sel: 0,
            driver_features_sel: 0,
            interrupt_status: 0,
            run: None,
        }
    }

    /// Reads a register.
    pub fn read32(&mut self, offset: u64) -> (r: Result<u32, &'static str>)
        ensures
            final(self)@ == old(self)@,
            r == Ok::<u32, &'static str>(old(self)@.read32(offset)),
    {
        let v: u32 = if offset == VIRTIO_MMIO_MAGIC_VALUE {
            0x74726976
        } else if offset == VIRTIO_MMIO_VERSION {
            1
        } else if offset == VIRTIO_MMIO_DEVICE_ID {
            4
        } else if offset == VIRTIO_MMIO_VENDOR_ID {
            0x554d4551
        } else if offset == VIRTIO_MMIO_QUEUE_NUM_MAX {
            64
        } else if offset == VIRTIO_MMIO_QUEUE_PFN {
            if self.queue_sel == 0 {
                self.queue_pfn
            } else {
                0
            }
        } else if offset == VIRTIO_MMIO_QUEUE_READY {
            if self.queue_sel == 0 && self.queue_ready {
                1
            } else {
                0
            }
        } else if offset == VIRTIO_MMIO_INTERRUPT_STATUS {
            self.interrupt_status
        } else if offset == VIRTIO_MMIO_STATUS {
            self.status
        } else {
            0
        };
        Ok(v)
    }

    /// Writes a register. Ringing the bell (the notify register) does nothing
    /// here: who owns the device then calls `process_queue`.
    pub fn write32(&mut self, offset: u64, value: u32) -> (r: Result<(), &'static str>)
        ensures
            r is Ok,
            final(self)@ == old(self)@.write32(offset, value),
    {
        if offset == VIRTIO_MMIO_DEVICE_FEATURES_SEL {
            self.device_features_sel = value;
        } else if offset == VIRTIO_MMIO_DRIVER_FEATURES {
            if self.driver_features_sel == 0 {
                self.driver_features = (self.driver_features & 0xFFFF_FFFF_0000_0000) | (
                value as u64);
            } else {
                self.driver_features = (self.driver_features & 0x0000_0000_FFFF_FFFF) | ((
                value as u64) << 32);
            }
        } else if offset == VIRTIO_MMIO_DRIVER_FEATURES_SEL {
            self.driver_features_sel = value;
        } else if offset == VIRTIO_MMIO_QUEUE_SEL {
            self.queue_sel = value;
        } else if offset == VIRTIO_MMIO_QUEUE_NUM {
            if self.queue_sel == 0 {
                self.queue_num = value;
            }
        } else if offset == VIRTIO_MMIO_QUEUE_PFN {
            if self.queue_sel == 0 {
                self.queue_pfn = value;
                self.queue_ready = value != 0;
            }
        } else if offset == VIRTIO_MMIO_QUEUE_READY {
            if self.queue_sel == 0 {
                self.queue_ready = value != 0;
            }
        } else if offset == VIRTIO_MMIO_INTERRUPT_ACK {
            self.interrupt_status = self.interrupt_status & !value;
        } else if offset == VIRTIO_MMIO_STATUS {
            if value == 0 {
                self.queue_num = 0;
                self.queue_pfn = 0;
                self.queue_ready = false;
                self.queue_sel = 0;
                self.interrupt_status = 0;
                self.driver_features = 0;
                self.device_features_sel = 0;
                self.driver_features_sel = 0;
                self.run = None;
            }
            self.status = value;
        }
        Ok(())
    }

    /// Serves the requests of the queue up to the next buffer to fill.
    fn serve_queue(&mut self, dram: &mut Dram, base: u64, start: QueueRun) -> (r: RngStep)
        requires
            start.num != 0,
        ensures
            (final(self)@, final(dram)@, r@) == old(self)@.after(
                base,
                rng_serve(old(dram)@, base, start),
            ),
    {
        let mut q: QueueRun = start;
        self.run = None;
        let ghost target = rng_serve(dram@, base, start);
        while q.left > 0
            invariant
                q.num != 0,
                target == rng_serve(dram@, base, q),
                self@ == (RngView { run: None, ..old(self)@ }),
                target == rng_serve(old(dram)@, base, start),
            decreases q.left,
        {
            let head: u16 = match q.read_head(dram, base) {
                Ok(v) => v,
                Err(e) => return RngStep::Failed(e),
            };
            match find_buffer(dram, base, &q, head, 0) {
                Found::Failed(e) => return RngStep::Failed(e),
                Found::Buffer(desc, seen) => {
                    self.run = Some(RngRun { queue: q, head, desc, seen, written: 0 });
                    return RngStep::NeedBytes(desc.len);
                },
                Found::End => {
                    match q.push_used(dram, base, head, 0) {
                        Ok(q2) => {
                            q = q2;
                        },
                        Err(e) => return RngStep::Failed(e),
                    }
                },
            }
        }
        match q.publish(dram, base) {
            Ok(()) => {},
            Err(e) => return RngStep::Failed(e),
        }
        if q.interrupt_wanted() {
            self.interrupt_status = self.interrupt_status | 1;
            RngStep::Done(true)
        } else {
            RngStep::Done(false)
        }
    }

    /// Serves the queue from its registers on: the driver rang the bell. Every
    /// buffer that the driver offers for writing is filled with random bytes.
    pub fn process_queue(&mut self, dram: &mut Dram, base: u64) -> (r: RngStep)
        ensures
            (final(self)@, final(dram)@, r@) == old(self)@.process(old(dram)@, base),
    {
        proof {
            reveal(RngView::process);
        }
        self.run = None;
        if self.queue_pfn == 0 || self.queue_num == 0 {
            return RngStep::Done(false);
        }
        let q = match open_queue(dram, base, self.queue_pfn, self.queue_num, 4096) {
            Ok(q) => q,
            Err(e) => return RngStep::Failed(e),
        };
        if q.left == 0 {
            return RngStep::Done(false);
        }
        self.serve_queue(dram, base, q)
    }

    /// Goes on with the random bytes that the last step asked for.
    pub fn resume_queue(&mut self, dram: &mut Dram, base: u64, bytes: &Vec<u8>) -> (r: RngStep)
        ensures
            (final(self)@, final(dram)@, r@) == old(self)@.resume(old(dram)@, base, bytes@),
    {
        proof {
            reveal(RngView::resume);
        }
        let run = match self.run {
            Some(run) => run,
            None => return RngStep::Failed("没有等待随机数的请求"),
        };
        self.run = None;
        if run.queue.num == 0 || run.queue.left == 0 || bytes.len() as u64 != run.desc.len as u64 {
            return RngStep::Failed("没有等待随机数的请求");
        }
        match write_bytes(dram, run.desc.addr, bytes.as_slice(), base) {
            Ok(()) => {},
            Err(e) => return RngStep::Failed(e),
        }
        let written: u32 = run.written.wrapping_add(run.desc.len);
        if run.desc.flags & VIRTQ_DESC_F_NEXT != 0 && run.seen < RNG_CHAIN_LEN {
            match find_buffer(dram, base, &run.queue, run.desc.next, run.seen + 1) {
                Found::Failed(e) => return RngStep::Failed(e),
                Found::Buffer(desc, seen) => {
                    self.run = Some(
                        RngRun { queue: run.queue, head: run.head, desc, seen, written },
                    );
                    return RngStep::NeedBytes(desc.len);
                },
                Found::End => {},
            }
        }
        match run.queue.push_used(dram, base, run.head, written) {
            Ok(q) => self.serve_queue(dram, base, q),
            Err(e) => RngStep::Failed(e),
        }
    }
}

impl Default for VirtioRng {
    fn default() -> (r: Self)
        ensures
            r@ == rng_reset(),
    {
        Self::new()
    }
}

/// Writing zero to the status register resets the device, whatever its state;
/// acknowledging an interrupt clears exactly the bits written.
pub proof fn law_rng_reset_and_ack(r: RngView, value: u32)
    ensures
        r.write32(VIRTIO_MMIO_STATUS, 0) == rng_reset(),
        r.write32(VIRTIO_MMIO_INTERRUPT_ACK, value).interrupt_status & value == 0,
        r.write32(VIRTIO_MMIO_INTERRUPT_ACK, value).interrupt_status & !value == r.interrupt_status
            & !value,
{
    let s = r.interrupt_status;
    assert((s & !value) & value == 0 && (s & !value) & !value == s & !value) by (bit_vector);
}

/// A buffer that waits for random bytes is one that the driver offered for
/// writing, and it asks for exactly its length.
pub proof fn law_rng_fills_writable_buffers(r: RngView, d: Seq<u8>, base: u64, bytes: Seq<u8>)
    ensures
        r.process(d, base).2 matches RngStepView::NeedBytes(n) ==> r.process(d, base).0.run matches Some(
            w,
        ) && w.desc.len == n && w.desc.flags & VIRTQ_DESC_F_WRITE != 0,
        r.resume(d, base, bytes).2 matches RngStepView::NeedBytes(n) ==> r.resume(
            d,
            base,
            bytes,
        ).0.run matches Some(w) && w.desc.len == n && w.desc.flags & VIRTQ_DESC_F_WRITE != 0,
{
    reveal(RngView::process);
    reveal(RngView::resume);
    match queue_at(d, base, r.queue_pfn, r.queue_num, 4096) {
        Ok(q) => lemma_rng_serve_writable(d, base, q),
        Err(e) => {},
    }
    if let Some(w) = r.run {
        if let (d2, Ok(())) = guest_write(d, w.desc.addr, base, bytes, 0) {
            lemma_walk_writable(d2, base, w.queue, w.desc.next, (w.seen + 1) as u32);
            if let (d3, Ok(q2)) = w.queue.complete(
                d2,
                base,
                w.head,
                w.written.wrapping_add(w.desc.len),
            ) {
                lemma_rng_serve_writable(d3, base, q2);
            }
        }
    }
}

/// Looking through a chain stops only at buffers to write to.
proof fn lemma_walk_writable(d: Seq<u8>, base: u64, q: QueueRun, idx: u16, seen: u32)
    ensures
        walk(d, base, q, idx, seen) matches Walk::Buffer(desc, n) ==> desc.flags
            & VIRTQ_DESC_F_WRITE != 0,
    decreases RNG_CHAIN_LEN - seen,
{
    if seen < RNG_CHAIN_LEN {
        match descriptor_at(d, q.desc_addr(idx), base) {
            Ok(desc) => lemma_walk_writable(d, base, q, desc.next, (seen + 1) as u32),
            Err(e) => {},
        }
    }
}

/// Serving a queue stops only at buffers to write to.
proof fn lemma_rng_serve_writable(d: Seq<u8>, base: u64, q: QueueRun)
    ensures
        rng_serve(d, base, q).1 matches RngServed::Wait(r) ==> r.desc.flags & VIRTQ_DESC_F_WRITE
            != 0,
    decreases q.left,
{
    if q.left > 0 {
        if let Ok(head) = q.head(d, base) {
            lemma_walk_writable(d, base, q, head, 0);
            if let (d2, Ok(q2)) = q.complete(d, base, head, 0) {
                lemma_rng_serve_writable(d2, base, q2);
            }
        }
    }
}

} // verus!
