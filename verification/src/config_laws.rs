//! The configuration space and the feature registers of the VirtIO devices, and requests of
//! several buffers to the entropy device.

#[allow(unused_imports)]
use crate::bus::BusView;
#[allow(unused_imports)]
use crate::virtio::{with_features, BlkView};
#[allow(unused_imports)]
use crate::virtio_rng::{rng_go_on, rng_serve, walk, RngRun, RngServed, RngView};
#[allow(unused_imports)]
use crate::virtq::{descriptor_at, VirtqDesc};
use vstd::prelude::*;

verus! {

/// What a one-byte read gives.
pub open spec fn byte_read(b: BusView, addr: int) -> int {
    match b.read8(addr as u64).1 {
        Ok(v) => v as int,
        Err(_) => -1,
    }
}

/// What a four-byte read gives.
pub open spec fn word_read(b: BusView, addr: int) -> int {
    match b.read32(addr as u64).1 {
        Ok(v) => v as int,
        Err(_) => -1,
    }
}

/// The bytes of the configuration spaces, from 0x100 of each device on, spell the words
/// there, the low byte first; the registers before them have no bytes.
#[verifier::rlimit(60)]
pub proof fn law_configuration_bytes(b: BusView, k: int, o: int)
    requires
        b.blk is Some,
        0 <= k < 960,
        0 <= o < 0x100,
    ensures
        ({
            let x = 0x1000_2100 + 4 * k;
            let y = 0x1000_7100 + 4 * k;
            &&& word_read(b, x) == byte_read(b, x) + 0x100 * byte_read(b, x + 1) + 0x1_0000
                * byte_read(b, x + 2) + 0x100_0000 * byte_read(b, x + 3)
            &&& word_read(b, y) == byte_read(b, y) + 0x100 * byte_read(b, y + 1) + 0x1_0000
                * byte_read(b, y + 2) + 0x100_0000 * byte_read(b, y + 3)
            &&& byte_read(b, x) >= 0 && byte_read(b, y) >= 0
            &&& byte_read(b, 0x1000_2000 + o) == 0
            &&& byte_read(b, 0x1000_7000 + o) == 0
        }),
{
    reveal(BusView::read8);
    reveal(BusView::read32);
}

/// The capacity stands in the configuration space of the block device, low half first.
#[verifier::rlimit(60)]
pub proof fn law_capacity(b: BusView)
    requires
        b.blk is Some,
    ensures
        word_read(b, 0x1000_2100) + 0x1_0000_0000 * word_read(b, 0x1000_2104) == b.blk->0.capacity,
{
    reveal(BusView::read32);
}

/// The features that the driver accepts are written by halves, the selector (0x24) saying
/// which: zero the low one, anything else the high one; the other half stays.
#[verifier::rlimit(60)]
pub proof fn law_driver_features(b: BlkView, r: RngView, s: u32, v: u32)
    ensures
        ({
            let f = b.driver_features;
            let g = b.write32(0x24, s).write32(0x20, v);
            let h = r.driver_features;
            let k = r.write32(0x24, s).write32(0x20, v);
            &&& s == 0 ==> g.driver_features as int % 0x1_0000_0000 == v && g.driver_features as int
                / 0x1_0000_0000 == f as int / 0x1_0000_0000
            &&& s != 0 ==> g.driver_features as int / 0x1_0000_0000 == v && g.driver_features as int
                % 0x1_0000_0000 == f as int % 0x1_0000_0000
            &&& s == 0 ==> k.driver_features as int % 0x1_0000_0000 == v && k.driver_features as int
                / 0x1_0000_0000 == h as int / 0x1_0000_0000
            &&& s != 0 ==> k.driver_features as int / 0x1_0000_0000 == v && k.driver_features as int
                % 0x1_0000_0000 == h as int % 0x1_0000_0000
            &&& g.queue_num == b.queue_num && g.status == b.status
        }),
{
    lemma_halves(b.driver_features, v);
    lemma_halves(r.driver_features, v);
}

/// Replacing the halves of a number.
proof fn lemma_halves(f: u64, v: u32)
    ensures
        with_features(f, 0, v) % 0x1_0000_0000 == v,
        with_features(f, 0, v) / 0x1_0000_0000 == f / 0x1_0000_0000,
        forall|s: u32| s != 0 ==> #[trigger] with_features(f, s, v) / 0x1_0000_0000 == v,
        forall|s: u32| s != 0 ==> #[trigger] with_features(f, s, v) % 0x1_0000_0000 == f
            % 0x1_0000_0000,
{
    let a = (f & 0xFFFF_FFFF_0000_0000) | (v as u64);
    let b = (f & 0x0000_0000_FFFF_FFFF) | ((v as u64) << 32);
    assert(a % 0x1_0000_0000 == v && a / 0x1_0000_0000 == f / 0x1_0000_0000 && b / 0x1_0000_0000
        == v && b % 0x1_0000_0000 == f % 0x1_0000_0000) by (bit_vector)
        requires
            a == (f & 0xFFFF_FFFF_0000_0000) | (v as u64),
            b == (f & 0x0000_0000_FFFF_FFFF) | ((v as u64) << 32),
    ;
}

/// After a buffer is filled, the entropy device goes on to the descriptor that follows, if
/// the driver lets it write there, with the lengths added up; where none follows, the
/// request is done and the used ring tells that sum.
#[verifier::rlimit(60)]
pub proof fn law_entropy_next_buffer(d: Seq<u8>, base: u64, r: RngRun, x: VirtqDesc)
    requires
        r.seen < 63,
        descriptor_at(d, r.queue.desc_addr(r.desc.next), base) == Ok::<VirtqDesc, Seq<char>>(x),
        x.flags & 2 != 0,
        r.written + r.desc.len <= u32::MAX,
    ensures
        ({
            let n = (r.written + r.desc.len) as u32;
            let out = rng_go_on(d, base, r);
            let done = r.queue.complete(d, base, r.head, n);
            &&& r.desc.flags & 1 != 0 ==> out == (
                d,
                RngServed::Wait(RngRun { desc: x, seen: (r.seen + 1) as u32, written: n, ..r }),
            )
            &&& r.desc.flags & 1 == 0 && done.1 is Ok ==> out == rng_serve(
                done.0,
                base,
                done.1->Ok_0,
            )
        }),
{
    reveal_with_fuel(walk, 2);
}

/// Writing zero to the status register (0x70) of a device makes it one whose registers all
/// read zero but the alignment, which is a page; the capacity stays. The ready register
/// (0x44) of queue 0 reads as one after anything but zero was written there, and the
/// interrupt acknowledge register (0x64) clears the bits written.
pub proof fn law_device_resets(b: BlkView, r: RngView, v: u32)
    ensures
        ({
            let z = b.write32(0x70, 0);
            &&& z.read32(0x40) == 0 && z.read32(0x44) == 0 && z.read32(0x60) == 0
            &&& z.read32(0x70) == 0 && z.read32(0x3C) == 4096
            &&& z.queue_num == 0 && z.queue_sel == 0 && z.driver_features == 0
            &&& z.device_features_sel == 0 && z.driver_features_sel == 0
            &&& z.capacity == b.capacity && z.run is None
        }),
        ({
            let z = r.write32(0x70, 0);
            &&& z.read32(0x40) == 0 && z.read32(0x44) == 0 && z.read32(0x60) == 0
            &&& z.read32(0x70) == 0
            &&& z.queue_num == 0 && z.queue_sel == 0 && z.driver_features == 0
            &&& z.device_features_sel == 0 && z.driver_features_sel == 0
            &&& z.run is None
        }),
        b.queue_sel == 0 ==> b.write32(0x44, v).read32(0x44) == (if v == 0 {
            0u32
        } else {
            1
        }),
        r.queue_sel == 0 ==> r.write32(0x44, v).read32(0x44) == (if v == 0 {
            0u32
        } else {
            1
        }),
        b.write32(0x64, v) == (BlkView { interrupt_status: b.interrupt_status & !v, ..b }),
        r.write32(0x64, v) == (RngView { interrupt_status: r.interrupt_status & !v, ..r }),
        v != 0 ==> b.write32(0x70, v) == (BlkView { status: v, ..b }),
        v != 0 ==> r.write32(0x70, v) == (RngView { status: v, ..r }),
{
}

} // verus!
