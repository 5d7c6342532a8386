//! Zeroing a cache block.

#[allow(unused_imports)]
use crate::bus::{in_dram, BusView, DRAM_BASE};
#[allow(unused_imports)]
use crate::bytes::{law_read_after_write, lemma_byte_ranges, write_at};
#[allow(unused_imports)]
use crate::cpu::decode::{funct3, rs1, rs2};
#[allow(unused_imports)]
use crate::cpu::dispatch::{lemma_dispatch_misc_mem, same};
#[allow(unused_imports)]
use crate::cpu::formats::{i_word, lemma_words, named, reg, wrap};
#[allow(unused_imports)]
use crate::cpu::memory_laws::untranslated;
#[allow(unused_imports)]
use crate::cpu::system::zero_block;
#[allow(unused_imports)]
use crate::cpu::CpuView;
#[allow(unused_imports)]
use crate::csr::{csr_read, MSTATUS, SATP};
#[allow(unused_imports)]
use crate::mmu::{law_identity, AccessType};
#[allow(unused_imports)]
use crate::queue_laws::{eight, law_little_endian};
use vstd::prelude::*;

verus! {

/// Zeros from doubleword `i` on.
#[verifier::rlimit(60)]
proof fn lemma_zeroed(b: BusView, pa: u64, i: nat)
    requires
        in_dram(b, pa, 64),
        i <= 8,
    ensures
        ({
            let z = zero_block(b, pa, i);
            let o = pa - 0x8000_0000;
            &&& z == BusView { dram: z.dram, ..b }
            &&& z.dram.len() == b.dram.len()
            &&& forall|j: int|
                0 <= j < b.dram.len() ==> #[trigger] z.dram[j] == (if o + 8 * i <= j < o + 64 {
                    0u8
                } else {
                    b.dram[j]
                })
        }),
    decreases 8 - i,
{
    if i < 8 {
        let a = pa.wrapping_add((8 * i) as u64);
        let o = pa - 0x8000_0000 + 8 * i;
        assert(a == pa + 8 * i);
        lemma_byte_ranges();
        law_read_after_write(b.dram, o, 8, 0);
        let d = write_at(b.dram, o, 8, 0);
        law_little_endian(d, o);
        assert(b.write64(a, 0).0 == (BusView { dram: d, ..b })) by {
            reveal(BusView::write64);
        }
        lemma_zeroed(BusView { dram: d, ..b }, pa, i + 1);
        assert forall|j: int| o <= j < o + 8 implies #[trigger] d[j] == 0 by {
            assert(eight(d, o) == 0);
            assert(j == o || j == o + 1 || j == o + 2 || j == o + 3 || j == o + 4 || j == o + 5 || j
                == o + 6 || j == o + 7);
        }
    }
}

/// CBO.ZERO, untranslated, writes zeros to the 64 bytes of the cache block around the
/// address in a register, and nothing else.
#[verifier::rlimit(60)]
pub proof fn law_zero_block(c: CpuView, a: u32, j: int)
    requires
        named(c, 0, a, 0),
        untranslated(c),
        in_dram(c.bus, (reg(c, a) - reg(c, a) % 64) as u64, 64),
        0 <= j < c.bus.dram.len(),
    ensures
        ({
            let o = reg(c, a) - reg(c, a) % 64 - 0x8000_0000;
            let (s, r) = c.exec(i_word(0x0F, 2, 0, a, 4));
            &&& r is Ok
            &&& s == CpuView {
                bus: BusView { dram: s.bus.dram, ..c.bus },
                pc: wrap(c.pc + 4),
                ..c
            }
            &&& s.bus.dram[j] == (if o <= j < o + 64 {
                0u8
            } else {
                c.bus.dram[j]
            })
        }),
{
    let i = i_word(0x0F, 2, 0, a, 4);
    let va = (reg(c, a) - reg(c, a) % 64) as u64;
    lemma_words(0x0F, 2, 0, a, 0, 4);
    lemma_dispatch_misc_mem(c, i);
    law_identity(
        c.bus,
        va,
        AccessType::Store,
        c.mode,
        csr_read(c.csr, SATP),
        csr_read(c.csr, MSTATUS),
    );
    lemma_zeroed(c.bus, va, 0);
}

} // verus!
