//! The platform-level interrupt controller: 1023 sources, two contexts (machine
//! and supervisor mode of one hart).
//!
//! Source `n` is bit `n % 32` of word `n / 32` in the pending and enable words.

use vstd::prelude::*;

verus! {

/// How many sources there are, the reserved source 0 included.
pub const MAX_IRQS: usize = 1024;

/// How many contexts there are.
pub const MAX_CONTEXTS: usize = 2;

/// The interrupt controller.
pub struct Plic {
    priority: [u32; 1024],
    priority_threshold: [u32; 2],
    pending: [u32; 32],
    /// The enable words of context 0, then those of context 1.
    enable: [u32; 64],
}

/// The registers of the controller.
#[verifier::ext_equal]
pub struct PlicView {
    pub priority: Seq<u32>,
    pub threshold: Seq<u32>,
    pub pending: Seq<u32>,
    pub enable: Seq<u32>,
}

impl View for Plic {
    type V = PlicView;

    closed spec fn view(&self) -> PlicView {
        PlicView {
            priority: self.priority@,
            threshold: self.priority_threshold@,
            pending: self.pending@,
            enable: self.enable@,
        }
    }
}

/// Bit `i` of `w` is set.
pub open spec fn has_bit(w: u32, i: u32) -> bool {
    w & (1u32 << i) != 0
}

/// `w` with bit `i` set.
pub open spec fn bit_set(w: u32, i: u32) -> u32 {
    w | (1u32 << i)
}

/// `w` with bit `i` cleared.
pub open spec fn bit_cleared(w: u32, i: u32) -> u32 {
    w & !(1u32 << i)
}

impl PlicView {
    /// The register files have their fixed sizes.
    pub open spec fn wf(self) -> bool {
        self.priority.len() == 1024 && self.threshold.len() == 2 && self.pending.len() == 32
            && self.enable.len() == 64
    }

    /// Source `irq` is pending.
    pub open spec fn is_pending(self, irq: int) -> bool {
        has_bit(self.pending[irq / 32], (irq % 32) as u32)
    }

    /// Source `irq` is enabled for context `context`.
    pub open spec fn is_enabled(self, context: int, irq: int) -> bool {
        has_bit(self.enable[32 * context + irq / 32], (irq % 32) as u32)
    }

    /// Source `irq` is to be delivered to context `context`: it is pending,
    /// enabled, and its priority is above the context's threshold.
    pub open spec fn is_active(self, context: int, irq: int) -> bool {
        &&& 1 <= irq < MAX_IRQS
        &&& self.is_pending(irq)
        &&& self.is_enabled(context, irq)
        &&& self.priority[irq] > self.threshold[context]
    }

    /// Some source is to be delivered to context `context`.
    pub open spec fn has_pending(self, context: int) -> bool {
        0 <= context < MAX_CONTEXTS && exists|irq: int| self.is_active(context, irq)
    }

    /// Among the sources below `n`, the active one of the highest priority, the
    /// lowest-numbered one of these; 0 if there is none.
    pub open spec fn best_below(self, context: int, n: nat) -> int
        decreases n,
    {
        if n == 0 {
            0
        } else {
            let b = self.best_below(context, (n - 1) as nat);
            if self.is_active(context, n - 1) && (b == 0 || self.priority[n - 1]
                > self.priority[b]) {
                n - 1
            } else {
                b
            }
        }
    }

    /// The source that a claim by context `context` gets; 0 if there is none.
    pub open spec fn best(self, context: int) -> int {
        if 0 <= context < MAX_CONTEXTS {
            self.best_below(context, 1024)
        } else {
            0
        }
    }

    /// Source `irq` becomes pending.
    pub open spec fn set_pending(self, irq: int) -> PlicView {
        if 0 < irq < MAX_IRQS {
            PlicView {
                pending: self.pending.update(
                    irq / 32,
                    bit_set(self.pending[irq / 32], (irq % 32) as u32),
                ),
                ..self
            }
        } else {
            self
        }
    }

    /// Source `irq` stops being pending.
    pub open spec fn clear_pending(self, irq: int) -> PlicView {
        if 0 < irq < MAX_IRQS {
            PlicView {
                pending: self.pending.update(
                    irq / 32,
                    bit_cleared(self.pending[irq / 32], (irq % 32) as u32),
                ),
                ..self
            }
        } else {
            self
        }
    }

    /// Context `context` claims a source: the controller after it. The source
    /// claimed is `self.best(context)`.
    pub open spec fn claim(self, context: int) -> PlicView {
        self.clear_pending(self.best(context))
    }

    /// A register read: the controller after it and the value read.
    pub open spec fn read32(self, offset: u64) -> (PlicView, u32) {
        if offset < 0x1000 {
            (self, self.priority[offset as int / 4])
        } else if offset < 0x1080 {
            (self, self.pending[(offset - 0x1000) / 4])
        } else if 0x2000 <= offset < 0x2100 {
            (self, self.enable[(offset - 0x2000) / 4])
        } else if offset == 0x20_0000 {
            (self, self.threshold[0])
        } else if offset == 0x20_0004 {
            (self.claim(0), self.best(0) as u32)
        } else if offset == 0x20_1000 {
            (self, self.threshold[1])
        } else if offset == 0x20_1004 {
            (self.claim(1), self.best(1) as u32)
        } else {
            (self, 0)
        }
    }

    /// A register write. Priorities and thresholds keep three bits; ones written
    /// to the pending words clear; a completion has no effect of its own.
    pub open spec fn write32(self, offset: u64, value: u32) -> PlicView {
        if offset < 0x1000 {
            PlicView { priority: self.priority.update(offset as int / 4, value % 8), ..self }
        } else if offset < 0x1080 {
            let i = (offset - 0x1000) / 4;
            PlicView { pending: self.pending.update(i, self.pending[i] & !value), ..self }
        } else if 0x2000 <= offset < 0x2100 {
            PlicView { enable: self.enable.update((offset - 0x2000) / 4, value), ..self }
        } else if offset == 0x20_0000 {
            PlicView { threshold: self.threshold.update(0, value % 8), ..self }
        } else if offset == 0x20_1000 {
            PlicView { threshold: self.threshold.update(1, value % 8), ..self }
        } else {
            self
        }
    }
}

/// A controller with every register zero.
pub open spec fn plic_reset() -> PlicView {
    PlicView {
        priority: Seq::new(1024, |i: int| 0u32),
        threshold: Seq::new(2, |i: int| 0u32),
        pending: Seq::new(32, |i: int| 0u32),
        enable: Seq::new(64, |i: int| 0u32),
    }
}

/// A bit is set in the conjunction of two words iff it is set in both.
proof fn lemma_bit_of_and(v: u32, w: u32, i: u32)
    requires
        i < 32,
    ensures
        has_bit(v & w, i) == (has_bit(v, i) && has_bit(w, i)),
        (v & w) == 0 ==> !has_bit(v & w, i),
{
    assert((((v & w) & (1u32 << i)) != 0) == ((v & (1u32 << i)) != 0 && (w & (1u32 << i)) != 0)
        && ((v & w) == 0 ==> (v & w) & (1u32 << i) == 0)) by (bit_vector)
        requires
            i < 32,
    ;
}

/// Setting or clearing one bit leaves the others alone.
proof fn lemma_one_bit(w: u32, i: u32, j: u32)
    requires
        i < 32,
        j < 32,
    ensures
        has_bit(bit_set(w, i), j) == (i == j || has_bit(w, j)),
        has_bit(bit_cleared(w, i), j) == (i != j && has_bit(w, j)),
{
    assert(((w | (1u32 << i)) & (1u32 << j) != 0) == (i == j || w & (1u32 << j) != 0)
        && ((w & !(1u32 << i)) & (1u32 << j) != 0) == (i != j && w & (1u32 << j) != 0))
        by (bit_vector)
        requires
            i < 32,
            j < 32,
    ;
}

/// If no source from `m` to `n - 1` is active, the best below `n` is the best
/// below `m`.
proof fn lemma_best_skip(p: PlicView, context: int, m: nat, n: nat)
    requires
        m <= n,
        forall|irq: int| m <= irq < n ==> !p.is_active(context, irq),
    ensures
        p.best_below(context, n) == p.best_below(context, m),
    decreases n,
{
    if m < n {
        lemma_best_skip(p, context, m, (n - 1) as nat);
        assert(!p.is_active(context, n - 1));
    }
}

/// What `best_below` finds.
proof fn lemma_best_below(p: PlicView, context: int, n: nat)
    ensures
        0 <= p.best_below(context, n),
        n > 0 ==> p.best_below(context, n) < n,
        p.best_below(context, n) == 0 ==> forall|irq: int|
            0 <= irq < n ==> !p.is_active(context, irq),
        p.best_below(context, n) != 0 ==> p.is_active(context, p.best_below(context, n)),
        forall|irq: int|
            0 <= irq < n && p.is_active(context, irq) ==> p.priority[irq] <= p.priority[p.best_below(
                context,
                n,
            )],
        forall|irq: int|
            0 <= irq < n && p.is_active(context, irq) && p.priority[irq]
                == p.priority[p.best_below(context, n)] ==> p.best_below(context, n) <= irq,
    decreases n,
{
    if n > 0 {
        lemma_best_below(p, context, (n - 1) as nat);
        let b = p.best_below(context, n);
        assert forall|irq: int| 0 <= irq < n && p.is_active(context, irq) implies p.priority[irq]
            <= p.priority[b] by {
            if irq < n - 1 {
                assert(p.best_below(context, (n - 1) as nat) != 0);
            }
        }
        assert forall|irq: int|
            0 <= irq < n && p.is_active(context, irq) && p.priority[irq]
                == p.priority[b] implies b <= irq by {
            if irq < n - 1 {
                assert(p.best_below(context, (n - 1) as nat) != 0);
            }
        }
    }
}

/// A claim gets the active source of the highest priority, on a tie the
/// lowest-numbered one; it gets 0 exactly when nothing is to be delivered.
pub proof fn law_claim_is_best(p: PlicView, context: int)
    requires
        p.wf(),
        0 <= context < MAX_CONTEXTS,
    ensures
        0 <= p.best(context) < MAX_IRQS,
        p.best(context) != 0 <==> p.has_pending(context),
        p.best(context) != 0 ==> p.is_active(context, p.best(context)),
        forall|irq: int|
            p.is_active(context, irq) ==> p.priority[irq] <= p.priority[p.best(context)],
        forall|irq: int|
            p.is_active(context, irq) && p.priority[irq] == p.priority[p.best(context)]
                ==> p.best(context) <= irq,
{
    lemma_best_below(p, context, 1024);
}

/// Making one source pending makes that source pending and changes no other
/// source, and likewise for the reverse.
pub proof fn law_pending_of_one(p: PlicView, irq: int, other: int)
    requires
        p.wf(),
        0 < irq < MAX_IRQS,
        0 <= other < MAX_IRQS,
    ensures
        p.set_pending(irq).is_pending(other) == (other == irq || p.is_pending(other)),
        p.clear_pending(irq).is_pending(other) == (other != irq && p.is_pending(other)),
{
    if irq / 32 == other / 32 {
        lemma_one_bit(p.pending[irq / 32], (irq % 32) as u32, (other % 32) as u32);
    }
}

/// Clearing a source undoes making it pending, if it was not pending before.
pub proof fn law_clear_undoes_set(p: PlicView, irq: int)
    requires
        p.wf(),
        0 < irq < MAX_IRQS,
        !p.is_pending(irq),
    ensures
        p.set_pending(irq).clear_pending(irq) == p,
{
    let w = p.pending[irq / 32];
    let i = (irq % 32) as u32;
    assert(w & (1u32 << i) == 0 ==> (w | (1u32 << i)) & !(1u32 << i) == w) by (bit_vector);
    assert(p.set_pending(irq).clear_pending(irq) =~= p);
}

/// A claimed source is no longer pending, so that the same context does not get
/// it twice; the other sources stay as they were.
pub proof fn law_claim_takes_the_source(p: PlicView, context: int, irq: int)
    requires
        p.wf(),
        0 <= context < MAX_CONTEXTS,
        0 <= irq < MAX_IRQS,
    ensures
        p.best(context) != 0 ==> p.claim(context).best(context) != p.best(context),
        p.claim(context).is_pending(irq) == (p.is_pending(irq) && (irq == 0 || irq != p.best(
            context,
        ))),
{
    law_claim_is_best(p, context);
    law_claim_is_best(p.claim(context), context);
    if p.best(context) != 0 {
        law_pending_of_one(p, p.best(context), p.best(context));
        law_pending_of_one(p, p.best(context), irq);
    }
}

/// Completing an interrupt changes nothing.
pub proof fn law_completion_has_no_effect(p: PlicView, value: u32)
    ensures
        p.write32(0x20_0004, value) == p,
        p.write32(0x20_1004, value) == p,
{
}

/// Every operation keeps the sizes of the register files.
pub proof fn law_plic_stays_well_formed(p: PlicView, irq: int, offset: u64, value: u32)
    requires
        p.wf(),
    ensures
        p.set_pending(irq).wf(),
        p.clear_pending(irq).wf(),
        p.read32(offset).0.wf(),
        p.write32(offset, value).wf(),
{
}

impl Plic {
    /// A controller with every register zero.
    pub fn new() -> (p: Self)
        ensures
            p@ == plic_reset(),
            p@.wf(),
    {
        let p = Self {
            priority: [0u32; 1024],
            priority_threshold: [0u32; 2],
            pending: [0u32; 32],
            enable: [0u32; 64],
        };
        assert(p@ =~= plic_reset());
        p
    }

    /// The words of context `context` that hold sources both pending and
    /// enabled.
    fn active_word(&self, context: usize, idx: usize) -> (w: u32)
        requires
            context < MAX_CONTEXTS,
            idx < 32,
        ensures
            forall|i: int|
                0 <= i < 32 ==> (#[trigger] has_bit(w, i as u32) == (self@.is_pending(32 * idx + i)
                    && self@.is_enabled(context as int, 32 * idx + i))),
            w == 0 ==> forall|i: int|
                32 * idx <= i < 32 * idx + 32 ==> !self@.is_active(context as int, i),
    {
        let v: u32 = self.pending[idx];
        let e: u32 = self.enable[32 * context + idx];
        proof {
            assert forall|i: int| 0 <= i < 32 implies (#[trigger] has_bit(v & e, i as u32) == (
            self@.is_pending(32 * idx + i) && self@.is_enabled(context as int, 32 * idx + i))) by {
                lemma_bit_of_and(v, e, i as u32);
                assert((32 * idx + i) / 32 == idx);
                assert((32 * idx + i) % 32 == i);
            }
            if v & e == 0 {
                assert forall|i: int| 32 * idx <= i < 32 * idx + 32 implies !self@.is_active(
                    context as int,
                    i,
                ) by {
                    lemma_bit_of_and(v, e, (i - 32 * idx) as u32);
                    assert(i / 32 == idx);
                    assert(i % 32 == i - 32 * idx);
                }
            }
        }
        v & e
    }

    /// Whether some source is to be delivered to context `context_id`.
    pub fn has_pending_interrupt(&self, context_id: usize) -> (b: bool)
        ensures
            b == self@.has_pending(context_id as int),
    {
        if context_id >= MAX_CONTEXTS {
            return false;
        }
        let threshold: u32 = self.priority_threshold[context_id];
        let ghost p = self@;
        let mut idx: usize = 0;
        while idx < 32
            invariant
                idx <= 32,
                context_id < MAX_CONTEXTS,
                p == self@,
                threshold == p.threshold[context_id as int],
                forall|irq: int| 0 <= irq < 32 * idx ==> !p.is_active(context_id as int, irq),
            decreases 32 - idx,
        {
            let active: u32 = self.active_word(context_id, idx);
            if active != 0 {
                let mut bit: u32 = 0;
                while bit < 32
                    invariant
                        idx < 32,
                        bit <= 32,
                        context_id < MAX_CONTEXTS,
                        p == self@,
                        threshold == p.threshold[context_id as int],
                        forall|i: int|
                            0 <= i < 32 ==> (#[trigger] has_bit(active, i as u32) == (p.is_pending(
                                32 * idx + i,
                            ) && p.is_enabled(context_id as int, 32 * idx + i))),
                        forall|irq: int|
                            0 <= irq < 32 * idx + bit ==> !p.is_active(context_id as int, irq),
                    decreases 32 - bit,
                {
                    let irq: usize = 32 * idx + bit as usize;
                    assert(has_bit(active, (bit as int) as u32) == (p.is_pending(irq as int)
                        && p.is_enabled(context_id as int, irq as int)));
                    if active & (1u32 << bit) != 0 && irq != 0 && self.priority[irq] > threshold {
                        assert(p.is_active(context_id as int, irq as int));
                        return true;
                    }
                    assert(!p.is_active(context_id as int, irq as int));
                    bit = bit + 1;
                }
            }
            idx = idx + 1;
        }
        false
    }

    /// Claims the source to be delivered to context `context_id` first: returns
    /// it (0 if there is none) and clears its pending bit.
    pub fn claim_interrupt(&mut self, context_id: usize) -> (irq: u32)
        ensures
            irq == old(self)@.best(context_id as int),
            final(self)@ == old(self)@.claim(context_id as int),
    {
        if context_id >= MAX_CONTEXTS {
            return 0;
        }
        let threshold: u32 = self.priority_threshold[context_id];
        let ghost p = self@;
        let mut best_irq: u32 = 0;
        let mut best_priority: u32 = 0;
        let mut idx: usize = 0;
        while idx < 32
            invariant
                idx <= 32,
                context_id < MAX_CONTEXTS,
                p == self@,
                p == old(self)@,
                threshold == p.threshold[context_id as int],
                best_irq < MAX_IRQS,
                best_irq == p.best_below(context_id as int, (32 * idx) as nat),
                best_priority == if best_irq == 0 {
                    0
                } else {
                    p.priority[best_irq as int]
                },
            decreases 32 - idx,
        {
            let active: u32 = self.active_word(context_id, idx);
            if active != 0 {
                let mut bit: u32 = 0;
                while bit < 32
                    invariant
                        idx < 32,
                        bit <= 32,
                        context_id < MAX_CONTEXTS,
                        p == self@,
                        p == old(self)@,
                        threshold == p.threshold[context_id as int],
                        forall|i: int|
                            0 <= i < 32 ==> (#[trigger] has_bit(active, i as u32) == (p.is_pending(
                                32 * idx + i,
                            ) && p.is_enabled(context_id as int, 32 * idx + i))),
                        best_irq < MAX_IRQS,
                        best_irq == p.best_below(context_id as int, (32 * idx + bit) as nat),
                        best_priority == if best_irq == 0 {
                            0
                        } else {
                            p.priority[best_irq as int]
                        },
                    decreases 32 - bit,
                {
                    let irq: usize = 32 * idx + bit as usize;
                    assert(has_bit(active, (bit as int) as u32) == (p.is_pending(irq as int)
                        && p.is_enabled(context_id as int, irq as int)));
                    if active & (1u32 << bit) != 0 && irq != 0 {
                        let prio: u32 = self.priority[irq];
                        if prio > threshold && prio > best_priority {
                            best_irq = irq as u32;
                            best_priority = prio;
                        }
                    }
                    bit = bit + 1;
                }
            } else {
                proof {
                    lemma_best_skip(
                        p,
                        context_id as int,
                        (32 * idx) as nat,
                        (32 * idx + 32) as nat,
                    );
                }
            }
            idx = idx + 1;
        }
        self.clear_pending(best_irq);
        best_irq
    }

    /// Completes an interrupt. Sources are level-triggered and made pending again
    /// by whoever owns them, so nothing is left to do.
    pub fn complete_interrupt(&mut self, _context_id: usize, _irq: u32)
        ensures
            final(self)@ == old(self)@,
    {
    }

    /// Makes source `irq` pending; the reserved source 0 and numbers past the
    /// last source are ignored.
    pub fn set_pending(&mut self, irq: u32)
        ensures
            final(self)@ == old(self)@.set_pending(irq as int),
    {
        if irq > 0 && irq <= 1023 {
            let idx: usize = (irq / 32) as usize;
            let bit: u32 = irq % 32;
            self.pending[idx] = self.pending[idx] | (1u32 << bit);
        }
    }

    /// Makes source `irq` no longer pending; the reserved source 0 and numbers
    /// past the last source are ignored.
    pub fn clear_pending(&mut self, irq: u32)
        ensures
            final(self)@ == old(self)@.clear_pending(irq as int),
    {
        if irq > 0 && irq <= 1023 {
            let idx: usize = (irq / 32) as usize;
            let bit: u32 = irq % 32;
            self.pending[idx] = self.pending[idx] & !(1u32 << bit);
        }
    }

    /// Reads a register. Reading a claim register claims an interrupt.
    pub fn read32(&mut self, offset: u64) -> (r: Result<u32, &'static str>)
        ensures
            r == Ok::<u32, &'static str>(old(self)@.read32(offset).1),
            final(self)@ == old(self)@.read32(offset).0,
    {
        if offset < 0x1000 {
            Ok(self.priority[(offset / 4) as usize])
        } else if offset < 0x1080 {
            Ok(self.pending[((offset - 0x1000) / 4) as usize])
        } else if 0x2000 <= offset && offset < 0x2100 {
            Ok(self.enable[((offset - 0x2000) / 4) as usize])
        } else if offset == 0x20_0000 {
            Ok(self.priority_threshold[0])
        } else if offset == 0x20_0004 {
            Ok(self.claim_interrupt(0))
        } else if offset == 0x20_1000 {
            Ok(self.priority_threshold[1])
        } else if offset == 0x20_1004 {
            Ok(self.claim_interrupt(1))
        } else {
            Ok(0)
        }
    }

    /// Writes a register.
    pub fn write32(&mut self, offset: u64, value: u32) -> (r: Result<(), &'static str>)
        ensures
            r is Ok,
            final(self)@ == old(self)@.write32(offset, value),
    {
        if offset < 0x1000 {
            self.priority[(offset / 4) as usize] = value % 8;
        } else if offset < 0x1080 {
            let i: usize = ((offset - 0x1000) / 4) as usize;
            self.pending[i] = self.pending[i] & !value;
        } else if 0x2000 <= offset && offset < 0x2100 {
            self.enable[((offset - 0x2000) / 4) as usize] = value;
        } else if offset == 0x20_0000 {
            self.priority_threshold[0] = value % 8;
        } else if offset == 0x20_0004 {
            self.complete_interrupt(0, value);
        } else if offset == 0x20_1000 {
            self.priority_threshold[1] = value % 8;
        } else if offset == 0x20_1004 {
            self.complete_interrupt(1, value);
        }
        Ok(())
    }
}

impl Default for Plic {
    fn default() -> (p: Self)
        ensures
            p@ == plic_reset(),
    {
        Self::new()
    }
}

/// The register files of every controller have their fixed sizes.
pub proof fn law_every_plic_is_well_formed(p: &Plic)
    ensures
        p@.wf(),
{
}

} // verus!
