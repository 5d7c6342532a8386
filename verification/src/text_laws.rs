//! Numbers and phrases in text, the names of the registers, and the numbers of the traps.

#[allow(unused_imports)]
use crate::cpu::abi_name;
#[allow(unused_imports)]
use crate::text::{ascii, decimal_text, digit_char, occurs, occurs_at};
#[allow(unused_imports)]
use crate::trap::{cause, Exception, Interrupt, Trap};
#[allow(unused_imports)]
use crate::uart::{recent_after, tells_of_panic, UartView};
use vstd::prelude::*;

verus! {

/// The number that a row of digits spells.
pub open spec fn spelled(s: Seq<char>) -> int
    decreases s.len(),
{
    if s.len() == 0 {
        0
    } else {
        10 * spelled(s.drop_last()) + (s.last() as int - 48)
    }
}

/// The decimal text of a number spells it, in digits alone and without a zero in front.
pub proof fn law_decimal(n: nat, i: int)
    ensures
        spelled(decimal_text(n)) == n,
        decimal_text(n).len() > 0,
        0 <= i < decimal_text(n).len() ==> 48 <= decimal_text(n)[i] as int <= 57,
        n > 0 ==> decimal_text(n)[0] != '0',
    decreases n,
{
    reveal_with_fuel(spelled, 2);
    let t = decimal_text(n);
    if n < 10 {
        assert(t.drop_last() =~= Seq::<char>::empty());
    } else {
        law_decimal(n / 10, i);
        law_decimal(n / 10, 0);
        assert(t.drop_last() =~= decimal_text(n / 10));
    }
}

/// A letter and a number.
pub open spec fn numbered(letter: char, n: int) -> Seq<char> {
    seq![letter] + decimal_text(n as nat)
}

/// Numbers of one and of two digits.
proof fn lemma_small_numbers()
    ensures
        forall|n: nat| n < 10 ==> #[trigger] decimal_text(n) == seq![digit_char(n)],
        decimal_text(10) == seq!['1', '0'],
        decimal_text(11) == seq!['1', '1'],
{
    reveal_with_fuel(decimal_text, 3);
    assert(decimal_text(10) =~= seq!['1', '0']);
    assert(decimal_text(11) =~= seq!['1', '1']);
}

/// The argument registers are x10 to x17; the saved ones x8, x9 and x18 to x27; the
/// temporary ones x5 to x7 and x28 to x31. Each kind is numbered from zero on.
#[verifier::rlimit(60)]
pub proof fn law_register_names(i: int)
    ensures
        10 <= i <= 17 ==> abi_name(i) == numbered('a', i - 10),
        8 <= i <= 9 ==> abi_name(i) == numbered('s', i - 8),
        18 <= i <= 27 ==> abi_name(i) == numbered('s', i - 16),
        5 <= i <= 7 ==> abi_name(i) == numbered('t', i - 5),
        28 <= i <= 31 ==> abi_name(i) == numbered('t', i - 25),
        abi_name(0) == seq!['z', 'e', 'r', 'o'],
        abi_name(1) == seq!['r', 'a'],
        abi_name(2) == seq!['s', 'p'],
        abi_name(3) == seq!['g', 'p'],
        abi_name(4) == seq!['t', 'p'],
        i > 31 ==> abi_name(i) == seq!['?', '?'],
{
    lemma_small_numbers();
    reveal_strlit("zero");
    reveal_strlit("ra");
    reveal_strlit("sp");
    reveal_strlit("gp");
    reveal_strlit("tp");
    reveal_strlit("t0");
    reveal_strlit("t1");
    reveal_strlit("t2");
    reveal_strlit("t3");
    reveal_strlit("t4");
    reveal_strlit("t5");
    reveal_strlit("t6");
    reveal_strlit("s0");
    reveal_strlit("s1");
    reveal_strlit("s2");
    reveal_strlit("s3");
    reveal_strlit("s4");
    reveal_strlit("s5");
    reveal_strlit("s6");
    reveal_strlit("s7");
    reveal_strlit("s8");
    reveal_strlit("s9");
    reveal_strlit("s10");
    reveal_strlit("s11");
    reveal_strlit("a0");
    reveal_strlit("a1");
    reveal_strlit("a2");
    reveal_strlit("a3");
    reveal_strlit("a4");
    reveal_strlit("a5");
    reveal_strlit("a6");
    reveal_strlit("a7");
    reveal_strlit("??");
}

/// "Kernel panic" or "kernel panic", by its first letter.
pub open spec fn panic_phrase(first: u8) -> Seq<u8> {
    seq![first, 0x65, 0x72, 0x6E, 0x65, 0x6C, 0x20, 0x70, 0x61, 0x6E, 0x69, 0x63]
}

/// "not syncing".
pub open spec fn syncing_phrase() -> Seq<u8> {
    seq![0x6E, 0x6F, 0x74, 0x20, 0x73, 0x79, 0x6E, 0x63, 0x69, 0x6E, 0x67]
}

/// A phrase between two texts occurs in the whole.
proof fn lemma_between(a: Seq<u8>, p: Seq<u8>, b: Seq<u8>)
    ensures
        occurs(a + p + b, p),
{
    assert((a + p + b).subrange(a.len() as int, (a.len() + p.len()) as int) =~= p);
    assert(occurs_at(a + p + b, p, a.len() as int));
}

/// A text tells of a panic if it holds one of the three phrases anywhere, and does not if
/// it has no letter n, which each of them has.
#[verifier::rlimit(60)]
pub proof fn law_panic_phrases(a: Seq<u8>, b: Seq<u8>)
    ensures
        tells_of_panic(a + panic_phrase(0x4B) + b),
        tells_of_panic(a + panic_phrase(0x6B) + b),
        tells_of_panic(a + syncing_phrase() + b),
        (forall|i: int| 0 <= i < a.len() ==> a[i] != 0x6E) ==> !tells_of_panic(a),
{
    reveal_strlit("Kernel panic");
    reveal_strlit("kernel panic");
    reveal_strlit("not syncing");
    let (p, q, r) = (ascii("Kernel panic"@), ascii("kernel panic"@), ascii("not syncing"@));
    assert(p =~= panic_phrase(0x4B));
    assert(q =~= panic_phrase(0x6B));
    assert(r =~= syncing_phrase());
    lemma_between(a, p, b);
    lemma_between(a, q, b);
    lemma_between(a, r, b);
    if forall|i: int| 0 <= i < a.len() ==> a[i] != 0x6E {
        assert forall|i: int| !occurs_at(a, p, i) && !occurs_at(a, q, i) && !occurs_at(a, r, i) by {
            if occurs_at(a, p, i) {
                assert(a.subrange(i, i + p.len())[3] == 0x6E);
            }
            if occurs_at(a, q, i) {
                assert(a.subrange(i, i + q.len())[3] == 0x6E);
            }
            if occurs_at(a, r, i) {
                assert(a.subrange(i, i + r.len())[0] == 0x6E);
            }
        }
    }
}

/// The recent text is the end of what was sent: it ends with the new byte, keeps its order,
/// and loses its first 1024 bytes only where it would have grown beyond 2048.
pub proof fn law_recent_text(t: Seq<u8>, v: u8, i: int)
    requires
        t.len() <= 2048,
    ensures
        ({
            let r = recent_after(t, v);
            let lost: int = if t.len() == 2048 {
                1024
            } else {
                0
            };
            &&& r.len() == t.len() + 1 - lost
            &&& r.len() <= 2048
            &&& r.last() == v
            &&& lost <= i < t.len() ==> r[i - lost] == t[i]
        }),
{
}

/// A byte that is no character of a text is sent, but the recent text does not hold it.
/// Once a panic has been seen, it stays so, and one that the recent text tells of is seen.
pub proof fn law_panic_is_seen(u: UartView, v: u8)
    ensures
        u.send(v).sent == u.sent.push(v),
        v == 0 || v > 127 ==> u.send(v).recent == u.recent,
        0 < v <= 127 && u.recent.len() < 2048 ==> u.send(v).recent == u.recent.push(v),
        u.panic_detected ==> u.send(v).panic_detected,
        0 < v <= 127 && tells_of_panic(u.send(v).recent) ==> u.send(v).panic_detected,
        !u.panic_detected && !tells_of_panic(u.send(v).recent) ==> !u.send(v).panic_detected,
{
}

/// The number of an interrupt: four for its kind (software, timer, external), and the
/// privilege that it is for (user, supervisor, machine).
pub proof fn law_interrupt_numbers()
    ensures
        ({
            let flag = 0x8000_0000_0000_0000int;
            &&& cause(Trap::Interrupt(Interrupt::UserSoftwareInterrupt)) == flag + 4 * 0 + 0
            &&& cause(Trap::Interrupt(Interrupt::SupervisorSoftwareInterrupt)) == flag + 4 * 0 + 1
            &&& cause(Trap::Interrupt(Interrupt::MachineSoftwareInterrupt)) == flag + 4 * 0 + 3
            &&& cause(Trap::Interrupt(Interrupt::UserTimerInterrupt)) == flag + 4 * 1 + 0
            &&& cause(Trap::Interrupt(Interrupt::SupervisorTimerInterrupt)) == flag + 4 * 1 + 1
            &&& cause(Trap::Interrupt(Interrupt::MachineTimerInterrupt)) == flag + 4 * 1 + 3
            &&& cause(Trap::Interrupt(Interrupt::UserExternalInterrupt)) == flag + 4 * 2 + 0
            &&& cause(Trap::Interrupt(Interrupt::SupervisorExternalInterrupt)) == flag + 4 * 2 + 1
            &&& cause(Trap::Interrupt(Interrupt::MachineExternalInterrupt)) == flag + 4 * 2 + 3
        }),
{
}

/// The number of an exception: misaligned addresses and failed accesses are paired for
/// fetch, load and store, environment calls are numbered by the mode, and page faults come
/// last.
pub proof fn law_exception_numbers()
    ensures
        cause(Trap::Exception(Exception::InstructionAddressMisaligned)) == 0,
        cause(Trap::Exception(Exception::InstructionAccessFault)) == 1,
        cause(Trap::Exception(Exception::IllegalInstruction)) == 2,
        cause(Trap::Exception(Exception::Breakpoint)) == 3,
        cause(Trap::Exception(Exception::LoadAddressMisaligned)) == 4,
        cause(Trap::Exception(Exception::LoadAccessFault)) == 4 + 1,
        cause(Trap::Exception(Exception::StoreAMOAddressMisaligned)) == 6,
        cause(Trap::Exception(Exception::StoreAMOAccessFault)) == 6 + 1,
        cause(Trap::Exception(Exception::EnvironmentCallFromUMode)) == 8 + 0,
        cause(Trap::Exception(Exception::EnvironmentCallFromSMode)) == 8 + 1,
        cause(Trap::Exception(Exception::EnvironmentCallFromMMode)) == 8 + 3,
        cause(Trap::Exception(Exception::InstructionPageFault)) == 12,
        cause(Trap::Exception(Exception::LoadPageFault)) == 13,
        cause(Trap::Exception(Exception::StoreAMOPageFault)) == 15,
{
}

} // verus!
