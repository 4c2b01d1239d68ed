//! The 60 Hz cadence of the delay and sound timers.
//!
//! The timers count down once every sixtieth of a second of wall-clock time,
//! however many instructions run in that time. The interpreter reads no
//! clock, it is told how many microseconds have passed. A sixtieth of a
//! second is not a whole number of microseconds, so time is kept in
//! sixtieths of a microsecond: each microsecond adds 60 of them, and every
//! full million of them is one tick. What is left below a million is the
//! residue, carried over to the next advance, so that no time is lost
//! between two advances.
use vstd::prelude::*;

verus! {

/// Timer ticks in one second.
pub const TICKS_PER_SECOND: u64 = 60;

/// Microseconds in one second; also the number of sixtieths of a
/// microsecond in one tick.
pub const MICROS_PER_SECOND: u64 = 1_000_000;

/// The ticks that fall due when `elapsed_micros` microseconds are added to
/// a residue.
pub open spec fn ticks_due(residue: int, elapsed_micros: int) -> int {
    (residue + elapsed_micros * 60) / 1_000_000
}

/// The residue that is left when `elapsed_micros` microseconds are added to
/// a residue and the ticks due are taken out.
pub open spec fn residue_after(residue: int, elapsed_micros: int) -> int {
    (residue + elapsed_micros * 60) % 1_000_000
}

/// A timer after `ticks` ticks: it counts down by one per tick and stops
/// at zero.
pub open spec fn decayed(timer: u8, ticks: int) -> u8 {
    if ticks >= timer {
        0
    } else {
        (timer - ticks) as u8
    }
}

/// Adds elapsed time to a residue and returns the ticks that fell due
/// together with the new residue.
pub fn advance(residue: u32, elapsed_micros: u64) -> (r: (u64, u32))
    ensures
        r.0 == ticks_due(residue as int, elapsed_micros as int),
        r.1 == residue_after(residue as int, elapsed_micros as int),
        r.1 < MICROS_PER_SECOND,
        r.0 * MICROS_PER_SECOND + r.1 == residue + elapsed_micros * TICKS_PER_SECOND,
{
    let total: u128 = residue as u128 + (elapsed_micros as u128) * 60;
    let ticks: u128 = total / 1_000_000;
    let rest: u128 = total % 1_000_000;
    (ticks as u64, rest as u32)
}

/// Counts a timer down by `ticks`, stopping at zero.
pub fn decay(timer: u8, ticks: u64) -> (r: u8)
    ensures
        r == decayed(timer, ticks as int),
{
    if ticks >= timer as u64 {
        0
    } else {
        timer - (ticks as u8)
    }
}

/// Advancing by two spans of time one after the other is advancing by
/// their sum: the ticks add up, and the residue is the same.
pub proof fn lemma_advance_adds(residue: int, first: int, second: int)
    requires
        0 <= residue,
        0 <= first,
        0 <= second,
    ensures
        ticks_due(residue, first) + ticks_due(residue_after(residue, first), second) == ticks_due(
            residue,
            first + second,
        ),
        residue_after(residue_after(residue, first), second) == residue_after(
            residue,
            first + second,
        ),
{
    let a = residue + first * 60;
    let q = a / 1_000_000;
    let r = a % 1_000_000;
    let b = second * 60;
    assert(a == q * 1_000_000 + r);
    assert(residue + (first + second) * 60 == q * 1_000_000 + (r + b));
    vstd::arithmetic::div_mod::lemma_fundamental_div_mod_converse(
        q * 1_000_000 + (r + b),
        1_000_000,
        q + (r + b) / 1_000_000,
        (r + b) % 1_000_000,
    );
}

/// Counting down in two steps is counting down by their sum.
pub proof fn lemma_decay_adds(timer: u8, first: int, second: int)
    requires
        0 <= first,
        0 <= second,
    ensures
        decayed(decayed(timer, first), second) == decayed(timer, first + second),
{
}

} // verus!
