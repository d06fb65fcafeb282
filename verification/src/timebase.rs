//! Stream timestamps and the positions they stand for.

use vstd::prelude::*;

verus! {

/// The length of one timestamp tick in seconds, as a fraction.
#[derive(Debug, Clone, Copy, PartialEq, Eq, Structural)]
pub struct TimeBase {
    pub numer: u32,
    pub denom: u32,
}

impl TimeBase {
    /// Neither part of the fraction is zero.
    pub open spec fn wf(self) -> bool {
        0 < self.numer && 0 < self.denom
    }
}

/// The whole seconds from the start of a stream to a timestamp. Seconds past 64 bits wrap.
pub open spec fn seconds_at(base: TimeBase, timestamp: u64) -> int {
    (timestamp * base.numer) / base.denom as int % 0x1_0000_0000_0000_0000
}

/// The position in milliseconds that a timestamp stands for: its whole seconds, capped to what 64
/// bits can hold.
pub open spec fn millis_at(base: TimeBase, timestamp: u64) -> int {
    if seconds_at(base, timestamp) * 1000 <= u64::MAX {
        seconds_at(base, timestamp) * 1000
    } else {
        u64::MAX as int
    }
}

/// `symphonia::core::units::TimeBase::calc_time`: the time at a timestamp, of which this keeps the
/// whole seconds: the timestamp times the numerator, divided by the denominator and rounded down,
/// wrapped to 64 bits. The call panics if either part of the fraction is zero.
#[verifier::external_body]
fn calc_time_seconds(base: TimeBase, timestamp: u64) -> (seconds: u64)
    requires
        base.wf(),
    ensures
        seconds == seconds_at(base, timestamp),
{
    let base = symphonia::core::units::TimeBase { numer: base.numer, denom: base.denom };
    base.calc_time(timestamp).seconds
}

/// The position in milliseconds that a timestamp stands for.
pub fn position_ms(base: TimeBase, timestamp: u64) -> (millis: u64)
    requires
        base.wf(),
    ensures
        millis == millis_at(base, timestamp),
{
    let seconds: u64 = calc_time_seconds(base, timestamp);
    if seconds <= u64::MAX / 1000 {
        seconds * 1000
    } else {
        u64::MAX
    }
}

/// Positions never run backwards: a later timestamp stands for the same or a later position, as
/// long as its seconds fit in 64 bits.
pub proof fn positions_are_monotone(base: TimeBase, earlier: u64, later: u64)
    requires
        base.wf(),
        earlier <= later,
        (later * base.numer) / base.denom as int <= u64::MAX,
    ensures
        millis_at(base, earlier) <= millis_at(base, later),
{
    let numer = base.numer as int;
    let denom = base.denom as int;
    assert(earlier * numer <= later * numer) by (nonlinear_arith)
        requires
            earlier <= later,
            0 < numer,
    ;
    assert(0 <= earlier * numer) by (nonlinear_arith)
        requires
            0 < numer,
    ;
    vstd::arithmetic::div_mod::lemma_div_is_ordered(earlier * numer, later * numer, denom);
    vstd::arithmetic::div_mod::lemma_div_pos_is_pos(earlier * numer, denom);
    vstd::arithmetic::div_mod::lemma_small_mod(
        ((earlier * numer) / denom) as nat,
        0x1_0000_0000_0000_0000,
    );
    vstd::arithmetic::div_mod::lemma_small_mod(
        ((later * numer) / denom) as nat,
        0x1_0000_0000_0000_0000,
    );
}

} // verus!
