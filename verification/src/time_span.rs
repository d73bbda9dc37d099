//! A span of time with nanosecond precision, held as plain integers.
use vstd::prelude::*;

verus! {

/// Nanoseconds in one second.
pub const NANOS_PER_SEC: u128 = 1_000_000_000u128;

/// The largest span: `u64::MAX` seconds and 999_999_999 nanoseconds.
pub const MAX_NANOS: u128 = 18_446_744_073_709_551_615_999_999_999u128;

/// A non-negative span of time, counted in nanoseconds.
///
/// It holds exactly the values of a `std::time::Duration`: whole seconds fit in a
/// `u64` and the sub-second part is below one second.
#[derive(Debug)]
pub struct TimeSpan {
    nanos: u128,
}

impl View for TimeSpan {
    type V = nat;

    /// The span in nanoseconds.
    closed spec fn view(&self) -> nat {
        self.nanos as nat
    }
}

/// The whole seconds of a span and the nanoseconds beyond them add back up to the
/// span, and those nanoseconds stay under one second, so that `TimeSpan::new`
/// accepts the two parts.
pub proof fn lemma_parts_round_trip(v: nat)
    ensures
        (v / 1_000_000_000) * 1_000_000_000 + v % 1_000_000_000 == v,
        (v % 1_000_000_000) / 1_000_000_000 == 0,
{
    assert((v / 1_000_000_000) * 1_000_000_000 + v % 1_000_000_000 == v) by (nonlinear_arith);
    assert((v % 1_000_000_000) / 1_000_000_000 == 0) by (nonlinear_arith);
}

impl TimeSpan {
    #[verifier::type_invariant]
    spec fn fits(self) -> bool {
        self.nanos <= MAX_NANOS
    }

    /// The empty span.
    pub fn zero() -> (r: TimeSpan)
        ensures
            r@ == 0,
    {
        TimeSpan { nanos: 0 }
    }

    /// A span of whole seconds.
    pub fn from_secs(secs: u64) -> (r: TimeSpan)
        ensures
            r@ == secs * 1_000_000_000,
    {
        let n: u128 = (secs as u128) * NANOS_PER_SEC;
        TimeSpan { nanos: n }
    }

    /// A span of whole milliseconds.
    pub fn from_millis(millis: u64) -> (r: TimeSpan)
        ensures
            r@ == millis * 1_000_000,
    {
        let n: u128 = (millis as u128) * 1_000_000u128;
        TimeSpan { nanos: n }
    }

    /// A span of `secs` seconds and `nanos` nanoseconds; nanoseconds of one second
    /// or more carry into the seconds.
    pub fn new(secs: u64, nanos: u32) -> (r: TimeSpan)
        requires
            secs + nanos / 1_000_000_000 <= u64::MAX,
        ensures
            r@ == secs * 1_000_000_000 + nanos,
    {
        assert(secs * 1_000_000_000 + nanos <= MAX_NANOS) by (nonlinear_arith)
            requires
                secs + nanos / 1_000_000_000 <= u64::MAX,
                nanos <= u32::MAX,
        ;
        let n: u128 = (secs as u128) * NANOS_PER_SEC + (nanos as u128);
        TimeSpan { nanos: n }
    }

    /// Whole seconds in the span.
    pub fn as_secs(&self) -> (r: u64)
        ensures
            r == self@ / 1_000_000_000,
    {
        proof {
            use_type_invariant(self);
        }
        (self.nanos / NANOS_PER_SEC) as u64
    }

    /// Nanoseconds beyond the whole seconds.
    pub fn subsec_nanos(&self) -> (r: u32)
        ensures
            r == self@ % 1_000_000_000,
    {
        (self.nanos % NANOS_PER_SEC) as u32
    }

    /// `self - other`, or the empty span where `other` is the longer one.
    pub fn saturating_sub(&self, other: &TimeSpan) -> (r: TimeSpan)
        ensures
            r@ == (if self@ >= other@ { self@ - other@ } else { 0 }),
    {
        proof {
            use_type_invariant(self);
        }
        if self.nanos >= other.nanos {
            TimeSpan { nanos: self.nanos - other.nanos }
        } else {
            TimeSpan { nanos: 0 }
        }
    }

    /// Whether the span is empty.
    pub fn is_zero(&self) -> (r: bool)
        ensures
            r == (self@ == 0),
    {
        self.nanos == 0
    }

    /// Whether two spans are equally long.
    pub fn same_as(&self, other: &TimeSpan) -> (r: bool)
        ensures
            r == (self@ == other@),
    {
        self.nanos == other.nanos
    }

    /// A copy of the span.
    pub fn duplicate(&self) -> (r: TimeSpan)
        ensures
            r@ == self@,
    {
        proof {
            use_type_invariant(self);
        }
        TimeSpan { nanos: self.nanos }
    }
}

} // verus!
