//! `Span`: a span of time counted in nanoseconds, with the range of `std::time::Duration`.
use vstd::prelude::*;

verus! {

/// The largest span a `std::time::Duration` can hold, in nanoseconds:
/// `u64::MAX` seconds and 999_999_999 nanoseconds.
pub const SPAN_MAX_NANOS: u128 = 18446744073709551615999999999u128;

pub const NANOS_PER_SEC: u128 = 1_000_000_000u128;

pub const NANOS_PER_MILLI: u128 = 1_000_000u128;

/// A span of time, counted in whole nanoseconds, never longer than `SPAN_MAX_NANOS`.
#[derive(Clone, Copy, Debug, PartialEq, Eq, Structural)]
pub struct Span {
    nanos: u128,
}

impl View for Span {
    type V = nat;

    /// The length of the span in nanoseconds.
    closed spec fn view(&self) -> nat {
        self.nanos as nat
    }
}

impl Span {
    #[verifier::type_invariant]
    closed spec fn inv(self) -> bool {
        self.nanos <= SPAN_MAX_NANOS
    }

    /// The empty span.
    pub fn zero() -> (s: Span)
        ensures
            s@ == 0,
    {
        Span { nanos: 0 }
    }

    /// A span of `nanos` nanoseconds.
    pub fn from_nanos(nanos: u64) -> (s: Span)
        ensures
            s@ == nanos,
    {
        Span { nanos: nanos as u128 }
    }

    /// A span of `ms` milliseconds.
    pub fn from_millis(ms: u64) -> (s: Span)
        ensures
            s@ == ms * NANOS_PER_MILLI,
    {
        assert(ms * NANOS_PER_MILLI <= SPAN_MAX_NANOS) by (nonlinear_arith)
            requires
                ms <= u64::MAX,
        ;
        Span { nanos: (ms as u128) * NANOS_PER_MILLI }
    }

    /// A span of `secs` seconds.
    pub fn from_secs(secs: u64) -> (s: Span)
        ensures
            s@ == secs * NANOS_PER_SEC,
    {
        assert(secs * NANOS_PER_SEC <= SPAN_MAX_NANOS) by (nonlinear_arith)
            requires
                secs <= u64::MAX,
        ;
        Span { nanos: (secs as u128) * NANOS_PER_SEC }
    }

    /// A span of `secs` seconds and `nanos` nanoseconds; like `Duration::new`, the
    /// nanoseconds may exceed one second and carry into the seconds.
    pub fn new(secs: u64, nanos: u32) -> (s: Span)
        requires
            secs * NANOS_PER_SEC + nanos <= SPAN_MAX_NANOS,
        ensures
            s@ == secs * NANOS_PER_SEC + nanos,
    {
        Span { nanos: (secs as u128) * NANOS_PER_SEC + (nanos as u128) }
    }

    /// A span of exactly `nanos` nanoseconds, if that fits the range of a `Duration`.
    pub fn checked_from_nanos(nanos: u128) -> (s: Option<Span>)
        ensures
            s matches Some(v) ==> v@ == nanos,
            s is Some <==> nanos <= SPAN_MAX_NANOS,
    {
        if nanos <= SPAN_MAX_NANOS {
            Some(Span { nanos })
        } else {
            None
        }
    }

    /// The length in nanoseconds; it never exceeds `SPAN_MAX_NANOS`.
    pub fn as_nanos(&self) -> (n: u128)
        ensures
            n == self@,
            n <= SPAN_MAX_NANOS,
    {
        proof {
            use_type_invariant(self);
        }
        self.nanos
    }

    /// The length in whole milliseconds (rounded down).
    pub fn as_millis(&self) -> (n: u128)
        ensures
            n == self@ / NANOS_PER_MILLI as nat,
    {
        self.nanos / NANOS_PER_MILLI
    }

    /// The whole seconds of the span.
    pub fn as_secs(&self) -> (n: u64)
        ensures
            n == self@ / NANOS_PER_SEC as nat,
    {
        proof {
            use_type_invariant(self);
        }
        assert(self.nanos / NANOS_PER_SEC <= u64::MAX) by (nonlinear_arith)
            requires
                self.nanos <= SPAN_MAX_NANOS,
        ;
        (self.nanos / NANOS_PER_SEC) as u64
    }

    /// The nanoseconds beyond the whole seconds.
    pub fn subsec_nanos(&self) -> (n: u32)
        ensures
            n == self@ % NANOS_PER_SEC as nat,
    {
        (self.nanos % NANOS_PER_SEC) as u32
    }

    /// Whether the span is empty.
    pub fn is_zero(&self) -> (b: bool)
        ensures
            b == (self@ == 0),
    {
        self.nanos == 0
    }

    /// The sum of two spans, if it fits the range of a `Duration`.
    pub fn checked_add(&self, other: Span) -> (s: Option<Span>)
        ensures
            s matches Some(v) ==> v@ == self@ + other@,
            s is Some <==> self@ + other@ <= SPAN_MAX_NANOS,
    {
        proof {
            use_type_invariant(self);
            use_type_invariant(other);
        }
        let sum = self.nanos + other.nanos;
        if sum <= SPAN_MAX_NANOS {
            Some(Span { nanos: sum })
        } else {
            None
        }
    }

    /// The sum of two spans; like `Duration + Duration`, it needs the sum to fit.
    pub fn add(&self, other: Span) -> (s: Span)
        requires
            self@ + other@ <= SPAN_MAX_NANOS,
        ensures
            s@ == self@ + other@,
    {
        Span { nanos: self.nanos + other.nanos }
    }

    /// `self - other`, or zero when `other` is the longer span.
    pub fn saturating_sub(&self, other: Span) -> (s: Span)
        ensures
            s@ == (if self@ >= other@ {
                self@ - other@
            } else {
                0
            }),
    {
        proof {
            use_type_invariant(self);
        }
        if self.nanos >= other.nanos {
            Span { nanos: self.nanos - other.nanos }
        } else {
            Span { nanos: 0 }
        }
    }
}

} // verus!
