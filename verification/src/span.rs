//! Lengths of time and clock readings, as a count of nanoseconds.
//!
//! One type serves for both: a clock reading is the span since an origin that the caller
//! picked, so "how long until" is a subtraction and "due" is a comparison.
use vstd::prelude::*;

verus! {

/// A span of time, or a clock reading as the span since the clock's origin.
#[derive(Debug, Clone, Copy, PartialEq, Eq, Structural)]
pub struct Span {
    /// The length in nanoseconds.
    pub nanos: u128,
}

impl View for Span {
    type V = nat;

    open spec fn view(&self) -> nat {
        self.nanos as nat
    }
}

impl Span {
    /// The span of `nanos` nanoseconds.
    pub open spec fn of(nanos: nat) -> Span {
        Span { nanos: nanos as u128 }
    }

    /// The shorter of two spans.
    pub open spec fn least(a: Span, b: Span) -> Span {
        if b.nanos < a.nanos {
            b
        } else {
            a
        }
    }

    /// `a` less `b`, stopping at zero.
    pub open spec fn less(a: Span, b: Span) -> Span {
        if a.nanos >= b.nanos {
            Span { nanos: (a.nanos - b.nanos) as u128 }
        } else {
            Span { nanos: 0 }
        }
    }

    /// `a` and `b` together, stopping at the longest span.
    pub open spec fn plus(a: Span, b: Span) -> Span {
        if a.nanos + b.nanos <= u128::MAX {
            Span { nanos: (a.nanos + b.nanos) as u128 }
        } else {
            Span { nanos: u128::MAX }
        }
    }

    /// No time at all.
    pub fn zero() -> (span: Span)
        ensures
            span@ == 0,
    {
        Span { nanos: 0 }
    }

    /// `secs` seconds and `nanos` nanoseconds.
    pub fn new(secs: u64, nanos: u32) -> (span: Span)
        ensures
            span@ == secs as nat * 1_000_000_000 + nanos as nat,
    {
        Span { nanos: secs as u128 * 1_000_000_000 + nanos as u128 }
    }

    /// A whole number of seconds.
    pub fn from_secs(secs: u64) -> (span: Span)
        ensures
            span@ == secs as nat * 1_000_000_000,
    {
        Span { nanos: secs as u128 * 1_000_000_000 }
    }

    /// A number of milliseconds.
    pub fn from_millis(millis: u64) -> (span: Span)
        ensures
            span@ == millis as nat * 1_000_000,
    {
        Span { nanos: millis as u128 * 1_000_000 }
    }

    /// A number of microseconds.
    pub fn from_micros(micros: u64) -> (span: Span)
        ensures
            span@ == micros as nat * 1_000,
    {
        Span { nanos: micros as u128 * 1_000 }
    }

    /// A number of nanoseconds.
    pub fn from_nanos(nanos: u64) -> (span: Span)
        ensures
            span@ == nanos as nat,
    {
        Span { nanos: nanos as u128 }
    }

    /// The whole span in microseconds, rounded down.
    pub fn as_micros(&self) -> (micros: u128)
        ensures
            micros as nat == self@ / 1_000,
    {
        self.nanos / 1_000
    }

    /// The shorter of the two.
    pub fn shorter_of(self, other: Span) -> (least: Span)
        ensures
            least == Span::least(self, other),
    {
        if other.nanos < self.nanos {
            other
        } else {
            self
        }
    }

    /// The span from `earlier` to this one, or `None` when this one comes first.
    pub fn checked_since(&self, earlier: &Span) -> (gap: Option<Span>)
        ensures
            gap == if self.nanos >= earlier.nanos {
                Some(Span::less(*self, *earlier))
            } else {
                None
            },
    {
        if self.nanos >= earlier.nanos {
            Some(Span { nanos: self.nanos - earlier.nanos })
        } else {
            None
        }
    }

    /// This span less `other`, stopping at zero.
    pub fn saturating_sub(&self, other: &Span) -> (rest: Span)
        ensures
            rest == Span::less(*self, *other),
    {
        if self.nanos >= other.nanos {
            Span { nanos: self.nanos - other.nanos }
        } else {
            Span { nanos: 0 }
        }
    }

    /// This span and `other` together, stopping at the longest span.
    pub fn saturating_add(&self, other: &Span) -> (sum: Span)
        ensures
            sum == Span::plus(*self, *other),
    {
        match self.nanos.checked_add(other.nanos) {
            Some(nanos) => Span { nanos },
            None => Span { nanos: u128::MAX },
        }
    }
}

/// **Time adds up.** What is added can be taken off again, a sum that does not fit is the
/// longest span, a difference stops at zero, and the shorter of two is one of them and no longer
/// than either.
pub proof fn time_adds_up(a: Span, b: Span)
    ensures
        a@ + b@ <= u128::MAX ==> Span::plus(a, b)@ == a@ + b@,
        a@ + b@ > u128::MAX ==> Span::plus(a, b)@ == u128::MAX,
        a@ + b@ <= u128::MAX ==> Span::less(Span::plus(a, b), b) == a,
        a@ >= b@ ==> Span::less(a, b)@ + b@ == a@,
        a@ <= b@ ==> Span::less(a, b)@ == 0,
        Span::least(a, b)@ <= a@ && Span::least(a, b)@ <= b@,
        Span::least(a, b) == a || Span::least(a, b) == b,
{
}

/// **Units are worth what they are.** A thousand of each is one of the next.
pub proof fn units_are_worth_what_they_are(
    many: u64,
    secs: Span,
    millis: Span,
    micros: Span,
    nanos: Span,
)
    requires
        call_ensures(Span::from_secs, (many,), secs),
        call_ensures(Span::from_millis, (many,), millis),
        call_ensures(Span::from_micros, (many,), micros),
        call_ensures(Span::from_nanos, (many,), nanos),
    ensures
        secs@ == 1_000 * millis@,
        millis@ == 1_000 * micros@,
        micros@ == 1_000 * nanos@,
        nanos@ == many,
{
}

} // verus!
