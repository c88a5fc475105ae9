//! The prices a bar is built from.

use vstd::prelude::*;

verus! {

/// A price: any copyable value with a place on the number line.
///
/// The sampler only compares prices, so a price may be a count of ticks,
/// of cents or of any other fixed unit.
pub trait Price: Copy {
    /// The place of the price on the number line, in its own unit.
    spec fn level(self) -> int;

    /// True when `self` is not above `other`.
    fn at_most(&self, other: &Self) -> (b: bool)
        ensures
            b == (self.level() <= other.level()),
    ;
}

impl Price for i64 {
    open spec fn level(self) -> int {
        self as int
    }

    fn at_most(&self, other: &Self) -> (b: bool) {
        *self <= *other
    }
}

impl Price for u64 {
    open spec fn level(self) -> int {
        self as int
    }

    fn at_most(&self, other: &Self) -> (b: bool) {
        *self <= *other
    }
}

/// The higher of two prices; `a` when they are level.
pub open spec fn higher<P: Price>(a: P, b: P) -> P {
    if b.level() <= a.level() {
        a
    } else {
        b
    }
}

/// The lower of two prices; `a` when they are level.
pub open spec fn lower<P: Price>(a: P, b: P) -> P {
    if a.level() <= b.level() {
        a
    } else {
        b
    }
}

/// The higher of two prices.
pub fn max_price<P: Price>(a: P, b: P) -> (m: P)
    ensures
        m == higher(a, b),
{
    if b.at_most(&a) {
        a
    } else {
        b
    }
}

/// The lower of two prices.
pub fn min_price<P: Price>(a: P, b: P) -> (m: P)
    ensures
        m == lower(a, b),
{
    if a.at_most(&b) {
        a
    } else {
        b
    }
}

} // verus!
