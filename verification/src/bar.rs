//! Bars: the open, high, low and close of one period.

use crate::price::Price;
use crate::time::Timestamp;
use vstd::prelude::*;

verus! {

/// The prices of one period `[bar_start, next_bar_dt)`: the first and the
/// last price seen in it, and the highest and the lowest.
#[derive(Debug, PartialEq, Eq)]
pub struct Bar<P> {
    pub open: P,
    pub high: P,
    pub low: P,
    pub close: P,
    pub bar_start: Timestamp,
    pub next_bar_dt: Timestamp,
}

impl<P: Copy> Clone for Bar<P> {
    fn clone(&self) -> (bar: Self)
        ensures
            bar == *self,
    {
        *self
    }
}

impl<P: Copy> Copy for Bar<P> {

}

impl<P: Price> Bar<P> {
    /// The bar of a period in which the price stayed at `price`.
    pub open spec fn spec_flat(bar_start: Timestamp, next_bar_dt: Timestamp, price: P) -> Bar<P> {
        Bar { open: price, high: price, low: price, close: price, bar_start, next_bar_dt }
    }

    /// The period is not empty, and neither the open nor the close lies
    /// above the high or below the low.
    pub open spec fn well_formed(self) -> bool {
        &&& self.bar_start@ < self.next_bar_dt@
        &&& self.low.level() <= self.open.level() <= self.high.level()
        &&& self.low.level() <= self.close.level() <= self.high.level()
    }

    /// The bar of a period in which the price stayed at `price`: the bar
    /// that stands for a period without ticks.
    #[verifier::when_used_as_spec(spec_flat)]
    pub fn flat(bar_start: Timestamp, next_bar_dt: Timestamp, price: P) -> (bar: Bar<P>)
        ensures
            bar == Self::spec_flat(bar_start, next_bar_dt, price),
    {
        Bar { open: price, high: price, low: price, close: price, bar_start, next_bar_dt }
    }
}

/// What a tick closes: the bar of the period that ended, alone or followed
/// by the bars of the periods that passed without a tick.
#[derive(Debug, PartialEq, Eq)]
pub enum Bars<P> {
    /// The period that ended.
    Single(Bar<P>),
    /// The period that ended, and after it at least one period without
    /// ticks, earliest first.
    WithEmpty(Bar<P>, Vec<Bar<P>>),
}

impl<P> View for Bars<P> {
    type V = Seq<Bar<P>>;

    /// All the bars in order of time.
    open spec fn view(&self) -> Seq<Bar<P>> {
        match self {
            Bars::Single(closed) => seq![*closed],
            Bars::WithEmpty(closed, empty) => seq![*closed] + empty@,
        }
    }
}

impl<P: Price> Bars<P> {
    /// `WithEmpty` holds at least one bar of a period without ticks.
    pub open spec fn well_formed(self) -> bool {
        match self {
            Bars::Single(_) => true,
            Bars::WithEmpty(_, empty) => empty@.len() > 0,
        }
    }

    /// The bar of the period that ended.
    pub fn closed(&self) -> (bar: Bar<P>)
        ensures
            bar == self@[0],
    {
        match self {
            Bars::Single(closed) => *closed,
            Bars::WithEmpty(closed, _) => *closed,
        }
    }

    /// The number of periods without ticks that follow the closed one.
    pub fn empty_count(&self) -> (n: usize)
        ensures
            n == self@.len() - 1,
    {
        match self {
            Bars::Single(_) => 0,
            Bars::WithEmpty(_, empty) => empty.len(),
        }
    }
}

/// Each bar begins where the one before it ends.
pub open spec fn contiguous<P>(bars: Seq<Bar<P>>) -> bool {
    forall|i: int|
        0 <= i < bars.len() - 1 ==> (#[trigger] bars[i]).next_bar_dt == bars[i + 1].bar_start
}

} // verus!
