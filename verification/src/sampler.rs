//! The sampler: one tick in, the bars it closes out.

use crate::bar::{contiguous, Bar, Bars};
use crate::laws::law_contiguous;
use crate::price::{higher, lower, max_price, min_price, Price};
use crate::time::Timestamp;
use crate::timeframe::Timeframe;
use vstd::prelude::*;
use vstd::std_specs::convert::FromSpecImpl;

verus! {

/// Why a tick was refused.
#[derive(Clone, Copy, Debug, PartialEq, Eq)]
pub enum SampleError {
    /// The tick is earlier than the tick before it.
    OutOfOrder,
    /// A period that the tick asks for begins or ends at an instant that
    /// cannot be written.
    OutOfRange,
}

/// The period that is being filled: its bounds, the time of the latest
/// tick and the prices so far.
#[derive(Debug, PartialEq, Eq)]
pub struct State<P> {
    pub bar_start: Timestamp,
    pub next_bar_dt: Timestamp,
    pub last_tick: Timestamp,
    pub open: P,
    pub high: P,
    pub low: P,
    pub close: P,
}

impl<P: Copy> Clone for State<P> {
    fn clone(&self) -> (state: Self)
        ensures
            state == *self,
    {
        *self
    }
}

impl<P: Copy> Copy for State<P> {

}

impl<P: Price> State<P> {
    /// The state with these values.
    pub fn new(
        bar_start: Timestamp,
        next_bar_dt: Timestamp,
        last_tick: Timestamp,
        open: P,
        high: P,
        low: P,
        close: P,
    ) -> (state: State<P>)
        ensures
            state == (State { bar_start, next_bar_dt, last_tick, open, high, low, close }),
    {
        State { bar_start, next_bar_dt, last_tick, open, high, low, close }
    }

    /// The period `[bar_start, next_bar_dt)` with the single tick `price`
    /// at `t`.
    pub open spec fn seeded(
        bar_start: Timestamp,
        next_bar_dt: Timestamp,
        t: Timestamp,
        price: P,
    ) -> State<P> {
        State {
            bar_start,
            next_bar_dt,
            last_tick: t,
            open: price,
            high: price,
            low: price,
            close: price,
        }
    }

    /// The state after one more tick in the same period: the open stays,
    /// the high and the low take the new price in, the close is the new
    /// price.
    pub open spec fn absorb(self, t: Timestamp, price: P) -> State<P> {
        State {
            bar_start: self.bar_start,
            next_bar_dt: self.next_bar_dt,
            last_tick: t,
            open: self.open,
            high: higher(self.high, price),
            low: lower(self.low, price),
            close: price,
        }
    }

    /// The prices so far as a bar of the whole period.
    pub open spec fn bar(self) -> Bar<P> {
        Bar {
            open: self.open,
            high: self.high,
            low: self.low,
            close: self.close,
            bar_start: self.bar_start,
            next_bar_dt: self.next_bar_dt,
        }
    }

    /// The state describes a period of `tf` that holds its latest tick,
    /// and its prices are in order.
    pub open spec fn well_formed(self, tf: Timeframe) -> bool {
        &&& self.bar_start@ <= self.last_tick@ < self.next_bar_dt@
        &&& tf.spec_next_bar_dt(self.bar_start) == Some(self.next_bar_dt)
        &&& tf.on_grid(self.bar_start)
        &&& self.bar().well_formed()
    }
}

impl<P: Price> From<State<P>> for Bar<P> {
    /// The prices so far as a bar of the whole period.
    fn from(state: State<P>) -> (bar: Bar<P>) {
        Bar {
            open: state.open,
            high: state.high,
            low: state.low,
            close: state.close,
            bar_start: state.bar_start,
            next_bar_dt: state.next_bar_dt,
        }
    }
}

impl<P: Price> FromSpecImpl<State<P>> for Bar<P> {
    open spec fn obeys_from_spec() -> bool {
        true
    }

    open spec fn from_spec(state: State<P>) -> Bar<P> {
        state.bar()
    }
}

/// The consecutive periods of `tf` from the one that begins at `from` to
/// the one that holds `t`, each as its beginning and its end. `None` where
/// one of them ends at an instant that cannot be written.
pub open spec fn periods_until(tf: Timeframe, from: Timestamp, t: Timestamp) -> Option<
    Seq<(Timestamp, Timestamp)>,
>
    decreases t@ - from@,
    via periods_until_decreases
{
    match tf.spec_next_bar_dt(from) {
        Some(end) => if t@ < end@ {
            Some(seq![(from, end)])
        } else {
            match periods_until(tf, end, t) {
                Some(rest) => Some(seq![(from, end)] + rest),
                None => None,
            }
        },
        None => None,
    }
}

#[via_fn]
proof fn periods_until_decreases(tf: Timeframe, from: Timestamp, t: Timestamp) {
    tf.lemma_next_bar_dt_after(from);
}

/// What a tick does: the state it leaves, and the bars it closes or the
/// reason it was refused.
pub struct Step<P> {
    pub state: Option<State<P>>,
    pub result: Result<Seq<Bar<P>>, SampleError>,
}

/// The state that the first tick `price` at `t` leaves: the period of `tf`
/// that holds `t`, from its beginning to the end that follows that
/// beginning. `None` where the period cannot be written or does not reach
/// beyond `t`.
pub open spec fn first_state<P: Price>(tf: Timeframe, t: Timestamp, price: P) -> Option<State<P>> {
    match tf.spec_bar_start(t) {
        Some(start) => match tf.spec_next_bar_dt(start) {
            Some(end) if t@ < end@ => Some(State::seeded(start, end, t, price)),
            _ => None,
        },
        None => None,
    }
}

/// What the tick `price` at `t` does to a sampler of `tf` in `state`.
///
/// - Before any tick, it begins the period that holds `t`.
/// - A tick earlier than the one before it is refused.
/// - A tick before the end of the period is taken into the period.
/// - Any other tick closes the period. The periods between the closed one
///   and the one that holds `t` get a flat bar each at the last close, and
///   the tick begins the period that holds it.
///
/// A refused tick leaves the state as it was.
pub open spec fn step<P: Price>(
    tf: Timeframe,
    state: Option<State<P>>,
    t: Timestamp,
    price: P,
) -> Step<P> {
    match state {
        None => match first_state(tf, t, price) {
            Some(first) => Step { state: Some(first), result: Ok(Seq::empty()) },
            None => Step { state, result: Err(SampleError::OutOfRange) },
        },
        Some(current) => if t@ < current.last_tick@ {
            Step { state, result: Err(SampleError::OutOfOrder) }
        } else if t@ < current.next_bar_dt@ {
            Step { state: Some(current.absorb(t, price)), result: Ok(Seq::empty()) }
        } else {
            match periods_until(tf, current.next_bar_dt, t) {
                Some(periods) => {
                    let gap = periods.len() - 1;
                    Step {
                        state: Some(
                            State::seeded(periods[gap].0, periods[gap].1, t, price),
                        ),
                        result: Ok(
                            seq![current.bar()] + Seq::new(
                                gap as nat,
                                |i: int| Bar::flat(periods[i].0, periods[i].1, current.close),
                            ),
                        ),
                    }
                },
                None => Step { state, result: Err(SampleError::OutOfRange) },
            }
        },
    }
}

/// The bars in what `next_bar` returned, in order of time.
pub open spec fn emitted<P>(r: Result<Option<Bars<P>>, SampleError>) -> Result<
    Seq<Bar<P>>,
    SampleError,
> {
    match r {
        Ok(Some(bars)) => Ok(bars@),
        Ok(None) => Ok(Seq::empty()),
        Err(e) => Err(e),
    }
}

/// The state that the first tick `value` at `dt` leaves.
fn begin<P: Price>(tf: Timeframe, dt: Timestamp, value: P) -> (r: Option<State<P>>)
    ensures
        r == first_state(tf, dt, value),
        r matches Some(state) ==> state.well_formed(tf),
{
    proof {
        tf.lemma_bar_start_not_after(dt);
        tf.lemma_bar_start_on_grid(dt);
    }
    match tf.bar_start(dt) {
        Some(bar_start) => match tf.next_bar_dt(bar_start) {
            Some(next_bar_dt) => if dt.secs < next_bar_dt.secs {
                Some(State::new(bar_start, next_bar_dt, dt, value, value, value, value))
            } else {
                None
            },
            None => None,
        },
        None => None,
    }
}

/// The number of instants from `end` to `t`, both counted; 0 where `end`
/// lies after `t`.
spec fn reach(end: Timestamp, t: Timestamp) -> nat {
    if end@ <= t@ {
        (t@ - end@ + 1) as nat
    } else {
        0
    }
}

/// The flat bars at `close` of the periods from the one that begins at
/// `from` to the last one that ends by `dt`, and the bounds of the period
/// that holds `dt`.
fn fill<P: Price>(tf: Timeframe, from: Timestamp, dt: Timestamp, close: P) -> (r: Option<
    (Vec<Bar<P>>, Timestamp, Timestamp),
>)
    requires
        from@ <= dt@,
        tf.on_grid(from),
    ensures
        match (r, periods_until(tf, from, dt)) {
            (Some((empty_bars, bar_start, next_bar_dt)), Some(periods)) => {
                &&& empty_bars@ == Seq::new(
                    (periods.len() - 1) as nat,
                    |i: int| Bar::flat(periods[i].0, periods[i].1, close),
                )
                &&& periods.last() == (bar_start, next_bar_dt)
                &&& bar_start@ <= dt@ < next_bar_dt@
                &&& tf.spec_next_bar_dt(bar_start) == Some(next_bar_dt)
                &&& tf.on_grid(bar_start)
            },
            (None, None) => true,
            _ => false,
        },
{
    let mut empty_bars: Vec<Bar<P>> = Vec::new();
    let mut empty_bar_start = from;
    let mut empty_bar_end = match tf.next_bar_dt(from) {
        Some(end) => end,
        None => { return None; },
    };
    let ghost mut done: Seq<(Timestamp, Timestamp)> = Seq::empty();
    proof {
        tf.lemma_next_bar_dt_after(from);
        tf.lemma_next_bar_dt_on_grid(from);
    }
    while dt.secs >= empty_bar_end.secs
        invariant
            empty_bar_start@ <= dt@,
            empty_bar_start@ < empty_bar_end@,
            tf.on_grid(empty_bar_start),
            tf.on_grid(empty_bar_end),
            tf.spec_next_bar_dt(empty_bar_start) == Some(empty_bar_end),
            periods_until(tf, from, dt) == match periods_until(tf, empty_bar_start, dt) {
                Some(rest) => Some(done + rest),
                None => None,
            },
            empty_bars@.len() == done.len(),
            forall|i: int|
                0 <= i < done.len() ==> empty_bars@[i] == Bar::flat(
                    done[i].0,
                    done[i].1,
                    close,
                ),
        decreases reach(empty_bar_end, dt),
    {
        empty_bars.push(Bar::flat(empty_bar_start, empty_bar_end, close));
        proof {
            let ghost next = periods_until(tf, empty_bar_end, dt);
            if let Some(rest) = next {
                assert(done + (seq![(empty_bar_start, empty_bar_end)] + rest) =~= done.push(
                    (empty_bar_start, empty_bar_end),
                ) + rest);
            }
            done = done.push((empty_bar_start, empty_bar_end));
            tf.lemma_next_bar_dt_after(empty_bar_end);
            tf.lemma_next_bar_dt_on_grid(empty_bar_end);
        }
        empty_bar_start = empty_bar_end;
        empty_bar_end = match tf.next_bar_dt(empty_bar_end) {
            Some(end) => end,
            None => { return None; },
        };
    }
    proof {
        let periods = done + seq![(empty_bar_start, empty_bar_end)];
        assert(periods_until(tf, from, dt) == Some(periods));
        assert(empty_bars@ =~= Seq::new(
            (periods.len() - 1) as nat,
            |i: int| Bar::flat(periods[i].0, periods[i].1, close),
        ));
    }
    Some((empty_bars, empty_bar_start, empty_bar_end))
}

/// Turns a stream of ticks into the bars of one timeframe.
#[derive(Debug)]
pub struct Sampler<P: Price> {
    timeframe: Timeframe,
    state: Option<State<P>>,
}

impl<P: Price> Sampler<P> {
    #[verifier::type_invariant]
    spec fn inv(self) -> bool {
        match self.state {
            Some(current) => current.well_formed(self.timeframe),
            None => true,
        }
    }

    /// The timeframe of the sampler.
    pub closed spec fn spec_timeframe(&self) -> Timeframe {
        self.timeframe
    }

    /// The period that is being filled; `None` before the first tick.
    pub closed spec fn spec_state(&self) -> Option<State<P>> {
        self.state
    }

    /// A sampler of `timeframe` that has seen no tick.
    pub fn new(timeframe: Timeframe) -> (sampler: Sampler<P>)
        ensures
            sampler.spec_timeframe() == timeframe,
            sampler.spec_state() is None,
    {
        Sampler { timeframe, state: None }
    }

    /// The sampler for the timeframe with the short code `short`: `M1` to
    /// `M30`, `H1` to `H12`, `D1`, `W1`, `MN1`. `None` where no timeframe
    /// has that code.
    pub fn from_short(short: &str) -> (r: Option<Sampler<P>>)
        ensures
            match r {
                Some(sampler) => sampler.spec_timeframe().code() == short@
                    && sampler.spec_state() is None,
                None => forall|tf: Timeframe| tf.code() != short@,
            },
    {
        match Timeframe::from_short(short) {
            Some(timeframe) => Some(Sampler::new(timeframe)),
            None => None,
        }
    }

    /// The beginning of the period of the sampler's timeframe that holds
    /// `dt`; `None` where that instant cannot be written.
    pub fn bar_start(&self, dt: Timestamp) -> (r: Option<Timestamp>)
        ensures
            r == self.spec_timeframe().spec_bar_start(dt),
    {
        self.timeframe.bar_start(dt)
    }

    /// The end of the period of the sampler's timeframe that holds `dt`;
    /// `None` where that instant cannot be written.
    pub fn next_bar_dt(&self, dt: Timestamp) -> (r: Option<Timestamp>)
        ensures
            r == self.spec_timeframe().spec_next_bar_dt(dt),
    {
        self.timeframe.next_bar_dt(dt)
    }

    /// The period that is being filled, as the bar it would be if it
    /// ended now. `None` before the first tick.
    pub fn current_incomplete(&self) -> (r: Option<Bar<P>>)
        ensures
            r == match self.spec_state() {
                Some(current) => Some(current.bar()),
                None => None,
            },
    {
        match self.state {
            Some(current) => Some(Bar::from(current)),
            None => None,
        }
    }

    /// Takes the tick `value` at `dt` and returns the bars it closes, as
    /// `step` describes: nothing while the period goes on, else the closed
    /// bar and the flat bars of the periods without ticks. A tick that is
    /// refused changes nothing.
    ///
    /// Every period without ticks gets a bar of its own, so the answer is
    /// as long as the silence before the tick, counted in periods.
    pub fn next_bar(&mut self, dt: Timestamp, value: P) -> (r: Result<Option<Bars<P>>, SampleError>)
        ensures
            final(self).spec_timeframe() == old(self).spec_timeframe(),
            ({
                let tf = old(self).spec_timeframe();
                let before = old(self).spec_state();
                let after = final(self).spec_state();
                &&& after == step(tf, before, dt, value).state
                &&& emitted(r) == step(tf, before, dt, value).result
                &&& r matches Ok(Some(bars)) ==> bars.well_formed()
                &&& r is Err ==> after == before
                &&& (r matches Err(SampleError::OutOfOrder)) <==> (before matches Some(current)
                    && dt@ < current.last_tick@)
                &&& (r matches Err(SampleError::OutOfRange)) <==> (match before {
                    Some(current) => current.next_bar_dt@ <= dt@ && periods_until(
                        tf,
                        current.next_bar_dt,
                        dt,
                    ) is None,
                    None => first_state(tf, dt, value) is None,
                })
                &&& before is None ==> (r matches Ok(closed) ==> closed is None)
                &&& r matches Ok(Some(bars)) ==> {
                    &&& contiguous(bars@)
                    &&& after matches Some(next)
                    &&& next.bar_start == bars@.last().next_bar_dt
                }
            }),
    {
        proof {
            use_type_invariant(&*self);
            if let Some(current) = self.state {
                law_contiguous(self.timeframe, current, dt, value);
            }
        }
        let tf = self.timeframe;
        match self.state {
            None => {
                let first = begin(tf, dt, value);
                match first {
                    Some(state) => {
                        self.state = Some(state);
                        Ok(None)
                    },
                    None => Err(SampleError::OutOfRange),
                }
            },
            Some(current) => {
                if dt.secs < current.last_tick.secs {
                    Err(SampleError::OutOfOrder)
                } else if dt.secs < current.next_bar_dt.secs {
                    let high = max_price(current.high, value);
                    let low = min_price(current.low, value);
                    self.state = Some(
                        State::new(
                            current.bar_start,
                            current.next_bar_dt,
                            dt,
                            current.open,
                            high,
                            low,
                            value,
                        ),
                    );
                    Ok(None)
                } else {
                    proof {
                        tf.lemma_next_bar_dt_on_grid(current.bar_start);
                    }
                    match fill(tf, current.next_bar_dt, dt, current.close) {
                        Some((empty_bars, bar_start, next_bar_dt)) => {
                            let full_bar = Bar::from(current);
                            self.state = Some(
                                State::new(bar_start, next_bar_dt, dt, value, value, value, value),
                            );
                            assert(emitted(Ok(Some(Bars::WithEmpty(full_bar, empty_bars))))
                                =~= step(tf, Some(current), dt, value).result);
                            if empty_bars.len() > 0 {
                                Ok(Some(Bars::WithEmpty(full_bar, empty_bars)))
                            } else {
                                Ok(Some(Bars::Single(full_bar)))
                            }
                        },
                        None => Err(SampleError::OutOfRange),
                    }
                }
            },
        }
    }

    /// The timeframe of the sampler.
    #[verifier::when_used_as_spec(spec_timeframe)]
    pub fn timeframe(&self) -> (tf: Timeframe)
        ensures
            tf == self.spec_timeframe(),
    {
        self.timeframe
    }
}

} // verus!
