//! What holds of every sampler, proved from `step`.

use crate::bar::{contiguous, Bar};
use crate::price::{higher, lower, Price};
use crate::sampler::{first_state, periods_until, step, SampleError, State};
use crate::time::Timestamp;
use crate::timeframe::Timeframe;
use vstd::prelude::*;

verus! {

/// The periods that `periods_until` lists are periods of the timeframe,
/// none of them empty, each beginning where the one before it ends; the
/// first begins at `from` and the last holds `t`.
pub proof fn lemma_periods_chain(tf: Timeframe, from: Timestamp, t: Timestamp)
    requires
        from@ <= t@,
    ensures
        periods_until(tf, from, t) matches Some(periods) ==> {
            &&& periods.len() >= 1
            &&& periods[0].0 == from
            &&& periods.last().0@ <= t@ < periods.last().1@
            &&& forall|i: int|
                0 <= i < periods.len() ==> tf.spec_next_bar_dt((#[trigger] periods[i]).0) == Some(
                    periods[i].1,
                )
            &&& forall|i: int| 0 <= i < periods.len() ==> (#[trigger] periods[i]).0@ < periods[i].1@
            &&& forall|i: int|
                0 <= i < periods.len() - 1 ==> (#[trigger] periods[i]).1 == periods[i + 1].0
            &&& forall|i: int| 0 <= i < periods.len() - 1 ==> (#[trigger] periods[i]).1@ <= t@
        },
    decreases t@ - from@,
{
    tf.lemma_next_bar_dt_after(from);
    if let Some(end) = tf.spec_next_bar_dt(from) {
        if t@ >= end@ {
            lemma_periods_chain(tf, end, t);
            if let Some(rest) = periods_until(tf, end, t) {
                let periods = seq![(from, end)] + rest;
                assert(periods.last() == rest.last());
                assert forall|i: int| 0 <= i < periods.len() implies tf.spec_next_bar_dt(
                    (#[trigger] periods[i]).0,
                ) == Some(periods[i].1) && periods[i].0@ < periods[i].1@ by {
                    if i > 0 {
                        assert(periods[i] == rest[i - 1]);
                    }
                }
                assert forall|i: int| 0 <= i < periods.len() - 1 implies (#[trigger] periods[i]).1
                    == periods[i + 1].0 && periods[i].1@ <= t@ by {
                    assert(periods[i + 1] == rest[i]);
                    if i > 0 {
                        assert(periods[i] == rest[i - 1]);
                    }
                }
            }
        }
    }
}

/// The first tick closes nothing. Where the period that holds it can be
/// written, the tick begins that period with the open, the high, the low
/// and the close all at its price; where it cannot, the tick is refused.
pub proof fn law_first_tick<P: Price>(tf: Timeframe, t: Timestamp, price: P)
    ensures
        match step(tf, None, t, price).result {
            Ok(bars) => {
                &&& bars.len() == 0
                &&& step(tf, None, t, price).state matches Some(first)
                &&& first.open == price && first.high == price
                &&& first.low == price && first.close == price
                &&& Some(first.bar_start) == tf.spec_bar_start(t)
                &&& first.bar_start@ <= t@ < first.next_bar_dt@
                &&& first.well_formed(tf)
            },
            Err(e) => e == SampleError::OutOfRange && step(tf, None, t, price).state is None,
        },
{
    tf.lemma_bar_start_not_after(t);
    tf.lemma_bar_start_on_grid(t);
}

/// Two ticks in order before the end of the period close nothing, and
/// after the second the period has the open it had, the higher of its high
/// and both prices, the lower of its low and both prices, and the second
/// price as its close.
pub proof fn law_within_period<P: Price>(
    tf: Timeframe,
    current: State<P>,
    first: Timestamp,
    first_price: P,
    second: Timestamp,
    second_price: P,
)
    requires
        current.last_tick@ <= first@ <= second@ < current.next_bar_dt@,
    ensures
        ({
            let once = step(tf, Some(current), first, first_price);
            let twice = step(tf, once.state, second, second_price);
            &&& once.result == Ok::<Seq<Bar<P>>, SampleError>(Seq::empty())
            &&& twice.result == Ok::<Seq<Bar<P>>, SampleError>(Seq::empty())
            &&& twice.state == Some(
                State {
                    bar_start: current.bar_start,
                    next_bar_dt: current.next_bar_dt,
                    last_tick: second,
                    open: current.open,
                    high: higher(higher(current.high, first_price), second_price),
                    low: lower(lower(current.low, first_price), second_price),
                    close: second_price,
                },
            )
        }),
{
}

/// Two ticks into a sampler that has seen none, the second later than the
/// first and before the end of the period that the first began, close
/// nothing, and leave a period with the first price as its open, the
/// higher of the two as its high, the lower as its low and the second as
/// its close.
pub proof fn law_first_two_ticks<P: Price>(
    tf: Timeframe,
    first: Timestamp,
    first_price: P,
    second: Timestamp,
    second_price: P,
)
    requires
        first_state(tf, first, first_price) matches Some(seeded) && seeded.bar_start@ <= first@
            < second@ < seeded.next_bar_dt@,
    ensures
        ({
            let once = step(tf, None, first, first_price);
            let twice = step(tf, once.state, second, second_price);
            &&& once.result == Ok::<Seq<Bar<P>>, SampleError>(Seq::empty())
            &&& twice.result == Ok::<Seq<Bar<P>>, SampleError>(Seq::empty())
            &&& twice.state matches Some(current)
            &&& current.open == first_price
            &&& current.high == higher(first_price, second_price)
            &&& current.low == lower(first_price, second_price)
            &&& current.close == second_price
            &&& Some(current.bar_start) == tf.spec_bar_start(first)
        }),
{
}

/// Every tick leaves a well-formed state behind.
pub proof fn law_state_stays_well_formed<P: Price>(
    tf: Timeframe,
    state: Option<State<P>>,
    t: Timestamp,
    price: P,
)
    requires
        state matches Some(current) ==> current.well_formed(tf),
    ensures
        step(tf, state, t, price).state matches Some(next) ==> next.well_formed(tf),
{
    match state {
        None => {
            law_first_tick(tf, t, price);
        },
        Some(current) => {
            if current.next_bar_dt@ <= t@ {
                tf.lemma_next_bar_dt_on_grid(current.bar_start);
                lemma_periods_chain(tf, current.next_bar_dt, t);
                lemma_periods_on_grid(tf, current.next_bar_dt, t);
            }
        },
    }
}

/// Periods that begin on the grid of the timeframe stay on it.
pub proof fn lemma_periods_on_grid(tf: Timeframe, from: Timestamp, t: Timestamp)
    requires
        tf.on_grid(from),
    ensures
        periods_until(tf, from, t) matches Some(periods) ==> forall|i: int|
            0 <= i < periods.len() ==> tf.on_grid((#[trigger] periods[i]).0),
    decreases t@ - from@,
{
    tf.lemma_next_bar_dt_after(from);
    tf.lemma_next_bar_dt_on_grid(from);
    if let Some(end) = tf.spec_next_bar_dt(from) {
        if t@ >= end@ {
            lemma_periods_on_grid(tf, end, t);
            if let Some(rest) = periods_until(tf, end, t) {
                let periods = seq![(from, end)] + rest;
                assert forall|i: int| 0 <= i < periods.len() implies tf.on_grid(
                    (#[trigger] periods[i]).0,
                ) by {
                    if i > 0 {
                        assert(periods[i] == rest[i - 1]);
                    }
                }
            }
        }
    }
}

/// The bars that one tick closes, taken in order, cover the time from the
/// beginning of the closed period to the beginning of the period that the
/// tick begins, without a gap and without an overlap: none of them is
/// empty, each begins where the one before it ends, and the new period
/// begins where the last of them ends. After the closed bar every bar is
/// one period of the timeframe, flat at the close of the closed bar.
pub proof fn law_contiguous<P: Price>(tf: Timeframe, current: State<P>, t: Timestamp, price: P)
    requires
        current.well_formed(tf),
    ensures
        ({
            let after = step(tf, Some(current), t, price);
            after.result matches Ok(bars) ==> bars.len() > 0 ==> {
                &&& bars[0] == current.bar()
                &&& contiguous(bars)
                &&& forall|i: int|
                    0 <= i < bars.len() ==> (#[trigger] bars[i]).bar_start@
                        < bars[i].next_bar_dt@
                &&& forall|i: int|
                    1 <= i < bars.len() ==> tf.spec_next_bar_dt((#[trigger] bars[i]).bar_start)
                        == Some(bars[i].next_bar_dt)
                &&& forall|i: int|
                    1 <= i < bars.len() ==> #[trigger] bars[i] == Bar::flat(
                        bars[i].bar_start,
                        bars[i].next_bar_dt,
                        current.close,
                    )
                &&& after.state matches Some(next)
                &&& next.bar_start == bars.last().next_bar_dt
                &&& next.bar_start@ <= t@ < next.next_bar_dt@
            }
        }),
{
    if current.last_tick@ <= t@ && current.next_bar_dt@ <= t@ {
        lemma_periods_chain(tf, current.next_bar_dt, t);
        if let Some(periods) = periods_until(tf, current.next_bar_dt, t) {
            let bars = step(tf, Some(current), t, price).result->Ok_0;
            assert forall|i: int| 0 <= i < bars.len() - 1 implies (#[trigger] bars[i]).next_bar_dt
                == bars[i + 1].bar_start by {
                if i > 0 {
                    assert(periods[i - 1].1 == periods[i].0);
                }
            }
            assert forall|i: int| 1 <= i < bars.len() implies tf.spec_next_bar_dt(
                (#[trigger] bars[i]).bar_start,
            ) == Some(bars[i].next_bar_dt) && bars[i].bar_start@ < bars[i].next_bar_dt@ by {
                assert(periods[i - 1].0@ < periods[i - 1].1@);
            }
            if periods.len() > 1 {
                assert(periods[periods.len() - 2].1 == periods[periods.len() - 1].0);
            }
        }
    }
}

/// On a timeframe of equal periods, the periods from the grid point `from`
/// to the one that holds `t` are the steps `from + i * len`, as many as
/// lie at or before `t`.
pub proof fn lemma_periods_on_fixed_grid(tf: Timeframe, from: Timestamp, t: Timestamp, n: nat)
    requires
        tf.on_grid(from),
        tf.spec_period_secs() matches Some(len) && from@ + n * len <= t@ < from@ + (n + 1) * len
            <= i64::MAX,
    ensures
        periods_until(tf, from, t) matches Some(periods) && {
            &&& periods.len() == n + 1
            &&& forall|i: int|
                0 <= i <= n ==> {
                    &&& (#[trigger] periods[i]).0@ == from@ + i * tf.spec_period_secs()->Some_0
                    &&& periods[i].1@ == from@ + (i + 1) * tf.spec_period_secs()->Some_0
                }
        },
    decreases n,
{
    let len = tf.spec_period_secs()->Some_0 as int;
    tf.lemma_next_bar_dt_on_grid(from);
    assert(0 <= n * len) by (nonlinear_arith)
        requires
            0 <= n,
            0 < len,
    ;
    assert((n + 1) * len == n * len + len) by (nonlinear_arith);
    let end = tf.spec_next_bar_dt(from)->Some_0;
    if n == 0 {
        let periods = periods_until(tf, from, t)->Some_0;
        assert(periods =~= seq![(from, end)]);
    } else {
        assert(n * len == (n - 1) * len + len) by (nonlinear_arith);
        lemma_periods_on_fixed_grid(tf, end, t, (n - 1) as nat);
        let rest = periods_until(tf, end, t)->Some_0;
        let periods = seq![(from, end)] + rest;
        assert(periods_until(tf, from, t) == Some(periods));
        assert forall|i: int| 0 <= i <= n implies (#[trigger] periods[i]).0@ == from@ + i * len
            && periods[i].1@ == from@ + (i + 1) * len by {
            if i > 0 {
                assert(periods[i] == rest[i - 1]);
                assert(len + (i - 1) * len == i * len) by (nonlinear_arith);
                assert(len + i * len == (i + 1) * len) by (nonlinear_arith);
            }
        }
    }
}

/// On a timeframe of equal periods, a tick that comes `k` whole periods
/// after the tick before it, `k` at least 1, closes `k` bars: the period of
/// the earlier tick, and `k - 1` periods without ticks, each one period
/// long and flat at the price of the earlier tick.
pub proof fn law_gap_fill_count<P: Price>(
    tf: Timeframe,
    state: Option<State<P>>,
    earlier: Timestamp,
    earlier_price: P,
    later: Timestamp,
    later_price: P,
    k: int,
)
    requires
        state matches Some(current) ==> current.well_formed(tf),
        step(tf, state, earlier, earlier_price).result is Ok,
        tf.spec_next_bar_dt(later) is Some,
        k >= 1,
        tf.spec_period_secs() matches Some(len) && later@ == earlier@ + k * len,
    ensures
        ({
            let len = tf.spec_period_secs()->Some_0;
            let filling = step(tf, state, earlier, earlier_price).state->Some_0;
            let after = step(tf, Some(filling), later, later_price);
            &&& step(tf, state, earlier, earlier_price).state is Some
            &&& after.result matches Ok(bars)
            &&& bars.len() == k
            &&& bars[0] == filling.bar()
            &&& forall|i: int|
                1 <= i < k ==> {
                    &&& #[trigger] bars[i] == Bar::flat(
                        bars[i].bar_start,
                        bars[i].next_bar_dt,
                        earlier_price,
                    )
                    &&& bars[i].bar_start@ == filling.bar_start@ + i * len
                    &&& bars[i].next_bar_dt@ == filling.bar_start@ + (i + 1) * len
                }
            &&& after.state == Some(
                State::seeded(
                    Timestamp { secs: (filling.bar_start@ + k * len) as i64 },
                    Timestamp { secs: (filling.bar_start@ + (k + 1) * len) as i64 },
                    later,
                    later_price,
                ),
            )
        }),
{
    let len = tf.spec_period_secs()->Some_0 as int;
    law_state_stays_well_formed(tf, state, earlier, earlier_price);
    let filling = step(tf, state, earlier, earlier_price).state->Some_0;
    assert(filling.last_tick == earlier && filling.close == earlier_price) by {
        if let Some(current) = state {
            if current.next_bar_dt@ <= earlier@ {
                lemma_periods_chain(tf, current.next_bar_dt, earlier);
            }
        }
    }
    let from = filling.next_bar_dt;
    tf.lemma_next_bar_dt_on_grid(filling.bar_start);
    assert(from@ == filling.bar_start@ + len);
    assert(k * len == (k - 1) * len + len) by (nonlinear_arith);
    assert((k + 1) * len == k * len + len) by (nonlinear_arith);
    assert(len <= k * len) by (nonlinear_arith)
        requires
            1 <= k,
            0 < len,
    ;
    let last = Timestamp { secs: (filling.bar_start@ + k * len) as i64 };
    assert(tf.on_grid(last)) by {
        lemma_periods_on_grid_point(tf, filling.bar_start, k);
    }
    tf.lemma_period_of(last, later);
    tf.lemma_next_bar_dt_on_grid(last);
    lemma_periods_on_fixed_grid(tf, from, later, (k - 1) as nat);
    let periods = periods_until(tf, from, later)->Some_0;
    let bars = step(tf, Some(filling), later, later_price).result->Ok_0;
    assert forall|i: int| 1 <= i < k implies {
        &&& #[trigger] bars[i] == Bar::flat(bars[i].bar_start, bars[i].next_bar_dt, earlier_price)
        &&& bars[i].bar_start@ == filling.bar_start@ + i * len
        &&& bars[i].next_bar_dt@ == filling.bar_start@ + (i + 1) * len
    } by {
        assert(periods[i - 1].0@ == from@ + (i - 1) * len);
        assert(len + (i - 1) * len == i * len) by (nonlinear_arith);
        assert(len + i * len == (i + 1) * len) by (nonlinear_arith);
    }
    assert(periods[k - 1].0@ == from@ + (k - 1) * len);
}

/// Whole steps from a grid point lead to grid points.
pub proof fn lemma_periods_on_grid_point(tf: Timeframe, start: Timestamp, k: int)
    requires
        tf.on_grid(start),
        tf.spec_period_secs() matches Some(len) && i64::MIN <= start@ + k * len <= i64::MAX,
    ensures
        tf.on_grid(Timestamp { secs: (start@ + k * tf.spec_period_secs()->Some_0) as i64 }),
{
    reveal(Timeframe::on_grid);
    let len = tf.spec_period_secs()->Some_0 as int;
    vstd::arithmetic::div_mod::lemma_mod_multiples_vanish(k, start@ - tf.spec_anchor(), len);
    assert(len * k + (start@ - tf.spec_anchor()) == start@ + k * len - tf.spec_anchor())
        by (nonlinear_arith);
}

} // verus!
