//! Instants on the time line of the proleptic Gregorian calendar.

use vstd::arithmetic::div_mod::{lemma_fundamental_div_mod, lemma_mod_bound};
use vstd::prelude::*;

verus! {

/// Seconds in one minute.
pub const MINUTE: i64 = 60;

/// Seconds in one hour.
pub const HOUR: i64 = 3_600;

/// Seconds in one day.
pub const DAY: i64 = 86_400;

/// Seconds in one week.
pub const WEEK: i64 = 604_800;

/// An instant without a time zone, counted in whole seconds since
/// 1970-01-01 00:00:00. A day has exactly 86 400 seconds.
#[derive(Clone, Copy, Debug, PartialEq, Eq, PartialOrd, Ord, Hash)]
pub struct Timestamp {
    pub secs: i64,
}

impl View for Timestamp {
    type V = int;

    open spec fn view(&self) -> int {
        self.secs as int
    }
}

/// What is left of `x` after the whole multiples of `d` in it, 0 up to `d`.
fn floor_mod(x: i64, d: i64) -> (r: i64)
    requires
        1 < d,
    ensures
        r == (x as int) % (d as int),
        0 <= r < d,
{
    proof {
        lemma_mod_bound(x as int, d as int);
    }
    match x.checked_rem_euclid(d) {
        Some(r) => r,
        None => 0,
    }
}

/// The number of whole multiples of `d` in `x`, rounded down.
fn floor_div(x: i64, d: i64) -> (q: i64)
    requires
        1 < d,
    ensures
        q == (x as int) / (d as int),
        -0x4000_0000_0000_0000 <= q < 0x4000_0000_0000_0000,
{
    proof {
        lemma_fundamental_div_mod(x as int, d as int);
        lemma_mod_bound(x as int, d as int);
        let q = (x as int) / (d as int);
        let r = (x as int) % (d as int);
        assert(-0x4000_0000_0000_0000 <= q < 0x4000_0000_0000_0000) by (nonlinear_arith)
            requires
                x == d * q + r,
                0 <= r < d,
                1 < d,
                -0x8000_0000_0000_0000 <= x < 0x8000_0000_0000_0000,
        ;
    }
    match x.checked_div_euclid(d) {
        Some(q) => q,
        None => 0,
    }
}

impl Timestamp {
    /// The instant `secs` seconds after 1970-01-01 00:00:00.
    pub fn new(secs: i64) -> (t: Timestamp)
        ensures
            t@ == secs,
    {
        Timestamp { secs }
    }

    /// The second of the minute, 0 to 59.
    pub open spec fn spec_second(self) -> int {
        self@ % 60
    }

    /// The minute of the hour, 0 to 59.
    pub open spec fn spec_minute(self) -> int {
        (self@ / 60) % 60
    }

    /// The hour of the day, 0 to 23.
    pub open spec fn spec_hour(self) -> int {
        (self@ / 3_600) % 24
    }

    /// The number of whole days since the Monday at or before the instant,
    /// 0 to 6. 1970-01-01 was a Thursday.
    pub open spec fn spec_days_since_monday(self) -> int {
        (self@ / 86_400 + 3) % 7
    }

    /// The second of the minute, 0 to 59.
    pub fn second(&self) -> (r: i64)
        ensures
            r == self.spec_second(),
            0 <= r < 60,
    {
        floor_mod(self.secs, MINUTE)
    }

    /// The minute of the hour, 0 to 59.
    pub fn minute(&self) -> (r: i64)
        ensures
            r == self.spec_minute(),
            0 <= r < 60,
    {
        floor_mod(floor_div(self.secs, MINUTE), 60)
    }

    /// The hour of the day, 0 to 23.
    pub fn hour(&self) -> (r: i64)
        ensures
            r == self.spec_hour(),
            0 <= r < 24,
    {
        floor_mod(floor_div(self.secs, HOUR), 24)
    }

    /// The number of whole days since the Monday at or before the instant,
    /// 0 to 6.
    pub fn days_since_monday(&self) -> (r: i64)
        ensures
            r == self.spec_days_since_monday(),
            0 <= r < 7,
    {
        floor_mod(floor_div(self.secs, DAY) + 3, 7)
    }

    /// Seconds since 1970-01-01 00:00:00.
    pub fn secs(&self) -> (s: i64)
        ensures
            s == self@,
    {
        self.secs
    }
}

} // verus!
