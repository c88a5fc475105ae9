//! The catalogue of timeframes and where their periods begin and end.
//!
//! Every timeframe cuts the time line into consecutive half-open periods
//! `[start, end)`. For minutes, hours, days and weeks the cuts form a grid
//! of equal steps; for months they follow the calendar.

use crate::calendar::{month_ceil, month_floor, spec_month_ceil, spec_month_floor};
use crate::time::{Timestamp, DAY, HOUR, MINUTE, WEEK};
use vstd::arithmetic::div_mod::{
    lemma_fundamental_div_mod, lemma_fundamental_div_mod_converse,
    lemma_fundamental_div_mod_converse_mod, lemma_mod_bound, lemma_mod_mod,
    lemma_mod_multiples_basic, lemma_mod_multiples_vanish, lemma_small_mod, lemma_sub_mod_noop,
};
use vstd::prelude::*;
use vstd::string::StrSliceExecFns;

verus! {

/// A bar interval: 1 to 30 minutes, 1 to 12 hours, a day, a week or a
/// calendar month.
#[derive(Clone, Copy, Debug, PartialEq, Eq, Hash)]
pub enum Timeframe {
    M1,
    M2,
    M3,
    M4,
    M5,
    M6,
    M10,
    M12,
    M15,
    M20,
    M30,
    H1,
    H2,
    H3,
    H4,
    H6,
    H8,
    H12,
    D1,
    W1,
    Mn1,
}

/// The latest point of the grid `anchor + k * step` that is not after `t`.
#[verifier::opaque]
pub open spec fn grid_floor(t: int, step: int, anchor: int) -> int {
    t - (t - anchor) % step
}

/// How far `t` lies behind the grid point at or before it.
fn grid_offset(t: i64, step: i64, anchor: i64) -> (r: i64)
    requires
        0 <= anchor < step,
    ensures
        r == (t - anchor) % (step as int),
        0 <= r < step,
{
    let rem = match t.checked_rem_euclid(step) {
        Some(rem) => rem,
        None => 0,
    };
    proof {
        let m = step as int;
        let near = if rem < anchor { rem - anchor + m } else { rem - anchor };
        lemma_mod_bound(t as int, m);
        lemma_small_mod(anchor as nat, m as nat);
        lemma_sub_mod_noop(t as int, anchor as int, m);
        if rem < anchor {
            lemma_mod_multiples_vanish(1, rem - anchor, m);
        }
        lemma_small_mod(near as nat, m as nat);
    }
    if rem < anchor {
        rem - anchor + step
    } else {
        rem - anchor
    }
}

/// `t` is a whole minute, and its minute of the hour is a multiple of
/// `count`.
pub open spec fn every_minutes(t: Timestamp, count: int) -> bool {
    t.spec_second() == 0 && t.spec_minute() % count == 0
}

/// `t` is a whole hour, and its hour of the day is a multiple of `count`.
pub open spec fn every_hours(t: Timestamp, count: int) -> bool {
    t.spec_second() == 0 && t.spec_minute() == 0 && t.spec_hour() % count == 0
}

/// A number counted in units and in runs of `count` units: what is left
/// over of the runs is the units left over of the runs, and what is left
/// over of the units.
proof fn lemma_mod_by_units(x: int, unit: int, count: int)
    requires
        0 < unit,
        0 < count,
    ensures
        0 < unit * count,
        x % (unit * count) == unit * ((x / unit) % count) + x % unit,
        0 <= (x / unit) % count < count,
        0 <= x % unit < unit,
{
    let units = x / unit;
    let left = x % unit;
    let runs = units / count;
    let over = units % count;
    lemma_fundamental_div_mod(x, unit);
    lemma_fundamental_div_mod(units, count);
    lemma_mod_bound(x, unit);
    lemma_mod_bound(units, count);
    assert(0 < unit * count && x == runs * (unit * count) + (unit * over + left) && 0 <= unit * over
        + left < unit * count) by (nonlinear_arith)
        requires
            0 < unit,
            0 < count,
            x == unit * units + left,
            units == count * runs + over,
            0 <= over < count,
            0 <= left < unit,
    ;
    lemma_fundamental_div_mod_converse_mod(x, unit * count, runs, unit * over + left);
}

/// A run of units is complete exactly when no unit is left over of the
/// runs and nothing is left over of the units.
proof fn lemma_whole_runs(x: int, unit: int, count: int)
    requires
        0 < unit,
        0 < count,
    ensures
        (x % (unit * count) == 0) == (x % unit == 0 && (x / unit) % count == 0),
{
    lemma_mod_by_units(x, unit, count);
    let over = (x / unit) % count;
    assert((unit * over == 0) == (over == 0)) by (nonlinear_arith)
        requires
            0 < unit,
            0 <= over,
    ;
    assert(0 <= unit * over) by (nonlinear_arith)
        requires
            0 < unit,
            0 <= over,
    ;
}

/// The multiples of `count` minutes are the whole minutes whose minute of
/// the hour is a multiple of `count`, where `count` divides the hour into
/// `per_hour` parts.
proof fn lemma_minutes_on_the_clock(t: Timestamp, count: int, per_hour: int)
    requires
        0 < count,
        0 < per_hour,
        count * per_hour == 60,
    ensures
        (t@ % (60 * count) == 0) == every_minutes(t, count),
{
    lemma_whole_runs(t@, 60, count);
    lemma_mod_mod(t@ / 60, count, per_hour);
}

/// The multiples of `count` hours are the whole hours whose hour of the
/// day is a multiple of `count`, where `count` divides the day into
/// `per_day` parts.
proof fn lemma_hours_on_the_clock(t: Timestamp, count: int, per_day: int)
    requires
        0 < count,
        0 < per_day,
        count * per_day == 24,
    ensures
        (t@ % (3_600 * count) == 0) == every_hours(t, count),
{
    lemma_whole_runs(t@, 3_600, count);
    lemma_mod_mod(t@ / 3_600, count, per_day);
    lemma_mod_by_units(t@, 60, 60);
}

/// The weeks of the grid begin at midnight on Mondays.
proof fn lemma_weeks_on_the_clock(t: Timestamp)
    ensures
        ((t@ - 345_600) % 604_800 == 0) == (t@ % 86_400 == 0 && t.spec_days_since_monday() == 0),
{
    let shifted = t@ - 345_600;
    lemma_whole_runs(shifted, 86_400, 7);
    lemma_fundamental_div_mod(t@, 86_400);
    lemma_mod_bound(t@, 86_400);
    lemma_fundamental_div_mod_converse(shifted, 86_400, t@ / 86_400 - 4, t@ % 86_400);
    lemma_mod_multiples_vanish(1, t@ / 86_400 - 4, 7);
}

impl Timeframe {
    /// The short code of the timeframe: `M15`, `H4`, `D1`, `W1`, `MN1`.
    pub open spec fn code(self) -> Seq<char> {
        match self {
            Timeframe::M1 => seq!['M', '1'],
            Timeframe::M2 => seq!['M', '2'],
            Timeframe::M3 => seq!['M', '3'],
            Timeframe::M4 => seq!['M', '4'],
            Timeframe::M5 => seq!['M', '5'],
            Timeframe::M6 => seq!['M', '6'],
            Timeframe::M10 => seq!['M', '1', '0'],
            Timeframe::M12 => seq!['M', '1', '2'],
            Timeframe::M15 => seq!['M', '1', '5'],
            Timeframe::M20 => seq!['M', '2', '0'],
            Timeframe::M30 => seq!['M', '3', '0'],
            Timeframe::H1 => seq!['H', '1'],
            Timeframe::H2 => seq!['H', '2'],
            Timeframe::H3 => seq!['H', '3'],
            Timeframe::H4 => seq!['H', '4'],
            Timeframe::H6 => seq!['H', '6'],
            Timeframe::H8 => seq!['H', '8'],
            Timeframe::H12 => seq!['H', '1', '2'],
            Timeframe::D1 => seq!['D', '1'],
            Timeframe::W1 => seq!['W', '1'],
            Timeframe::Mn1 => seq!['M', 'N', '1'],
        }
    }

    /// The number of seconds in every period of the timeframe; `None` for
    /// calendar months, which differ in length.
    pub open spec fn spec_period_secs(self) -> Option<i64> {
        match self {
            Timeframe::M1 => Some(60i64),
            Timeframe::M2 => Some(120i64),
            Timeframe::M3 => Some(180i64),
            Timeframe::M4 => Some(240i64),
            Timeframe::M5 => Some(300i64),
            Timeframe::M6 => Some(360i64),
            Timeframe::M10 => Some(600i64),
            Timeframe::M12 => Some(720i64),
            Timeframe::M15 => Some(900i64),
            Timeframe::M20 => Some(1_200i64),
            Timeframe::M30 => Some(1_800i64),
            Timeframe::H1 => Some(3_600i64),
            Timeframe::H2 => Some(7_200i64),
            Timeframe::H3 => Some(10_800i64),
            Timeframe::H4 => Some(14_400i64),
            Timeframe::H6 => Some(21_600i64),
            Timeframe::H8 => Some(28_800i64),
            Timeframe::H12 => Some(43_200i64),
            Timeframe::D1 => Some(86_400i64),
            Timeframe::W1 => Some(604_800i64),
            Timeframe::Mn1 => None,
        }
    }

    /// An instant at which a period of the timeframe begins, between 0 and
    /// one period after it. Minutes, hours and days are counted from
    /// midnight, so 1970-01-01 00:00:00 begins a period of each. Weeks
    /// begin on Monday, and the first Monday was 1970-01-05.
    pub open spec fn spec_anchor(self) -> i64 {
        match self {
            Timeframe::W1 => 345_600i64,
            _ => 0i64,
        }
    }

    /// The beginning of the period that holds `t`: the latest period
    /// boundary that is not after `t`. `None` where that instant cannot be
    /// written.
    pub open spec fn spec_bar_start(self, t: Timestamp) -> Option<Timestamp> {
        match self.spec_period_secs() {
            Some(step) => {
                let start = grid_floor(t@, step as int, self.spec_anchor() as int);
                if i64::MIN <= start {
                    Some(Timestamp { secs: start as i64 })
                } else {
                    None
                }
            },
            None => spec_month_floor(t),
        }
    }

    /// The end of the period that holds `t`: the earliest period boundary
    /// after `t`. `None` where that instant cannot be written.
    pub open spec fn spec_next_bar_dt(self, t: Timestamp) -> Option<Timestamp> {
        match self.spec_period_secs() {
            Some(step) => {
                let end = grid_floor(t@, step as int, self.spec_anchor() as int) + step;
                if end <= i64::MAX {
                    Some(Timestamp { secs: end as i64 })
                } else {
                    None
                }
            },
            None => spec_month_ceil(t),
        }
    }

    /// `t` is a boundary of the grid of the timeframe. The periods of a
    /// calendar month lie on no grid, and every instant passes.
    #[verifier::opaque]
    pub open spec fn on_grid(self, t: Timestamp) -> bool {
        match self.spec_period_secs() {
            Some(step) => (t@ - self.spec_anchor()) % (step as int) == 0,
            None => true,
        }
    }

    /// The period that holds `t` does not begin after `t`.
    pub proof fn lemma_bar_start_not_after(self, t: Timestamp)
        ensures
            self.spec_bar_start(t) matches Some(start) ==> start@ <= t@,
    {
        reveal(grid_floor);
        if let Some(step) = self.spec_period_secs() {
            lemma_mod_bound(t@ - self.spec_anchor(), step as int);
        }
    }

    /// The period that holds `t` ends after `t`.
    pub proof fn lemma_next_bar_dt_after(self, t: Timestamp)
        ensures
            self.spec_next_bar_dt(t) matches Some(end) ==> t@ < end@,
    {
        reveal(grid_floor);
        if let Some(step) = self.spec_period_secs() {
            lemma_mod_bound(t@ - self.spec_anchor(), step as int);
        }
    }

    /// A period begins on the grid of the timeframe.
    pub proof fn lemma_bar_start_on_grid(self, t: Timestamp)
        ensures
            self.spec_bar_start(t) matches Some(start) ==> self.on_grid(start),
    {
        reveal(grid_floor);
        reveal(Timeframe::on_grid);
        if let Some(step) = self.spec_period_secs() {
            lemma_fundamental_div_mod(t@ - self.spec_anchor(), step as int);
            lemma_mod_multiples_basic((t@ - self.spec_anchor()) / (step as int), step as int);
        }
    }

    /// A period ends on the grid of the timeframe.
    pub proof fn lemma_next_bar_dt_lands_on_grid(self, t: Timestamp)
        ensures
            self.spec_next_bar_dt(t) matches Some(end) ==> self.on_grid(end),
    {
        reveal(grid_floor);
        reveal(Timeframe::on_grid);
        if let Some(step) = self.spec_period_secs() {
            lemma_fundamental_div_mod(t@ - self.spec_anchor(), step as int);
            lemma_mod_multiples_basic((t@ - self.spec_anchor()) / (step as int) + 1, step as int);
            assert(((t@ - self.spec_anchor()) / (step as int) + 1) * step == step * ((t@
                - self.spec_anchor()) / (step as int)) + step) by (nonlinear_arith);
        }
    }

    /// A period that begins on the grid of the timeframe ends on it, one
    /// step later.
    pub proof fn lemma_next_bar_dt_on_grid(self, start: Timestamp)
        requires
            self.on_grid(start),
        ensures
            self.spec_next_bar_dt(start) matches Some(end) ==> self.on_grid(end),
            self.spec_period_secs() matches Some(step) ==> self.spec_next_bar_dt(start) == (
                if start@ + step <= i64::MAX {
                    Some(Timestamp { secs: (start@ + step) as i64 })
                } else {
                    None
                }
            ),
    {
        reveal(grid_floor);
        reveal(Timeframe::on_grid);
        if let Some(step) = self.spec_period_secs() {
            lemma_mod_multiples_vanish(1, start@ - self.spec_anchor(), step as int);
        }
    }

    /// On a grid, the period that holds `t` is the one that begins at the
    /// grid point `start` when `t` is less than one step after `start`.
    pub proof fn lemma_period_of(self, start: Timestamp, t: Timestamp)
        requires
            self.on_grid(start),
            self.spec_period_secs() matches Some(step) && start@ <= t@ < start@ + step,
        ensures
            self.spec_bar_start(t) == Some(start),
            self.spec_next_bar_dt(t) == self.spec_next_bar_dt(start),
    {
        reveal(grid_floor);
        reveal(Timeframe::on_grid);
        let step = self.spec_period_secs()->Some_0 as int;
        let lead = start@ - self.spec_anchor();
        lemma_fundamental_div_mod(lead, step);
        lemma_mod_multiples_vanish(lead / step, t@ - start@, step);
        lemma_small_mod((t@ - start@) as nat, step as nat);
        assert(step * (lead / step) + (t@ - start@) == t@ - self.spec_anchor());
    }

    /// Among the grid points that are not after `t`, the beginning of the
    /// period that holds `t` is the latest.
    pub proof fn law_bar_start_is_latest(self, t: Timestamp, boundary: Timestamp)
        requires
            self.spec_period_secs() is Some,
            self.on_grid(boundary),
            boundary@ <= t@,
        ensures
            self.spec_bar_start(t) matches Some(start) && boundary@ <= start@,
    {
        reveal(grid_floor);
        reveal(Timeframe::on_grid);
        let step = self.spec_period_secs()->Some_0 as int;
        let anchor = self.spec_anchor() as int;
        let start = grid_floor(t@, step, anchor);
        lemma_mod_bound(t@ - anchor, step);
        if start < boundary@ {
            lemma_fundamental_div_mod(t@ - anchor, step);
            lemma_mod_multiples_basic((t@ - anchor) / step, step);
            lemma_sub_mod_noop(boundary@ - anchor, start - anchor, step);
            lemma_small_mod((boundary@ - start) as nat, step as nat);
        }
    }

    /// Among the grid points after `t`, the end of the period that holds
    /// `t` is the earliest.
    pub proof fn law_next_bar_dt_is_earliest(self, t: Timestamp, boundary: Timestamp)
        requires
            self.spec_period_secs() is Some,
            self.on_grid(boundary),
            t@ < boundary@,
        ensures
            self.spec_next_bar_dt(t) matches Some(end) && end@ <= boundary@,
    {
        reveal(grid_floor);
        reveal(Timeframe::on_grid);
        let step = self.spec_period_secs()->Some_0 as int;
        let anchor = self.spec_anchor() as int;
        let start = grid_floor(t@, step, anchor);
        lemma_mod_bound(t@ - anchor, step);
        if boundary@ < start + step {
            lemma_fundamental_div_mod(t@ - anchor, step);
            lemma_mod_multiples_basic((t@ - anchor) / step, step);
            lemma_sub_mod_noop(boundary@ - anchor, start - anchor, step);
            lemma_small_mod((boundary@ - start) as nat, step as nat);
        }
    }

    /// On a grid, a later instant lies in no earlier period: the beginning
    /// and the end of the period that holds an instant never move back as
    /// the instant moves on.
    pub proof fn law_periods_in_order(self, earlier: Timestamp, later: Timestamp)
        requires
            self.spec_period_secs() is Some,
            earlier@ <= later@,
        ensures
            (self.spec_bar_start(earlier), self.spec_bar_start(later)) matches (
                Some(first),
                Some(second),
            ) ==> first@ <= second@,
            (self.spec_next_bar_dt(earlier), self.spec_next_bar_dt(later)) matches (
                Some(first),
                Some(second),
            ) ==> first@ <= second@,
    {
        self.lemma_bar_start_not_after(earlier);
        self.lemma_bar_start_on_grid(earlier);
        if let Some(first) = self.spec_bar_start(earlier) {
            self.law_bar_start_is_latest(later, first);
        }
        self.lemma_next_bar_dt_after(later);
        if let Some(second) = self.spec_next_bar_dt(later) {
            self.lemma_next_bar_dt_lands_on_grid(later);
            self.law_next_bar_dt_is_earliest(earlier, second);
        }
    }

    /// What the clock and the calendar show at the grid points of the
    /// timeframe: a whole minute whose number in the hour is a multiple of
    /// the timeframe's minutes; a whole hour whose number in the day is a
    /// multiple of the timeframe's hours; midnight; midnight on a Monday.
    pub open spec fn on_the_clock(self, t: Timestamp) -> bool {
        match self {
            Timeframe::M1 => every_minutes(t, 1),
            Timeframe::M2 => every_minutes(t, 2),
            Timeframe::M3 => every_minutes(t, 3),
            Timeframe::M4 => every_minutes(t, 4),
            Timeframe::M5 => every_minutes(t, 5),
            Timeframe::M6 => every_minutes(t, 6),
            Timeframe::M10 => every_minutes(t, 10),
            Timeframe::M12 => every_minutes(t, 12),
            Timeframe::M15 => every_minutes(t, 15),
            Timeframe::M20 => every_minutes(t, 20),
            Timeframe::M30 => every_minutes(t, 30),
            Timeframe::H1 => every_hours(t, 1),
            Timeframe::H2 => every_hours(t, 2),
            Timeframe::H3 => every_hours(t, 3),
            Timeframe::H4 => every_hours(t, 4),
            Timeframe::H6 => every_hours(t, 6),
            Timeframe::H8 => every_hours(t, 8),
            Timeframe::H12 => every_hours(t, 12),
            Timeframe::D1 => every_hours(t, 24),
            Timeframe::W1 => every_hours(t, 24) && t.spec_days_since_monday() == 0,
            Timeframe::Mn1 => true,
        }
    }

    /// The grid of the timeframe is made of the instants that
    /// `on_the_clock` describes.
    pub proof fn law_grid_on_the_clock(self, t: Timestamp)
        ensures
            self.on_grid(t) == self.on_the_clock(t),
    {
        reveal(Timeframe::on_grid);
        match self {
            Timeframe::M1 => lemma_minutes_on_the_clock(t, 1, 60),
            Timeframe::M2 => lemma_minutes_on_the_clock(t, 2, 30),
            Timeframe::M3 => lemma_minutes_on_the_clock(t, 3, 20),
            Timeframe::M4 => lemma_minutes_on_the_clock(t, 4, 15),
            Timeframe::M5 => lemma_minutes_on_the_clock(t, 5, 12),
            Timeframe::M6 => lemma_minutes_on_the_clock(t, 6, 10),
            Timeframe::M10 => lemma_minutes_on_the_clock(t, 10, 6),
            Timeframe::M12 => lemma_minutes_on_the_clock(t, 12, 5),
            Timeframe::M15 => lemma_minutes_on_the_clock(t, 15, 4),
            Timeframe::M20 => lemma_minutes_on_the_clock(t, 20, 3),
            Timeframe::M30 => lemma_minutes_on_the_clock(t, 30, 2),
            Timeframe::H1 => lemma_hours_on_the_clock(t, 1, 24),
            Timeframe::H2 => lemma_hours_on_the_clock(t, 2, 12),
            Timeframe::H3 => lemma_hours_on_the_clock(t, 3, 8),
            Timeframe::H4 => lemma_hours_on_the_clock(t, 4, 6),
            Timeframe::H6 => lemma_hours_on_the_clock(t, 6, 4),
            Timeframe::H8 => lemma_hours_on_the_clock(t, 8, 3),
            Timeframe::H12 => lemma_hours_on_the_clock(t, 12, 2),
            Timeframe::D1 => lemma_hours_on_the_clock(t, 24, 1),
            Timeframe::W1 => {
                lemma_hours_on_the_clock(t, 24, 1);
                lemma_weeks_on_the_clock(t);
            },
            Timeframe::Mn1 => {},
        }
    }

    /// The timeframe with the short code `short`, which is written in
    /// capitals; `None` where no timeframe has that code.
    pub fn from_short(short: &str) -> (r: Option<Timeframe>)
        ensures
            match r {
                Some(tf) => tf.code() == short@,
                None => forall|tf: Timeframe| tf.code() != short@,
            },
    {
        let len = short.unicode_len();
        let found = if len == 2 {
            let unit = short.get_char(0);
            let count = short.get_char(1);
            if unit == 'M' {
                if count == '1' {
                    Some(Timeframe::M1)
                } else if count == '2' {
                    Some(Timeframe::M2)
                } else if count == '3' {
                    Some(Timeframe::M3)
                } else if count == '4' {
                    Some(Timeframe::M4)
                } else if count == '5' {
                    Some(Timeframe::M5)
                } else if count == '6' {
                    Some(Timeframe::M6)
                } else {
                    None
                }
            } else if unit == 'H' {
                if count == '1' {
                    Some(Timeframe::H1)
                } else if count == '2' {
                    Some(Timeframe::H2)
                } else if count == '3' {
                    Some(Timeframe::H3)
                } else if count == '4' {
                    Some(Timeframe::H4)
                } else if count == '6' {
                    Some(Timeframe::H6)
                } else if count == '8' {
                    Some(Timeframe::H8)
                } else {
                    None
                }
            } else if unit == 'D' && count == '1' {
                Some(Timeframe::D1)
            } else if unit == 'W' && count == '1' {
                Some(Timeframe::W1)
            } else {
                None
            }
        } else if len == 3 {
            let unit = short.get_char(0);
            let tens = short.get_char(1);
            let ones = short.get_char(2);
            if unit == 'M' && tens == '1' && ones == '0' {
                Some(Timeframe::M10)
            } else if unit == 'M' && tens == '1' && ones == '2' {
                Some(Timeframe::M12)
            } else if unit == 'M' && tens == '1' && ones == '5' {
                Some(Timeframe::M15)
            } else if unit == 'M' && tens == '2' && ones == '0' {
                Some(Timeframe::M20)
            } else if unit == 'M' && tens == '3' && ones == '0' {
                Some(Timeframe::M30)
            } else if unit == 'H' && tens == '1' && ones == '2' {
                Some(Timeframe::H12)
            } else if unit == 'M' && tens == 'N' && ones == '1' {
                Some(Timeframe::Mn1)
            } else {
                None
            }
        } else {
            None
        };
        proof {
            match found {
                Some(tf) => {
                    assert(tf.code() =~= short@);
                },
                None => {
                    assert forall|tf: Timeframe| tf.code() != short@ by {
                        let code = tf.code();
                        if code == short@ {
                            assert(code.len() == short@.len());
                            assert(code[0] == short@[0]);
                            assert(code[1] == short@[1]);
                            if len == 3 {
                                assert(code[2] == short@[2]);
                            }
                        }
                    }
                },
            }
        }
        found
    }

    /// The number of seconds in every period of the timeframe; `None` for
    /// calendar months.
    #[verifier::when_used_as_spec(spec_period_secs)]
    pub fn period_secs(self) -> (r: Option<i64>)
        ensures
            r == self.spec_period_secs(),
    {
        match self {
            Timeframe::M1 => Some(MINUTE),
            Timeframe::M2 => Some(2 * MINUTE),
            Timeframe::M3 => Some(3 * MINUTE),
            Timeframe::M4 => Some(4 * MINUTE),
            Timeframe::M5 => Some(5 * MINUTE),
            Timeframe::M6 => Some(6 * MINUTE),
            Timeframe::M10 => Some(10 * MINUTE),
            Timeframe::M12 => Some(12 * MINUTE),
            Timeframe::M15 => Some(15 * MINUTE),
            Timeframe::M20 => Some(20 * MINUTE),
            Timeframe::M30 => Some(30 * MINUTE),
            Timeframe::H1 => Some(HOUR),
            Timeframe::H2 => Some(2 * HOUR),
            Timeframe::H3 => Some(3 * HOUR),
            Timeframe::H4 => Some(4 * HOUR),
            Timeframe::H6 => Some(6 * HOUR),
            Timeframe::H8 => Some(8 * HOUR),
            Timeframe::H12 => Some(12 * HOUR),
            Timeframe::D1 => Some(DAY),
            Timeframe::W1 => Some(WEEK),
            Timeframe::Mn1 => None,
        }
    }

    /// An instant at which a period of the timeframe begins.
    #[verifier::when_used_as_spec(spec_anchor)]
    pub fn anchor(self) -> (r: i64)
        ensures
            r == self.spec_anchor(),
    {
        match self {
            Timeframe::W1 => 4 * DAY,
            _ => 0,
        }
    }

    /// The beginning of the period that holds `dt`.
    pub fn bar_start(self, dt: Timestamp) -> (r: Option<Timestamp>)
        ensures
            r == self.spec_bar_start(dt),
    {
        proof {
            reveal(grid_floor);
        }
        match self.period_secs() {
            Some(step) => {
                let behind = grid_offset(dt.secs, step, self.anchor());
                match dt.secs.checked_sub(behind) {
                    Some(start) => Some(Timestamp { secs: start }),
                    None => None,
                }
            },
            None => month_floor(dt),
        }
    }

    /// The end of the period that holds `dt`, which is where the next
    /// period begins.
    pub fn next_bar_dt(self, dt: Timestamp) -> (r: Option<Timestamp>)
        ensures
            r == self.spec_next_bar_dt(dt),
    {
        proof {
            reveal(grid_floor);
        }
        match self.period_secs() {
            Some(step) => {
                let ahead = step - grid_offset(dt.secs, step, self.anchor());
                match dt.secs.checked_add(ahead) {
                    Some(end) => Some(Timestamp { secs: end }),
                    None => None,
                }
            },
            None => month_ceil(dt),
        }
    }
}

} // verus!
