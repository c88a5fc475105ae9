use chrono::{DateTime, Datelike, NaiveDate, NaiveDateTime, TimeDelta, Timelike};
use timeframe::calendar::{begin_at, end_at, month_after, month_ceil, month_floor};
use timeframe::{Timeframe, Timestamp};

fn at(text: &str) -> Timestamp {
    let dt = NaiveDateTime::parse_from_str(text, "%Y-%m-%d %H:%M:%S").unwrap();
    Timestamp::new(dt.and_utc().timestamp())
}

fn naive(t: Timestamp) -> NaiveDateTime {
    DateTime::from_timestamp(t.secs(), 0).unwrap().naive_utc()
}

fn stamp(dt: NaiveDateTime) -> Timestamp {
    Timestamp::new(dt.and_utc().timestamp())
}

fn midnight(dt: NaiveDateTime) -> NaiveDateTime {
    dt.date().and_hms_opt(0, 0, 0).unwrap()
}

/// Instants from 1874 to 2065, a prime number of seconds apart.
fn sweep() -> Vec<Timestamp> {
    let mut out = Vec::new();
    let mut secs: i64 = -3_000_000_000;
    while secs < 3_000_000_000 {
        out.push(Timestamp::new(secs));
        secs += 7_654_321;
    }
    out
}

fn minute_frames() -> Vec<(Timeframe, u32)> {
    vec![
        (Timeframe::M1, 1),
        (Timeframe::M2, 2),
        (Timeframe::M3, 3),
        (Timeframe::M4, 4),
        (Timeframe::M5, 5),
        (Timeframe::M6, 6),
        (Timeframe::M10, 10),
        (Timeframe::M12, 12),
        (Timeframe::M15, 15),
        (Timeframe::M20, 20),
        (Timeframe::M30, 30),
    ]
}

fn hour_frames() -> Vec<(Timeframe, u32)> {
    vec![
        (Timeframe::H1, 1),
        (Timeframe::H2, 2),
        (Timeframe::H3, 3),
        (Timeframe::H4, 4),
        (Timeframe::H6, 6),
        (Timeframe::H8, 8),
        (Timeframe::H12, 12),
    ]
}

#[test]
fn minute_periods_follow_the_clock() {
    for (tf, period) in minute_frames() {
        for t in sweep() {
            let dt = naive(t);
            let start = dt
                .date()
                .and_hms_opt(dt.hour(), (dt.minute() / period) * period, 0)
                .unwrap();
            let ahead = (dt.minute() + (period - dt.minute() % period)) as i64;
            let end = dt.date().and_hms_opt(dt.hour(), 0, 0).unwrap()
                + TimeDelta::try_minutes(ahead).unwrap();
            assert_eq!(tf.bar_start(t), Some(stamp(start)), "{:?} {}", tf, dt);
            assert_eq!(tf.next_bar_dt(t), Some(stamp(end)), "{:?} {}", tf, dt);
        }
    }
}

#[test]
fn hour_periods_follow_the_clock() {
    for (tf, period) in hour_frames() {
        for t in sweep() {
            let dt = naive(t);
            let start = dt.date().and_hms_opt((dt.hour() / period) * period, 0, 0).unwrap();
            let ahead = (dt.hour() + (period - dt.hour() % period)) as i64;
            let end = midnight(dt) + TimeDelta::try_hours(ahead).unwrap();
            assert_eq!(tf.bar_start(t), Some(stamp(start)), "{:?} {}", tf, dt);
            assert_eq!(tf.next_bar_dt(t), Some(stamp(end)), "{:?} {}", tf, dt);
        }
    }
}

#[test]
fn day_periods_follow_the_calendar() {
    for t in sweep() {
        let dt = naive(t);
        let start = midnight(dt);
        let end = start + TimeDelta::try_days(1).unwrap();
        assert_eq!(Timeframe::D1.bar_start(t), Some(stamp(start)), "{}", dt);
        assert_eq!(Timeframe::D1.next_bar_dt(t), Some(stamp(end)), "{}", dt);
    }
}

#[test]
fn week_periods_begin_on_monday() {
    for t in sweep() {
        let dt = naive(t);
        let since_monday = dt.weekday().num_days_from_monday() as i64;
        let start = midnight(dt) - TimeDelta::try_days(since_monday).unwrap();
        let end = midnight(dt) + TimeDelta::try_days(7 - since_monday).unwrap();
        assert_eq!(start.weekday(), chrono::Weekday::Mon);
        assert_eq!(Timeframe::W1.bar_start(t), Some(stamp(start)), "{}", dt);
        assert_eq!(Timeframe::W1.next_bar_dt(t), Some(stamp(end)), "{}", dt);
    }
}

#[test]
fn month_periods_follow_the_calendar() {
    for t in sweep() {
        let dt = naive(t);
        let start = NaiveDate::from_ymd_opt(dt.year(), dt.month(), 1)
            .unwrap()
            .and_hms_opt(0, 0, 0)
            .unwrap();
        let end = if dt.month() == 12 {
            NaiveDate::from_ymd_opt(dt.year() + 1, 1, 1)
        } else {
            NaiveDate::from_ymd_opt(dt.year(), dt.month() + 1, 1)
        }
        .unwrap()
        .and_hms_opt(0, 0, 0)
        .unwrap();
        assert_eq!(Timeframe::Mn1.bar_start(t), Some(stamp(start)), "{}", dt);
        assert_eq!(Timeframe::Mn1.next_bar_dt(t), Some(stamp(end)), "{}", dt);
        assert_eq!(month_floor(t), Some(stamp(start)));
        assert_eq!(month_ceil(t), Some(stamp(end)));
    }
}

#[test]
fn boundaries_are_exact() {
    let t = at("2015-03-11 10:47:27");
    let expect = [
        (Timeframe::M1, "2015-03-11 10:47:00", "2015-03-11 10:48:00"),
        (Timeframe::M2, "2015-03-11 10:46:00", "2015-03-11 10:48:00"),
        (Timeframe::M3, "2015-03-11 10:45:00", "2015-03-11 10:48:00"),
        (Timeframe::M4, "2015-03-11 10:44:00", "2015-03-11 10:48:00"),
        (Timeframe::M5, "2015-03-11 10:45:00", "2015-03-11 10:50:00"),
        (Timeframe::M6, "2015-03-11 10:42:00", "2015-03-11 10:48:00"),
        (Timeframe::M10, "2015-03-11 10:40:00", "2015-03-11 10:50:00"),
        (Timeframe::M12, "2015-03-11 10:36:00", "2015-03-11 10:48:00"),
        (Timeframe::M15, "2015-03-11 10:45:00", "2015-03-11 11:00:00"),
        (Timeframe::M20, "2015-03-11 10:40:00", "2015-03-11 11:00:00"),
        (Timeframe::M30, "2015-03-11 10:30:00", "2015-03-11 11:00:00"),
        (Timeframe::H1, "2015-03-11 10:00:00", "2015-03-11 11:00:00"),
        (Timeframe::H2, "2015-03-11 10:00:00", "2015-03-11 12:00:00"),
        (Timeframe::H3, "2015-03-11 09:00:00", "2015-03-11 12:00:00"),
        (Timeframe::H4, "2015-03-11 08:00:00", "2015-03-11 12:00:00"),
        (Timeframe::H6, "2015-03-11 06:00:00", "2015-03-11 12:00:00"),
        (Timeframe::H8, "2015-03-11 08:00:00", "2015-03-11 16:00:00"),
        (Timeframe::H12, "2015-03-11 00:00:00", "2015-03-11 12:00:00"),
        (Timeframe::D1, "2015-03-11 00:00:00", "2015-03-12 00:00:00"),
        (Timeframe::W1, "2015-03-09 00:00:00", "2015-03-16 00:00:00"),
        (Timeframe::Mn1, "2015-03-01 00:00:00", "2015-04-01 00:00:00"),
    ];
    for (tf, start, end) in expect {
        assert_eq!(tf.bar_start(t), Some(at(start)), "{:?}", tf);
        assert_eq!(tf.next_bar_dt(t), Some(at(end)), "{:?}", tf);
        // a boundary begins its own period
        assert_eq!(tf.bar_start(at(start)), Some(at(start)), "{:?}", tf);
        assert_eq!(tf.next_bar_dt(at(start)), Some(at(end)), "{:?}", tf);
        // the last second of the period is still in it
        let last = Timestamp::new(at(end).secs() - 1);
        assert_eq!(tf.bar_start(last), Some(at(start)), "{:?}", tf);
        assert_eq!(tf.next_bar_dt(last), Some(at(end)), "{:?}", tf);
    }
}

#[test]
fn periods_roll_over_midnight_and_new_year() {
    let t = at("2019-12-31 23:59:59");
    let new_year = Some(at("2020-01-01 00:00:00"));
    for (tf, _) in minute_frames() {
        assert_eq!(tf.next_bar_dt(t), new_year);
    }
    for (tf, _) in hour_frames() {
        assert_eq!(tf.next_bar_dt(t), new_year);
    }
    assert_eq!(Timeframe::D1.next_bar_dt(t), new_year);
    assert_eq!(Timeframe::Mn1.next_bar_dt(t), new_year);
    // 2019-12-30 was a Monday
    assert_eq!(Timeframe::W1.bar_start(t), Some(at("2019-12-30 00:00:00")));
    assert_eq!(Timeframe::W1.next_bar_dt(t), Some(at("2020-01-06 00:00:00")));
}

#[test]
fn periods_before_1970() {
    let t = at("1969-12-31 23:59:59");
    assert_eq!(t.secs(), -1);
    assert_eq!(Timeframe::M15.bar_start(t), Some(at("1969-12-31 23:45:00")));
    assert_eq!(Timeframe::M15.next_bar_dt(t), Some(Timestamp::new(0)));
    assert_eq!(Timeframe::H8.bar_start(t), Some(at("1969-12-31 16:00:00")));
    assert_eq!(Timeframe::D1.bar_start(t), Some(at("1969-12-31 00:00:00")));
    // 1969-12-29 was a Monday
    assert_eq!(Timeframe::W1.bar_start(t), Some(at("1969-12-29 00:00:00")));
    assert_eq!(Timeframe::W1.next_bar_dt(t), Some(at("1970-01-05 00:00:00")));
    assert_eq!(Timeframe::Mn1.bar_start(t), Some(at("1969-12-01 00:00:00")));
    assert_eq!(Timeframe::Mn1.next_bar_dt(t), Some(Timestamp::new(0)));
    assert_eq!(Timeframe::W1.bar_start(Timestamp::new(0)), Some(at("1969-12-29 00:00:00")));
    assert_eq!(Timeframe::W1.bar_start(at("1970-01-05 00:00:00")), Some(at("1970-01-05 00:00:00")));
}

#[test]
fn months_have_their_own_lengths() {
    assert_eq!(Timeframe::Mn1.bar_start(at("2020-02-29 12:00:00")), Some(at("2020-02-01 00:00:00")));
    assert_eq!(Timeframe::Mn1.next_bar_dt(at("2020-02-29 12:00:00")), Some(at("2020-03-01 00:00:00")));
    assert_eq!(Timeframe::Mn1.next_bar_dt(at("2021-02-28 23:59:59")), Some(at("2021-03-01 00:00:00")));
    assert_eq!(Timeframe::Mn1.next_bar_dt(at("1900-02-28 23:59:59")), Some(at("1900-03-01 00:00:00")));
    assert_eq!(Timeframe::Mn1.next_bar_dt(at("2000-02-28 23:59:59")), Some(at("2000-03-01 00:00:00")));
    assert_eq!(Timeframe::Mn1.next_bar_dt(at("2021-04-30 00:00:00")), Some(at("2021-05-01 00:00:00")));
    assert_eq!(Timeframe::Mn1.bar_start(at("2021-05-01 00:00:00")), Some(at("2021-05-01 00:00:00")));
}

#[test]
fn boundaries_that_cannot_be_written() {
    let last = Timestamp::new(i64::MAX);
    let first = Timestamp::new(i64::MIN);
    assert_eq!(Timeframe::M1.next_bar_dt(last), None);
    assert_eq!(Timeframe::M1.bar_start(last), Some(Timestamp::new(i64::MAX - i64::MAX % 60)));
    assert_eq!(Timeframe::W1.next_bar_dt(last), None);
    assert_eq!(Timeframe::D1.bar_start(first), None);
    assert_eq!(Timeframe::W1.bar_start(first), None);
    assert_eq!(
        Timeframe::D1.next_bar_dt(first),
        Some(Timestamp::new(i64::MIN + (86_400 - i64::MIN.rem_euclid(86_400))))
    );
    // a minute boundary itself
    let edge = i64::MAX - i64::MAX % 60;
    assert_eq!(Timeframe::M1.bar_start(Timestamp::new(edge)), Some(Timestamp::new(edge)));
    assert_eq!(Timeframe::M1.next_bar_dt(Timestamp::new(edge - 1)), Some(Timestamp::new(edge)));
    assert_eq!(Timeframe::M1.next_bar_dt(Timestamp::new(edge)), None);
    // the calendar has no date for these
    assert_eq!(Timeframe::Mn1.bar_start(last), None);
    assert_eq!(Timeframe::Mn1.next_bar_dt(last), None);
    assert_eq!(Timeframe::Mn1.bar_start(first), None);
    assert_eq!(Timeframe::Mn1.next_bar_dt(first), None);
}

#[test]
fn the_last_month_of_the_calendar_has_no_end() {
    let last_day = NaiveDate::MAX.and_hms_opt(12, 0, 0).unwrap();
    let t = stamp(last_day);
    let december = NaiveDate::from_ymd_opt(last_day.year(), 12, 1)
        .unwrap()
        .and_hms_opt(0, 0, 0)
        .unwrap();
    assert_eq!(Timeframe::Mn1.bar_start(t), Some(stamp(december)));
    assert_eq!(Timeframe::Mn1.next_bar_dt(t), None);
}

#[test]
fn month_after_rolls_over_in_december() {
    assert_eq!(month_after(2020, 1), Some((2020, 2)));
    assert_eq!(month_after(2020, 11), Some((2020, 12)));
    assert_eq!(month_after(2020, 12), Some((2021, 1)));
    assert_eq!(month_after(-1, 12), Some((0, 1)));
    assert_eq!(month_after(i32::MAX, 11), Some((i32::MAX, 12)));
    assert_eq!(month_after(i32::MAX, 12), None);
    assert_eq!(month_after(2020, 0), None);
    assert_eq!(month_after(2020, 13), None);
    assert_eq!(month_after(2020, u32::MAX), None);
}

#[test]
fn bounds_are_checked_against_the_tick() {
    let t = Timestamp::new(1_000);
    assert_eq!(begin_at(Some(1_000), t), Some(Timestamp::new(1_000)));
    assert_eq!(begin_at(Some(999), t), Some(Timestamp::new(999)));
    assert_eq!(begin_at(Some(1_001), t), None);
    assert_eq!(begin_at(None, t), None);
    assert_eq!(end_at(Some(1_001), t), Some(Timestamp::new(1_001)));
    assert_eq!(end_at(Some(1_000), t), None);
    assert_eq!(end_at(Some(999), t), None);
    assert_eq!(end_at(None, t), None);
}

#[test]
fn clock_readings_agree_with_the_calendar() {
    for t in sweep() {
        let dt = naive(t);
        assert_eq!(t.second(), dt.second() as i64, "{}", dt);
        assert_eq!(t.minute(), dt.minute() as i64, "{}", dt);
        assert_eq!(t.hour(), dt.hour() as i64, "{}", dt);
        assert_eq!(
            t.days_since_monday(),
            dt.weekday().num_days_from_monday() as i64,
            "{}",
            dt
        );
    }
    let t = at("2015-03-11 10:47:27");
    assert_eq!((t.hour(), t.minute(), t.second()), (10, 47, 27));
    // a Wednesday
    assert_eq!(t.days_since_monday(), 2);
    let before = at("1969-12-28 23:59:59");
    assert_eq!((before.hour(), before.minute(), before.second()), (23, 59, 59));
    // a Sunday
    assert_eq!(before.days_since_monday(), 6);
    let first = Timestamp::new(i64::MIN);
    assert!((0..60).contains(&first.second()));
    assert!((0..60).contains(&first.minute()));
    assert!((0..24).contains(&first.hour()));
    assert!((0..7).contains(&first.days_since_monday()));
    let last = Timestamp::new(i64::MAX);
    assert_eq!(last.second(), i64::MAX % 60);
    assert_eq!(last.minute(), (i64::MAX / 60) % 60);
    assert_eq!(last.hour(), (i64::MAX / 3_600) % 24);
    assert_eq!(last.days_since_monday(), (i64::MAX / 86_400 + 3) % 7);
}
