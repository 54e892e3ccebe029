//! Tests of the time-bucket allocator.

use stechuhr::date_ext::Date;
use stechuhr::statistics::StatisticsError;
use stechuhr::time_eval::{DurationSMLabel, WorkDuration};

/// Example split: working 18:00 to 20:30, then 23:00 to 02:00 the next day,
/// then 03:00 to 05:00, with the buckets 04:00-20:00, 20:00-24:00 and
/// 00:00-04:00, yields 180, 90 and 180 minutes.
#[test]
fn example_three_shifts() {
    let shift1 = WorkDuration::from_start_end_time(
        Date::from_ymd(2000, 1, 1).and_hms(18, 0, 0),
        Date::from_ymd(2000, 1, 1).and_hms(20, 30, 0),
    );
    let shift2 = WorkDuration::from_start_end_time(
        Date::from_ymd(2000, 1, 1).and_hms(23, 0, 0),
        Date::from_ymd(2000, 1, 2).and_hms(2, 0, 0),
    );
    let shift3 = WorkDuration::from_start_end_time(
        Date::from_ymd(2000, 1, 2).and_hms(3, 0, 0),
        Date::from_ymd(2000, 1, 2).and_hms(5, 0, 0),
    );
    let total = shift1.checked_add(&shift2).unwrap().checked_add(&shift3).unwrap();
    assert_eq!(total.num_minutes(), [180, 90, 180]);
}

/// Allocator additivity on concrete values: splitting a span anywhere and
/// allocating the parts gives the same buckets as allocating the whole.
#[test]
fn additive_split() {
    let start = Date::from_ymd(2000, 1, 1).and_hms(18, 0, 0);
    let mid = Date::from_ymd(2000, 1, 2).and_hms(2, 17, 45);
    let end = Date::from_ymd(2000, 1, 3).and_hms(11, 5, 9);

    let whole = WorkDuration::from_start_end_time(start, end);
    let parts = WorkDuration::from_start_end_time(start, mid)
        .checked_add(&WorkDuration::from_start_end_time(mid, end))
        .unwrap();
    assert_eq!(whole, parts);
}

/// Allocator conservation on concrete values: the buckets of a span sum to
/// its length in seconds, across midnights and bucket boundaries.
#[test]
fn conservation() {
    let start = Date::from_ymd(2000, 1, 1).and_hms(18, 0, 0);
    let end = Date::from_ymd(2000, 1, 3).and_hms(11, 5, 9);
    let w = WorkDuration::from_start_end_time(start, end);
    let expected = (24 + 17) * 3600 + 5 * 60 + 9;
    assert_eq!(w.0 + w.1 + w.2, expected);
}

/// A whole day gives each bucket exactly its daily span, wherever it starts.
#[test]
fn full_day_is_periodic() {
    let start = Date::from_ymd(2000, 1, 1).and_hms(13, 22, 7);
    let end = Date::from_ymd(2000, 1, 2).and_hms(13, 22, 7);
    let w = WorkDuration::from_start_end_time(start, end);
    assert_eq!(w.0, 16 * 3600);
    assert_eq!(w.1, 4 * 3600);
    assert_eq!(w.2, 4 * 3600);
}

/// A span inside one bucket fills that bucket alone.
#[test]
fn single_bucket_span() {
    let w = WorkDuration::from_start_end_time(
        Date::from_ymd(2000, 1, 1).and_hms(8, 0, 0),
        Date::from_ymd(2000, 1, 1).and_hms(9, 30, 0),
    );
    assert_eq!(w, WorkDuration(5400, 0, 0));
}

/// Whole minutes truncate the leftover seconds.
#[test]
fn minutes_truncate() {
    let w = WorkDuration::from_start_end_time(
        Date::from_ymd(2000, 1, 1).and_hms(8, 0, 0),
        Date::from_ymd(2000, 1, 1).and_hms(8, 0, 59),
    );
    assert_eq!(w.num_minutes(), [0, 0, 0]);
    assert_eq!(w.0, 59);
}

#[test]
fn zero_duration() {
    let w = WorkDuration::zero();
    assert_eq!(w, WorkDuration(0, 0, 0));
    assert_eq!(w.num_minutes(), [0, 0, 0]);
}

/// An overflowing bucket sum names the two counts that clashed.
#[test]
fn checked_add_overflow() {
    let a = WorkDuration(u64::MAX, 0, 0);
    let b = WorkDuration(1, 2, 3);
    assert_eq!(a.checked_add(&b), Err(StatisticsError::DurationError(1, u64::MAX)));

    let c = WorkDuration(5, u64::MAX - 1, 0);
    let d = WorkDuration(1, 2, 3);
    assert_eq!(c.checked_add(&d), Err(StatisticsError::DurationError(2, u64::MAX - 1)));

    let e = WorkDuration(1, 2, 3);
    let f = WorkDuration(10, 20, 30);
    assert_eq!(e.checked_add(&f), Ok(WorkDuration(11, 22, 33)));
}

/// The three daily time periods and their places in the day cycle.
#[test]
fn labels() {
    assert_eq!(DurationSMLabel::from_absolute_seconds(0), DurationSMLabel::L24_4);
    assert_eq!(DurationSMLabel::from_absolute_seconds(4 * 3600 - 1), DurationSMLabel::L24_4);
    assert_eq!(DurationSMLabel::from_absolute_seconds(4 * 3600), DurationSMLabel::L4_20);
    assert_eq!(DurationSMLabel::from_absolute_seconds(20 * 3600 - 1), DurationSMLabel::L4_20);
    assert_eq!(DurationSMLabel::from_absolute_seconds(20 * 3600), DurationSMLabel::L20_24);
    assert_eq!(DurationSMLabel::from_absolute_seconds(24 * 3600 - 1), DurationSMLabel::L20_24);

    assert_eq!(DurationSMLabel::L4_20.to_duration_seconds(), 16 * 3600);
    assert_eq!(DurationSMLabel::L20_24.to_duration_seconds(), 4 * 3600);
    assert_eq!(DurationSMLabel::L24_4.to_duration_seconds(), 4 * 3600);

    assert_eq!(DurationSMLabel::L4_20.to_start_seconds(), 4 * 3600);
    assert_eq!(DurationSMLabel::L20_24.to_start_seconds(), 20 * 3600);
    assert_eq!(DurationSMLabel::L24_4.to_start_seconds(), 0);
}
