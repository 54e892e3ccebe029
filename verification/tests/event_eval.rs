//! Tests of the per-member processor and the whole-staff evaluation.

use stechuhr::date_ext::Date;
use stechuhr::event_eval::{evaluate_hours_for_events, visible_raw_staff};
use stechuhr::models::{DBStaffMember, StaffMember, WorkEvent, WorkEventT, WorkStatus};
use stechuhr::statistics::SoftStatisticsError;
use stechuhr::time::Timestamp;
use stechuhr::StechuhrError;

fn aaron() -> DBStaffMember {
    DBStaffMember::new(
        1,
        String::from("Aaron"),
        String::from("1111"),
        String::from("1111111111"),
        true,
    )
}

/// evaluate_hours_for_events where staff member has no StatusChange events.
#[test]
fn zero_worktime() {
    let raw_staff = vec![aaron()];
    let events = vec![];
    let previous_events = vec![];
    let start_time = Date::from_ymd(2000, 1, 1).and_hms(20, 0, 0);

    let hours =
        evaluate_hours_for_events(raw_staff, &events, &previous_events, start_time).unwrap();

    assert!(hours.errors().is_empty());

    assert_eq!(hours.hours()[0].minutes_1, 0);
    assert_eq!(hours.hours()[0].minutes_2, 0);
    assert_eq!(hours.hours()[0].minutes_3, 0);
}

/// evaluate_hours_for_events where staff member has some worktime in all slots.
#[test]
fn normal_worktime() {
    let raw_staff = vec![aaron()];
    let events = vec![
        WorkEventT::new(
            1,
            Date::from_ymd(2000, 1, 1).and_hms(18, 0, 0),
            WorkEvent::StatusChange(1, String::from("Aaron"), WorkStatus::Working),
        ),
        WorkEventT::new(
            2,
            Date::from_ymd(2000, 1, 1).and_hms(20, 30, 0),
            WorkEvent::StatusChange(1, String::from("Aaron"), WorkStatus::Away),
        ),
        WorkEventT::new(
            3,
            Date::from_ymd(2000, 1, 1).and_hms(23, 0, 0),
            WorkEvent::StatusChange(1, String::from("Aaron"), WorkStatus::Working),
        ),
        WorkEventT::new(
            4,
            Date::from_ymd(2000, 1, 2).and_hms(2, 0, 0),
            WorkEvent::StatusChange(1, String::from("Aaron"), WorkStatus::Away),
        ),
        WorkEventT::new(
            5,
            Date::from_ymd(2000, 1, 2).and_hms(3, 0, 0),
            WorkEvent::StatusChange(1, String::from("Aaron"), WorkStatus::Working),
        ),
        WorkEventT::new(
            6,
            Date::from_ymd(2000, 1, 2).and_hms(5, 0, 0),
            WorkEvent::StatusChange(1, String::from("Aaron"), WorkStatus::Away),
        ),
    ];
    let previous_events = vec![];
    let start_time = Date::from_ymd(2000, 1, 1).and_hms(6, 0, 0);

    let hours =
        evaluate_hours_for_events(raw_staff, &events, &previous_events, start_time).unwrap();

    assert!(hours.errors().is_empty());

    assert_eq!(hours.hours()[0].minutes_1, 3 * 60);
    assert_eq!(hours.hours()[0].minutes_2, 1 * 60 + 30);
    assert_eq!(hours.hours()[0].minutes_3, 3 * 60);
}

/// evaluate_hours_for_events where staff member has been working before the time starts.
#[test]
fn worktime_start() {
    let raw_staff = vec![aaron()];
    let events = vec![WorkEventT::new(
        2,
        Date::from_ymd(2000, 1, 2).and_hms(1, 0, 0),
        WorkEvent::StatusChange(1, String::from("Aaron"), WorkStatus::Away),
    )];
    let previous_events = vec![WorkEventT::new(
        1,
        Date::from_ymd(2000, 1, 1).and_hms(18, 0, 0),
        WorkEvent::StatusChange(1, String::from("Aaron"), WorkStatus::Working),
    )];
    let start_time = Date::from_ymd(2000, 1, 1).and_hms(19, 0, 0);

    let hours =
        evaluate_hours_for_events(raw_staff, &events, &previous_events, start_time).unwrap();

    assert!(hours.errors().is_empty());

    assert_eq!(hours.hours()[0].minutes_1, 1 * 60);
    assert_eq!(hours.hours()[0].minutes_2, 4 * 60);
    assert_eq!(hours.hours()[0].minutes_3, 1 * 60);
}

/// evaluate_hours_for_events where staff member works through a 6am barrier.
/// The half-open interval `[05:00:00, 05:59:59)` holds 3599 seconds, so 59
/// whole minutes are credited.
#[test]
fn error_worktime_6am() {
    let raw_staff = vec![aaron()];
    let events = vec![
        WorkEventT::new(
            1,
            Date::from_ymd(2000, 1, 2).and_hms(5, 0, 0),
            WorkEvent::StatusChange(1, String::from("Aaron"), WorkStatus::Working),
        ),
        WorkEventT::new(2, Date::from_ymd(2000, 1, 2).and_hms(5, 59, 59), WorkEvent::_6am),
    ];
    let previous_events = vec![];
    let start_time = Date::from_ymd(2000, 1, 1).and_hms(6, 0, 0);

    let hours =
        evaluate_hours_for_events(raw_staff, &events, &previous_events, start_time).unwrap();

    assert_eq!(
        hours.errors()[0],
        SoftStatisticsError::StaffStillWorking(
            Date::from_ymd(2000, 1, 2).and_hms(5, 59, 59),
            String::from("Aaron")
        )
    );

    assert_eq!(hours.hours()[0].minutes_1, 59);
    assert_eq!(hours.hours()[0].minutes_2, 0);
    assert_eq!(hours.hours()[0].minutes_3, 0);
}

/// evaluate_hours_for_events where staff member has two consecutive StatusChange events to Working.
/// Worked time spans `[05:00:00, 05:59:59)`: 3599 seconds, 59 whole minutes,
/// counted once from the first Working event.
#[test]
fn error_worktime_already_working() {
    let raw_staff = vec![aaron()];
    let events = vec![
        WorkEventT::new(
            1,
            Date::from_ymd(2000, 1, 2).and_hms(5, 0, 0),
            WorkEvent::StatusChange(1, String::from("Aaron"), WorkStatus::Working),
        ),
        WorkEventT::new(
            2,
            Date::from_ymd(2000, 1, 2).and_hms(5, 30, 0),
            WorkEvent::StatusChange(1, String::from("Aaron"), WorkStatus::Working),
        ),
        WorkEventT::new(3, Date::from_ymd(2000, 1, 2).and_hms(5, 59, 59), WorkEvent::_6am),
    ];
    let previous_events = vec![];
    let start_time = Date::from_ymd(2000, 1, 1).and_hms(6, 0, 0);

    let hours =
        evaluate_hours_for_events(raw_staff, &events, &previous_events, start_time).unwrap();

    assert_eq!(
        hours.errors()[0],
        SoftStatisticsError::AlreadyWorking(
            Date::from_ymd(2000, 1, 2).and_hms(5, 30, 00),
            String::from("Aaron")
        )
    );

    assert_eq!(hours.hours()[0].minutes_1, 59);
    assert_eq!(hours.hours()[0].minutes_2, 0);
    assert_eq!(hours.hours()[0].minutes_3, 0);
}

/// evaluate_hours_for_events where staff member has two consecutive StatusChange events to Away.
#[test]
fn error_worktime_already_away() {
    let raw_staff = vec![aaron()];
    let events = vec![
        WorkEventT::new(
            1,
            Date::from_ymd(2000, 1, 2).and_hms(5, 0, 0),
            WorkEvent::StatusChange(1, String::from("Aaron"), WorkStatus::Working),
        ),
        WorkEventT::new(
            2,
            Date::from_ymd(2000, 1, 2).and_hms(5, 30, 0),
            WorkEvent::StatusChange(1, String::from("Aaron"), WorkStatus::Away),
        ),
        WorkEventT::new(
            3,
            Date::from_ymd(2000, 1, 2).and_hms(5, 45, 0),
            WorkEvent::StatusChange(1, String::from("Aaron"), WorkStatus::Away),
        ),
    ];
    let previous_events = vec![];
    let start_time = Date::from_ymd(2000, 1, 1).and_hms(6, 0, 0);

    let hours =
        evaluate_hours_for_events(raw_staff, &events, &previous_events, start_time).unwrap();

    assert_eq!(
        hours.errors()[0],
        SoftStatisticsError::AlreadyAway(
            Date::from_ymd(2000, 1, 2).and_hms(5, 45, 00),
            String::from("Aaron")
        )
    );

    assert_eq!(hours.hours()[0].minutes_1, 30);
    assert_eq!(hours.hours()[0].minutes_2, 0);
    assert_eq!(hours.hours()[0].minutes_3, 0);
}

/// The legacy manual close-out while working: an anomaly is recorded, but the
/// member keeps working and the later sign-off credits the whole span.
#[test]
fn event_over_while_working() {
    let raw_staff = vec![aaron()];
    let events = vec![
        WorkEventT::new(
            1,
            Date::from_ymd(2000, 1, 1).and_hms(18, 0, 0),
            WorkEvent::StatusChange(1, String::from("Aaron"), WorkStatus::Working),
        ),
        WorkEventT::new(2, Date::from_ymd(2000, 1, 1).and_hms(18, 30, 0), WorkEvent::EventOver),
        WorkEventT::new(
            3,
            Date::from_ymd(2000, 1, 1).and_hms(19, 0, 0),
            WorkEvent::StatusChange(1, String::from("Aaron"), WorkStatus::Away),
        ),
    ];
    let previous_events = vec![];
    let start_time = Date::from_ymd(2000, 1, 1).and_hms(6, 0, 0);

    let hours =
        evaluate_hours_for_events(raw_staff, &events, &previous_events, start_time).unwrap();

    assert_eq!(
        hours.errors()[0],
        SoftStatisticsError::EventOverWhileWorking(
            Date::from_ymd(2000, 1, 1).and_hms(18, 30, 0),
            String::from("Aaron")
        )
    );

    assert_eq!(hours.hours()[0].minutes_1, 60);
    assert_eq!(hours.hours()[0].minutes_2, 0);
    assert_eq!(hours.hours()[0].minutes_3, 0);
}

/// Events of other members, informational entries and errors are ignored.
#[test]
fn other_members_ignored() {
    let raw_staff = vec![aaron()];
    let events = vec![
        WorkEventT::new(
            1,
            Date::from_ymd(2000, 1, 1).and_hms(18, 0, 0),
            WorkEvent::StatusChange(1, String::from("Aaron"), WorkStatus::Working),
        ),
        WorkEventT::new(
            2,
            Date::from_ymd(2000, 1, 1).and_hms(18, 10, 0),
            WorkEvent::StatusChange(2, String::from("Beeron"), WorkStatus::Working),
        ),
        WorkEventT::new(
            3,
            Date::from_ymd(2000, 1, 1).and_hms(18, 20, 0),
            WorkEvent::Info(String::from("note")),
        ),
        WorkEventT::new(
            4,
            Date::from_ymd(2000, 1, 1).and_hms(18, 30, 0),
            WorkEvent::Error(String::from("bad")),
        ),
        WorkEventT::new(
            5,
            Date::from_ymd(2000, 1, 1).and_hms(19, 0, 0),
            WorkEvent::StatusChange(1, String::from("Aaron"), WorkStatus::Away),
        ),
    ];
    let previous_events = vec![];
    let start_time = Date::from_ymd(2000, 1, 1).and_hms(6, 0, 0);

    let hours =
        evaluate_hours_for_events(raw_staff, &events, &previous_events, start_time).unwrap();

    assert!(hours.errors().is_empty());
    assert_eq!(hours.hours()[0].minutes_1, 60);
}

/// A work interval that ends exactly where it begins is fatal: the whole
/// evaluation aborts with an empty-interval error.
#[test]
fn empty_interval_is_fatal() {
    let raw_staff = vec![aaron()];
    let start_time = Date::from_ymd(2000, 1, 1).and_hms(6, 0, 0);
    // The member is already working when the period starts, and is signed off
    // in the very first second of the period.
    let previous_events = vec![WorkEventT::new(
        1,
        Date::from_ymd(2000, 1, 1).and_hms(5, 0, 0),
        WorkEvent::StatusChange(1, String::from("Aaron"), WorkStatus::Working),
    )];
    let events = vec![WorkEventT::new(
        2,
        Date::from_ymd(2000, 1, 1).and_hms(6, 0, 0),
        WorkEvent::StatusChange(1, String::from("Aaron"), WorkStatus::Away),
    )];

    let result = evaluate_hours_for_events(raw_staff, &events, &previous_events, start_time);

    match result {
        Err(StechuhrError::Statistics(
            stechuhr::statistics::StatisticsError::EmptyInterval(from, to),
        )) => {
            assert_eq!(from, start_time);
            assert_eq!(to, start_time);
        },
        other => panic!("expected a fatal empty-interval error, got {:?}", other),
    }
}

/// Idempotent re-evaluation: two runs over the same snapshots produce the
/// identical report.
#[test]
fn evaluation_is_idempotent() {
    let events = vec![
        WorkEventT::new(
            1,
            Date::from_ymd(2000, 1, 1).and_hms(18, 0, 0),
            WorkEvent::StatusChange(1, String::from("Aaron"), WorkStatus::Working),
        ),
        WorkEventT::new(
            2,
            Date::from_ymd(2000, 1, 1).and_hms(20, 30, 0),
            WorkEvent::StatusChange(1, String::from("Aaron"), WorkStatus::Away),
        ),
    ];
    let previous_events = vec![];
    let start_time = Date::from_ymd(2000, 1, 1).and_hms(6, 0, 0);

    let first =
        evaluate_hours_for_events(vec![aaron()], &events, &previous_events, start_time).unwrap();
    let second =
        evaluate_hours_for_events(vec![aaron()], &events, &previous_events, start_time).unwrap();

    assert_eq!(first, second);
}

/// An empty staff list evaluates to an empty report.
#[test]
fn empty_staff() {
    let events = vec![WorkEventT::new(
        1,
        Date::from_ymd(2000, 1, 1).and_hms(18, 0, 0),
        WorkEvent::StatusChange(1, String::from("Aaron"), WorkStatus::Working),
    )];
    let start_time = Date::from_ymd(2000, 1, 1).and_hms(6, 0, 0);
    let hours = evaluate_hours_for_events(vec![], &events, &[], start_time).unwrap();
    assert!(hours.hours().is_empty());
    assert!(hours.errors().is_empty());
}

/// A member marked Working at 18:00 with no further events before the next
/// day's boundary at 05:59:59: one anomaly, and the span `[18:00, 05:59:59)`
/// is still credited — 239, 240 and 240 whole minutes.
#[test]
fn still_working_at_boundary_overnight() {
    let raw_staff = vec![aaron()];
    let events = vec![
        WorkEventT::new(
            1,
            Date::from_ymd(2000, 1, 1).and_hms(18, 0, 0),
            WorkEvent::StatusChange(1, String::from("Aaron"), WorkStatus::Working),
        ),
        WorkEventT::new(2, Date::from_ymd(2000, 1, 2).and_hms(5, 59, 59), WorkEvent::_6am),
    ];
    let previous_events = vec![];
    let start_time = Date::from_ymd(2000, 1, 1).and_hms(6, 0, 0);

    let hours =
        evaluate_hours_for_events(raw_staff, &events, &previous_events, start_time).unwrap();

    assert_eq!(hours.errors().len(), 1);
    assert_eq!(
        hours.errors()[0],
        SoftStatisticsError::StaffStillWorking(
            Date::from_ymd(2000, 1, 2).and_hms(5, 59, 59),
            String::from("Aaron")
        )
    );
    assert_eq!(hours.hours()[0].minutes_1, 239);
    assert_eq!(hours.hours()[0].minutes_2, 240);
    assert_eq!(hours.hours()[0].minutes_3, 240);
}

/// Rows come in staff order and anomalies in staff order, each member's in
/// event order.
#[test]
fn two_members_in_order() {
    let raw_staff = vec![
        aaron(),
        DBStaffMember::new(
            2,
            String::from("Beeron"),
            String::from("2222"),
            String::from("2222222222"),
            true,
        ),
    ];
    let events = vec![
        WorkEventT::new(
            1,
            Date::from_ymd(2000, 1, 1).and_hms(18, 0, 0),
            WorkEvent::StatusChange(2, String::from("Beeron"), WorkStatus::Working),
        ),
        WorkEventT::new(
            2,
            Date::from_ymd(2000, 1, 1).and_hms(18, 30, 0),
            WorkEvent::StatusChange(1, String::from("Aaron"), WorkStatus::Away),
        ),
        WorkEventT::new(
            3,
            Date::from_ymd(2000, 1, 1).and_hms(19, 0, 0),
            WorkEvent::StatusChange(2, String::from("Beeron"), WorkStatus::Away),
        ),
    ];
    let previous_events = vec![];
    let start_time = Date::from_ymd(2000, 1, 1).and_hms(6, 0, 0);

    let hours =
        evaluate_hours_for_events(raw_staff, &events, &previous_events, start_time).unwrap();

    assert_eq!(hours.hours().len(), 2);
    assert_eq!(hours.hours()[0].name, "Aaron");
    assert_eq!(hours.hours()[0].minutes_1, 0);
    assert_eq!(hours.hours()[1].name, "Beeron");
    assert_eq!(hours.hours()[1].minutes_1, 60);

    assert_eq!(
        hours.errors()[0],
        SoftStatisticsError::AlreadyAway(
            Date::from_ymd(2000, 1, 1).and_hms(18, 30, 0),
            String::from("Aaron")
        )
    );
}

/// Only visible members take part in an evaluation: the raw-staff filter
/// keeps them in order and forgets the derived statuses.
#[test]
fn invisible_members_filtered() {
    let staff: Vec<StaffMember> = vec![
        aaron().with_status(WorkStatus::Working),
        DBStaffMember::new(
            2,
            String::from("Beeron"),
            String::from("2222"),
            String::from("2222222222"),
            false,
        )
        .with_status(WorkStatus::Away),
        DBStaffMember::new(
            3,
            String::from("Ceeron"),
            String::from("3333"),
            String::from("3333333333"),
            true,
        )
        .with_status(WorkStatus::Away),
    ];
    let raw = visible_raw_staff(&staff);
    assert_eq!(raw.len(), 2);
    assert_eq!(raw[0].uuid(), 1);
    assert_eq!(raw[1].uuid(), 3);
    assert_eq!(raw[0], aaron());
}

/// Timestamp from `Timestamp::from_secs` and from a date agree.
#[test]
fn timestamp_construction() {
    let a = Date::from_ymd(2000, 1, 2).and_hms(5, 59, 59);
    let b = Timestamp::from_secs(86400 + 5 * 3600 + 59 * 60 + 59);
    assert_eq!(a, b);
}
