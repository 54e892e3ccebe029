//! Tests of status reconstruction from the event log.

use stechuhr::date_ext::Date;
use stechuhr::models::{DBStaffMember, WorkEvent, WorkEventT, WorkStatus};
use stechuhr::status::{staff_compute_status, staff_member_compute_status};

fn aaron() -> DBStaffMember {
    DBStaffMember::new(
        1,
        String::from("Aaron"),
        String::from("1111"),
        String::from("1111111111"),
        true,
    )
}

fn beeron() -> DBStaffMember {
    DBStaffMember::new(
        2,
        String::from("Beeron"),
        String::from("2222"),
        String::from("2222222222"),
        true,
    )
}

/// A member with no history is away.
#[test]
fn no_history_means_away() {
    let m = staff_member_compute_status(aaron(), &[]);
    assert_eq!(m.status, WorkStatus::Away);
}

/// A member whose latest status change says Working is working.
#[test]
fn latest_change_wins() {
    let events = vec![
        WorkEventT::new(
            1,
            Date::from_ymd(2000, 1, 1).and_hms(18, 0, 0),
            WorkEvent::StatusChange(1, String::from("Aaron"), WorkStatus::Away),
        ),
        WorkEventT::new(
            2,
            Date::from_ymd(2000, 1, 1).and_hms(19, 0, 0),
            WorkEvent::StatusChange(1, String::from("Aaron"), WorkStatus::Working),
        ),
    ];
    let m = staff_member_compute_status(aaron(), &events);
    assert_eq!(m.status, WorkStatus::Working);
}

/// A day boundary after a Working change, with no Away in between, forces
/// Away.
#[test]
fn boundary_forces_away() {
    let events = vec![
        WorkEventT::new(
            1,
            Date::from_ymd(2000, 1, 1).and_hms(18, 0, 0),
            WorkEvent::StatusChange(1, String::from("Aaron"), WorkStatus::Working),
        ),
        WorkEventT::new(2, Date::from_ymd(2000, 1, 2).and_hms(5, 59, 59), WorkEvent::_6am),
    ];
    let m = staff_member_compute_status(aaron(), &events);
    assert_eq!(m.status, WorkStatus::Away);
}

/// Replaying the same prefix twice yields the same status.
#[test]
fn reconstruction_is_deterministic() {
    let events = vec![
        WorkEventT::new(
            1,
            Date::from_ymd(2000, 1, 1).and_hms(18, 0, 0),
            WorkEvent::StatusChange(1, String::from("Aaron"), WorkStatus::Working),
        ),
        WorkEventT::new(2, Date::from_ymd(2000, 1, 1).and_hms(19, 0, 0), WorkEvent::EventOver),
    ];
    let first = staff_member_compute_status(aaron(), &events);
    let second = staff_member_compute_status(aaron(), &events);
    assert_eq!(first, second);
}

/// Other members' changes, informational entries and the legacy markers do
/// not settle the scan.
#[test]
fn unrelated_events_are_skipped() {
    let events = vec![
        WorkEventT::new(
            1,
            Date::from_ymd(2000, 1, 1).and_hms(18, 0, 0),
            WorkEvent::StatusChange(1, String::from("Aaron"), WorkStatus::Working),
        ),
        WorkEventT::new(
            2,
            Date::from_ymd(2000, 1, 1).and_hms(19, 0, 0),
            WorkEvent::StatusChange(2, String::from("Beeron"), WorkStatus::Away),
        ),
        WorkEventT::new(
            3,
            Date::from_ymd(2000, 1, 1).and_hms(20, 0, 0),
            WorkEvent::Info(String::from("note")),
        ),
        WorkEventT::new(4, Date::from_ymd(2000, 1, 1).and_hms(21, 0, 0), WorkEvent::EventOver),
    ];
    let m = staff_member_compute_status(aaron(), &events);
    assert_eq!(m.status, WorkStatus::Working);
}

/// The whole-staff variant derives each member's status independently: a
/// member working at five o'clock is loaded as working half an hour later.
#[test]
fn load_before_boundary() {
    let events = vec![
        WorkEventT::new(1, Date::from_ymd(2000, 1, 1).and_hms(5, 59, 59), WorkEvent::_6am),
        WorkEventT::new(
            2,
            Date::from_ymd(2000, 1, 2).and_hms(5, 0, 0),
            WorkEvent::StatusChange(1, String::from("Aaron"), WorkStatus::Working),
        ),
    ];
    let staff = staff_compute_status(vec![aaron(), beeron()], &events);
    assert_eq!(staff[0].status, WorkStatus::Working);
    assert_eq!(staff[1].status, WorkStatus::Away);
    assert_eq!(staff[0].uuid(), 1);
    assert_eq!(staff[0].name, "Aaron");
}

/// The same member, loaded after the next boundary, is away again.
#[test]
fn load_after_boundary() {
    let events = vec![
        WorkEventT::new(
            1,
            Date::from_ymd(2000, 1, 1).and_hms(5, 0, 0),
            WorkEvent::StatusChange(1, String::from("Aaron"), WorkStatus::Working),
        ),
        WorkEventT::new(2, Date::from_ymd(2000, 1, 1).and_hms(5, 59, 59), WorkEvent::_6am),
    ];
    let staff = staff_compute_status(vec![aaron(), beeron()], &events);
    assert_eq!(staff[0].status, WorkStatus::Away);
    assert_eq!(staff[1].status, WorkStatus::Away);
}
