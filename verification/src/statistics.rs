//! Result and error types of the monthly evaluation.
//!
//! A finished evaluation is a `StaffHours`: one row of per-bucket minute
//! totals per staff member, plus the soft anomalies found along the way.

use vstd::prelude::*;

verus! {

use crate::models::StaffMember;
use crate::time::Timestamp;
use crate::time_eval::WorkDuration;

/// Fatal evaluation errors: these abort a whole report.
#[derive(Debug, Clone, PartialEq, Eq)]
pub enum StatisticsError {
    /// Adding the two per-bucket second counts would overflow.
    DurationError(u64, u64),
    /// A work interval whose start does not lie before its end, e.g. from
    /// clock skew between recorded events.
    EmptyInterval(Timestamp, Timestamp),
}

/// Soft anomalies: data-quality problems in the historical events.  They are
/// collected and reported, and never stop an evaluation.  Each carries the
/// offending timestamp and the staff member's name.
#[derive(Debug, Clone, PartialEq, Eq)]
pub enum SoftStatisticsError {
    /// A `StatusChange` to Working arrived while the member was already working.
    AlreadyWorking(Timestamp, String),
    /// A `StatusChange` to Away arrived while the member was already away.
    AlreadyAway(Timestamp, String),
    /// The member was still working when the daily boundary passed.
    StaffStillWorking(Timestamp, String),
    /// The legacy manual close-out arrived while the member was working.
    EventOverWhileWorking(Timestamp, String),
}

/// The raw result of processing one staff member's events: the member and the
/// bucketed duration worked.
pub struct PersonHours<'a> {
    pub staff_member: &'a StaffMember,
    pub duration: WorkDuration,
}

impl<'a> PersonHours<'a> {
    pub fn new(staff_member: &'a StaffMember) -> (r: PersonHours<'a>)
        ensures
            r.staff_member == staff_member,
            forall|k: int| 0 <= k < 3 ==> r.duration.bucket(k) == 0,
    {
        PersonHours { staff_member, duration: WorkDuration::zero() }
    }

    pub fn staff_member(&self) -> (r: &StaffMember)
        ensures
            r == self.staff_member,
    {
        self.staff_member
    }

    pub fn duration(&self) -> (r: &WorkDuration)
        ensures
            r == self.duration,
    {
        &self.duration
    }
}

/// One row of the generated report: a member's name and whole minutes worked
/// per pay-rate bucket.
#[derive(Debug, Clone, PartialEq, Eq)]
pub struct PersonHoursCSV {
    pub name: String,
    pub minutes_1: i64,
    pub minutes_2: i64,
    pub minutes_3: i64,
}

impl PersonHoursCSV {
    pub fn from_hours(hours: PersonHours<'_>) -> (r: PersonHoursCSV)
        ensures
            r.name == hours.staff_member.name,
            r.minutes_1 == hours.duration.bucket(0) / 60,
            r.minutes_2 == hours.duration.bucket(1) / 60,
            r.minutes_3 == hours.duration.bucket(2) / 60,
    {
        let minutes = hours.duration().num_minutes();
        PersonHoursCSV {
            name: hours.staff_member().name.clone(),
            minutes_1: minutes[0],
            minutes_2: minutes[1],
            minutes_3: minutes[2],
        }
    }
}

/// The whole report: one row per evaluated member, in the order the staff
/// list was given, and every soft anomaly found, in event order per member.
#[derive(Debug, Clone, PartialEq, Eq)]
pub struct StaffHours {
    pub hours_csv: Vec<PersonHoursCSV>,
    pub soft_errors: Vec<SoftStatisticsError>,
}

impl StaffHours {
    pub fn hours(&self) -> (r: &Vec<PersonHoursCSV>)
        ensures
            r == self.hours_csv,
    {
        &self.hours_csv
    }

    pub fn errors(&self) -> (r: &Vec<SoftStatisticsError>)
        ensures
            r == self.soft_errors,
    {
        &self.soft_errors
    }
}

} // verus!
