//! Points in time, counted in whole seconds from a fixed reference midnight.
//!
//! The rest of the library only ever reads two things from a point in time:
//! its total order, and its offset within the day cycle.  A plain second
//! count carries both exactly.

use vstd::prelude::*;

verus! {

pub const SECS_PER_MINUTE: u64 = 60;

pub const SECS_PER_HOUR: u64 = 60 * 60;

pub const SECS_PER_DAY: u64 = 24 * 60 * 60;

/// The hour of day at which the daily boundary falls and at which reporting
/// periods begin and end.
pub const CUTOVER_HOUR: u64 = 6;

/// A point in time: seconds since the reference midnight.
#[derive(Debug, Clone, Copy, PartialEq, Eq, Structural)]
pub struct Timestamp {
    pub secs: u64,
}

impl Timestamp {
    /// The second of day this point falls on, in `[0, SECS_PER_DAY)`.
    pub open spec fn spec_seconds_from_midnight(self) -> int {
        self.secs as int % (SECS_PER_DAY as int)
    }

    pub fn from_secs(secs: u64) -> (r: Timestamp)
        ensures
            r.secs == secs,
    {
        Timestamp { secs }
    }

    /// The second of day, as the day cycle repeats every `SECS_PER_DAY` seconds.
    pub fn num_seconds_from_midnight(&self) -> (r: u64)
        ensures
            r == self.spec_seconds_from_midnight(),
            r < SECS_PER_DAY,
    {
        self.secs % SECS_PER_DAY
    }
}

} // verus!
