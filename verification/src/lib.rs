//! Event-sourced working-time tracking.
//!
//! Staff members are never stored with a live "working" flag; their status is
//! derived by replaying an append-only log of timestamped events.  On top of
//! that log, an evaluation engine splits worked time into time-of-day pay-rate
//! buckets while collecting, rather than aborting on, data inconsistencies.

use vstd::prelude::*;

pub mod date_ext;
pub mod event_eval;
pub mod management;
pub mod models;
pub mod statistics;
pub mod status;
pub mod time;
pub mod time_eval;
pub mod timetrack;

verus! {

use crate::management::ManagementError;
use crate::models::ModelError;
use crate::statistics::StatisticsError;

/// Top-level error of the library: every fatal failure a caller can see.
///
/// Soft anomalies are not errors; they are collected separately
/// (see `statistics::SoftStatisticsError`).
#[derive(Debug, Clone, PartialEq, Eq)]
pub enum StechuhrError {
    Management(ManagementError),
    Statistics(StatisticsError),
    Model(ModelError),
    Str(String),
}

} // verus!
