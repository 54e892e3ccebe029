//! The per-member event processor and the evaluation over a whole staff list.
//!
//! The processor is a two-state machine, `Away` or `Working(since)`, fed one
//! logged event at a time in log order.  It accumulates bucketed worked time
//! and collects soft anomalies; only an empty work interval or a bucket
//! overflow is fatal.  Its meaning is given by the spec step function
//! `sm_step` and its fold over a sequence, `process_seq`.

use vstd::prelude::*;

verus! {

use crate::models::{DBStaffMember, StaffMember, WorkEvent, WorkEventT, WorkStatus};
use crate::statistics::{
    PersonHours,
    PersonHoursCSV,
    SoftStatisticsError,
    StaffHours,
    StatisticsError,
};
use crate::date_ext::{Date, NaiveDateExt, MAX_YEAR};
use crate::status::{staff_compute_status, status_from_events};
use crate::time::{Timestamp, CUTOVER_HOUR};
use crate::time_eval::{alloc_in_bucket, WorkDuration};
use crate::StechuhrError;

/// The processor's state: away, or working since a point in time.
#[derive(Debug, Clone, Copy, PartialEq, Eq, Structural)]
pub enum EventSMLabel {
    Working(Timestamp),
    Away,
}

/// The processor's whole state, as the contracts see it: the machine state,
/// the three bucketed second counts, and the anomalies collected so far.
pub struct EventSMView {
    pub label: EventSMLabel,
    pub b0: int,
    pub b1: int,
    pub b2: int,
    pub soft_errors: Seq<SoftStatisticsError>,
}

impl EventSMView {
    pub open spec fn bucket(self, k: int) -> int {
        if k == 0 {
            self.b0
        } else if k == 1 {
            self.b1
        } else {
            self.b2
        }
    }

    /// Machine state and bucket counts agree; the anomaly lists may differ.
    pub open spec fn core_eq(self, other: EventSMView) -> bool {
        self.label == other.label && self.b0 == other.b0 && self.b1 == other.b1 && self.b2
            == other.b2
    }
}

/// Crediting the work interval `[from, to)` to the buckets: fatal when the
/// interval is empty or reversed (clock skew), or when a bucket would
/// overflow; the state is unchanged on failure.
pub open spec fn view_add_interval(v: EventSMView, from: Timestamp, to: Timestamp) -> (
    EventSMView,
    Option<StatisticsError>,
) {
    if from.secs >= to.secs {
        (v, Some(StatisticsError::EmptyInterval(from, to)))
    } else {
        let d0 = alloc_in_bucket(from.secs as int, to.secs as int, 0);
        let d1 = alloc_in_bucket(from.secs as int, to.secs as int, 1);
        let d2 = alloc_in_bucket(from.secs as int, to.secs as int, 2);
        if v.b0 + d0 > u64::MAX {
            (v, Some(StatisticsError::DurationError(d0 as u64, v.b0 as u64)))
        } else if v.b1 + d1 > u64::MAX {
            (v, Some(StatisticsError::DurationError(d1 as u64, v.b1 as u64)))
        } else if v.b2 + d2 > u64::MAX {
            (v, Some(StatisticsError::DurationError(d2 as u64, v.b2 as u64)))
        } else {
            (EventSMView { b0: v.b0 + d0, b1: v.b1 + d1, b2: v.b2 + d2, ..v }, None)
        }
    }
}

/// One step of the processor: the transition table for a single event.
/// Events of other members, informational events, and the legacy markers in
/// harmless positions leave the state untouched.
pub open spec fn sm_step(uuid: i32, name: String, v: EventSMView, ev: WorkEventT) -> (
    EventSMView,
    Option<StatisticsError>,
) {
    match v.label {
        EventSMLabel::Away => match ev.event {
            WorkEvent::StatusChange(id, _, status) => {
                if id == uuid {
                    if status is Working {
                        (EventSMView { label: EventSMLabel::Working(ev.created_at), ..v }, None)
                    } else {
                        (
                            EventSMView {
                                soft_errors: v.soft_errors.push(
                                    SoftStatisticsError::AlreadyAway(ev.created_at, name),
                                ),
                                ..v
                            },
                            None,
                        )
                    }
                } else {
                    (v, None)
                }
            },
            _ => (v, None),
        },
        EventSMLabel::Working(start_time) => match ev.event {
            WorkEvent::StatusChange(id, _, status) => {
                if id == uuid {
                    if status is Away {
                        let (v1, e) = view_add_interval(v, start_time, ev.created_at);
                        if e is Some {
                            (v1, e)
                        } else {
                            (EventSMView { label: EventSMLabel::Away, ..v1 }, None)
                        }
                    } else {
                        (
                            EventSMView {
                                soft_errors: v.soft_errors.push(
                                    SoftStatisticsError::AlreadyWorking(ev.created_at, name),
                                ),
                                ..v
                            },
                            None,
                        )
                    }
                } else {
                    (v, None)
                }
            },
            WorkEvent::_6am => {
                let v1 = EventSMView {
                    soft_errors: v.soft_errors.push(
                        SoftStatisticsError::StaffStillWorking(ev.created_at, name),
                    ),
                    ..v
                };
                let (v2, e) = view_add_interval(v1, start_time, ev.created_at);
                if e is Some {
                    (v2, e)
                } else {
                    (EventSMView { label: EventSMLabel::Away, ..v2 }, None)
                }
            },
            WorkEvent::EventOver => (
                EventSMView {
                    soft_errors: v.soft_errors.push(
                        SoftStatisticsError::EventOverWhileWorking(ev.created_at, name),
                    ),
                    ..v
                },
                None,
            ),
            _ => (v, None),
        },
    }
}

/// The processor folded over a sequence of events, in order.  The first
/// fatal error stops the fold; the state it returns is the state at the
/// failing step.
pub open spec fn process_seq(uuid: i32, name: String, v: EventSMView, events: Seq<WorkEventT>) -> (
    EventSMView,
    Option<StatisticsError>,
)
    decreases events.len(),
{
    if events.len() == 0 {
        (v, None)
    } else {
        let (v1, e1) = process_seq(uuid, name, v, events.drop_last());
        if e1 is Some {
            (v1, e1)
        } else {
            sm_step(uuid, name, v1, events.last())
        }
    }
}

/// Once a prefix of the events has failed, the whole sequence fails the same
/// way: processing stops at the first fatal error.
pub proof fn lemma_process_error_sticky(
    uuid: i32,
    name: String,
    v: EventSMView,
    events: Seq<WorkEventT>,
    i: int,
)
    requires
        0 <= i <= events.len(),
        process_seq(uuid, name, v, events.take(i)).1 is Some,
    ensures
        process_seq(uuid, name, v, events) == process_seq(uuid, name, v, events.take(i)),
    decreases events.len() - i,
{
    if i < events.len() {
        assert(events.take(i + 1).drop_last() =~= events.take(i));
        lemma_process_error_sticky(uuid, name, v, events, i + 1);
    } else {
        assert(events.take(i) =~= events);
    }
}

/// State machine that computes one staff member's bucketed worked time from
/// that member's slice of the event log.
pub struct EventSM<'a> {
    hours_raw: PersonHours<'a>,
    soft_errors: Vec<SoftStatisticsError>,
    label: EventSMLabel,
}

impl<'a> View for EventSM<'a> {
    type V = EventSMView;

    closed spec fn view(&self) -> EventSMView {
        EventSMView {
            label: self.label,
            b0: self.hours_raw.duration.bucket(0),
            b1: self.hours_raw.duration.bucket(1),
            b2: self.hours_raw.duration.bucket(2),
            soft_errors: self.soft_errors@,
        }
    }
}

impl<'a> EventSM<'a> {
    /// The staff member whose events this machine processes.
    pub closed spec fn spec_member(&self) -> &'a StaffMember {
        self.hours_raw.staff_member
    }

    pub open spec fn spec_uuid(&self) -> i32 {
        self.spec_member().spec_uuid()
    }

    pub open spec fn spec_name(&self) -> String {
        self.spec_member().name
    }

    /// A fresh machine: empty buckets and no anomalies, initially away, or
    /// working since `initial_start_time` when the caller's status
    /// reconstruction says the member was already working.
    pub fn new(staff_member: &'a StaffMember, initial_start_time: Option<Timestamp>) -> (r: EventSM<
        'a,
    >)
        ensures
            r.spec_member() == staff_member,
            r@.label == (match initial_start_time {
                Some(start_time) => EventSMLabel::Working(start_time),
                None => EventSMLabel::Away,
            }),
            r@.b0 == 0 && r@.b1 == 0 && r@.b2 == 0,
            r@.soft_errors == Seq::<SoftStatisticsError>::empty(),
    {
        let label = match initial_start_time {
            Some(start_time) => EventSMLabel::Working(start_time),
            None => EventSMLabel::Away,
        };
        let r = EventSM { hours_raw: PersonHours::new(staff_member), soft_errors: Vec::new(), label };
        proof {
            assert(r@.soft_errors =~= Seq::<SoftStatisticsError>::empty());
        }
        r
    }

    fn append_soft_error(&mut self, error: SoftStatisticsError)
        ensures
            final(self).spec_member() == old(self).spec_member(),
            final(self)@ == (EventSMView {
                soft_errors: old(self)@.soft_errors.push(error),
                ..old(self)@
            }),
    {
        self.soft_errors.push(error);
    }

    /// Credit `[start_time, end_time)` to the member's buckets; fatal when
    /// the interval is empty or a bucket overflows, leaving the machine as it
    /// was.
    fn add_time(&mut self, start_time: Timestamp, end_time: Timestamp) -> (r: Result<
        (),
        StatisticsError,
    >)
        ensures
            final(self).spec_member() == old(self).spec_member(),
            ({
                let (v1, e) = view_add_interval(old(self)@, start_time, end_time);
                final(self)@ == v1 && (match e {
                    None => r is Ok,
                    Some(err) => r == Err::<(), StatisticsError>(err),
                })
            }),
    {
        if start_time.secs >= end_time.secs {
            return Err(StatisticsError::EmptyInterval(start_time, end_time));
        }
        let additional_work_time = WorkDuration::from_start_end_time(start_time, end_time);
        let new_duration = match self.hours_raw.duration.checked_add(&additional_work_time) {
            Ok(d) => d,
            Err(e) => {
                return Err(e);
            },
        };
        self.hours_raw.duration = new_duration;
        Ok(())
    }

    /// Feed one event, in log order: exactly the transition `sm_step` takes.
    pub fn process(&mut self, event: &WorkEventT) -> (r: Result<(), StatisticsError>)
        ensures
            final(self).spec_member() == old(self).spec_member(),
            ({
                let (v, e) = sm_step(old(self).spec_uuid(), old(self).spec_name(), old(self)@, *event);
                final(self)@ == v && (match e {
                    None => r is Ok,
                    Some(err) => r == Err::<(), StatisticsError>(err),
                })
            }),
    {
        let uuid = self.hours_raw.staff_member.uuid();
        match self.label {
            EventSMLabel::Away => {
                match &event.event {
                    WorkEvent::StatusChange(id, _, status) => {
                        if *id == uuid {
                            if *status == WorkStatus::Working {
                                self.label = EventSMLabel::Working(event.created_at);
                            } else {
                                self.append_soft_error(
                                    SoftStatisticsError::AlreadyAway(
                                        event.created_at,
                                        self.hours_raw.staff_member.name.clone(),
                                    ),
                                );
                            }
                        }
                        Ok(())
                    },
                    _ => Ok(()),
                }
            },
            EventSMLabel::Working(start_time) => {
                match &event.event {
                    WorkEvent::StatusChange(id, _, status) => {
                        if *id == uuid {
                            if *status == WorkStatus::Away {
                                match self.add_time(start_time, event.created_at) {
                                    Ok(()) => (),
                                    Err(e) => {
                                        return Err(e);
                                    },
                                }
                                self.label = EventSMLabel::Away;
                            } else {
                                self.append_soft_error(
                                    SoftStatisticsError::AlreadyWorking(
                                        event.created_at,
                                        self.hours_raw.staff_member.name.clone(),
                                    ),
                                );
                            }
                        }
                        Ok(())
                    },
                    WorkEvent::_6am => {
                        self.append_soft_error(
                            SoftStatisticsError::StaffStillWorking(
                                event.created_at,
                                self.hours_raw.staff_member.name.clone(),
                            ),
                        );
                        match self.add_time(start_time, event.created_at) {
                            Ok(()) => (),
                            Err(e) => {
                                return Err(e);
                            },
                        }
                        self.label = EventSMLabel::Away;
                        Ok(())
                    },
                    WorkEvent::EventOver => {
                        self.append_soft_error(
                            SoftStatisticsError::EventOverWhileWorking(
                                event.created_at,
                                self.hours_raw.staff_member.name.clone(),
                            ),
                        );
                        Ok(())
                    },
                    _ => Ok(()),
                }
            },
        }
    }

    /// Hand out the accumulated hours and the anomalies; the machine is
    /// consumed and cannot be fed further events.
    pub fn finish(self) -> (r: (PersonHours<'a>, Vec<SoftStatisticsError>))
        ensures
            r.0.staff_member == self.spec_member(),
            forall|k: int| 0 <= k < 3 ==> r.0.duration.bucket(k) == self@.bucket(k),
            r.1@ == self@.soft_errors,
    {
        (self.hours_raw, self.soft_errors)
    }
}

/// Splitting off a common pushed element: pushing the same element onto two
/// lists leaves each list as its own prefix, with equal one-element suffixes.
proof fn lemma_push_pair(
    sa: Seq<SoftStatisticsError>,
    sb: Seq<SoftStatisticsError>,
    a: SoftStatisticsError,
)
    ensures
        sa.push(a).take(sa.len() as int) == sa,
        sb.push(a).take(sb.len() as int) == sb,
        sa.push(a).skip(sa.len() as int) == sb.push(a).skip(sb.len() as int),
{
    assert(sa.push(a).take(sa.len() as int) =~= sa);
    assert(sb.push(a).take(sb.len() as int) =~= sb);
    assert(sa.push(a).skip(sa.len() as int) =~= seq![a]);
    assert(sb.push(a).skip(sb.len() as int) =~= seq![a]);
}

/// A step reads only the machine state and the bucket counts, never the
/// anomalies already collected: from core-equal states, the same event takes
/// the same transition, appends the same anomalies and fails the same way.
proof fn lemma_step_core(uuid: i32, name: String, va: EventSMView, vb: EventSMView, ev: WorkEventT)
    requires
        va.core_eq(vb),
    ensures
        ({
            let (ra, ea) = sm_step(uuid, name, va, ev);
            let (rb, eb) = sm_step(uuid, name, vb, ev);
            &&& ra.core_eq(rb)
            &&& ea == eb
            &&& va.soft_errors.len() <= ra.soft_errors.len()
            &&& ra.soft_errors.len() - va.soft_errors.len() == rb.soft_errors.len()
                - vb.soft_errors.len()
            &&& ra.soft_errors.take(va.soft_errors.len() as int) == va.soft_errors
            &&& rb.soft_errors.take(vb.soft_errors.len() as int) == vb.soft_errors
            &&& ra.soft_errors.skip(va.soft_errors.len() as int) == rb.soft_errors.skip(
                vb.soft_errors.len() as int,
            )
        }),
{
    let la = va.soft_errors.len() as int;
    let lb = vb.soft_errors.len() as int;
    assert(va.soft_errors.take(la) =~= va.soft_errors);
    assert(vb.soft_errors.take(lb) =~= vb.soft_errors);
    assert(va.soft_errors.skip(la) =~= Seq::<SoftStatisticsError>::empty());
    assert(vb.soft_errors.skip(lb) =~= Seq::<SoftStatisticsError>::empty());
    match va.label {
        EventSMLabel::Away => match ev.event {
            WorkEvent::StatusChange(id, _, status) => {
                if id == uuid && !(status is Working) {
                    lemma_push_pair(
                        va.soft_errors,
                        vb.soft_errors,
                        SoftStatisticsError::AlreadyAway(ev.created_at, name),
                    );
                }
            },
            _ => {},
        },
        EventSMLabel::Working(_) => match ev.event {
            WorkEvent::StatusChange(id, _, status) => {
                if id == uuid && !(status is Away) {
                    lemma_push_pair(
                        va.soft_errors,
                        vb.soft_errors,
                        SoftStatisticsError::AlreadyWorking(ev.created_at, name),
                    );
                }
            },
            WorkEvent::_6am => {
                lemma_push_pair(
                    va.soft_errors,
                    vb.soft_errors,
                    SoftStatisticsError::StaffStillWorking(ev.created_at, name),
                );
            },
            WorkEvent::EventOver => {
                lemma_push_pair(
                    va.soft_errors,
                    vb.soft_errors,
                    SoftStatisticsError::EventOverWhileWorking(ev.created_at, name),
                );
            },
            _ => {},
        },
    }
}

/// `lemma_step_core`, folded over a whole event sequence: from core-equal
/// states the processor accumulates the same buckets, ends in the same
/// machine state, appends the same anomalies in the same order, and fails
/// the same way; anomalies already collected are only ever appended to.
proof fn lemma_process_core(
    uuid: i32,
    name: String,
    va: EventSMView,
    vb: EventSMView,
    events: Seq<WorkEventT>,
)
    requires
        va.core_eq(vb),
    ensures
        ({
            let (ra, ea) = process_seq(uuid, name, va, events);
            let (rb, eb) = process_seq(uuid, name, vb, events);
            &&& ra.core_eq(rb)
            &&& ea == eb
            &&& va.soft_errors.len() <= ra.soft_errors.len()
            &&& ra.soft_errors.len() - va.soft_errors.len() == rb.soft_errors.len()
                - vb.soft_errors.len()
            &&& ra.soft_errors.take(va.soft_errors.len() as int) == va.soft_errors
            &&& rb.soft_errors.take(vb.soft_errors.len() as int) == vb.soft_errors
            &&& ra.soft_errors.skip(va.soft_errors.len() as int) == rb.soft_errors.skip(
                vb.soft_errors.len() as int,
            )
        }),
    decreases events.len(),
{
    let la = va.soft_errors.len() as int;
    let lb = vb.soft_errors.len() as int;
    if events.len() == 0 {
        assert(va.soft_errors.take(la) =~= va.soft_errors);
        assert(vb.soft_errors.take(lb) =~= vb.soft_errors);
        assert(va.soft_errors.skip(la) =~= Seq::<SoftStatisticsError>::empty());
        assert(vb.soft_errors.skip(lb) =~= Seq::<SoftStatisticsError>::empty());
    } else {
        lemma_process_core(uuid, name, va, vb, events.drop_last());
        let (ra1, ea1) = process_seq(uuid, name, va, events.drop_last());
        let (rb1, eb1) = process_seq(uuid, name, vb, events.drop_last());
        if ea1 is None {
            lemma_step_core(uuid, name, ra1, rb1, events.last());
            let (ra, ea) = sm_step(uuid, name, ra1, events.last());
            let (rb, eb) = sm_step(uuid, name, rb1, events.last());
            let ma = ra1.soft_errors.len() as int;
            let mb = rb1.soft_errors.len() as int;
            // The whole anomaly list splits at the step boundary...
            assert(ra.soft_errors =~= ra1.soft_errors + ra.soft_errors.skip(ma));
            assert(rb.soft_errors =~= rb1.soft_errors + rb.soft_errors.skip(mb));
            // ...and the prefix splits again at the starting state's list.
            assert(ra.soft_errors.take(la) =~= ra1.soft_errors.take(la));
            assert(rb.soft_errors.take(lb) =~= rb1.soft_errors.take(lb));
            assert(ra.soft_errors.skip(la) =~= ra1.soft_errors.skip(la) + ra.soft_errors.skip(ma));
            assert(rb.soft_errors.skip(lb) =~= rb1.soft_errors.skip(lb) + rb.soft_errors.skip(mb));
        }
    }
}

/// Processor anomaly non-fatality: an event that only triggers the
/// `AlreadyWorking` anomaly — a second status change to Working with no Away
/// in between — aborts nothing and corrupts nothing.  Processing a sequence
/// with such an event inserted yields the same bucketed duration, the same
/// final machine state and the same fatal outcome as the sequence without
/// it, and the one anomaly appears in the anomaly list exactly where the
/// duplicate event sat.
#[verifier::rlimit(60)]
#[verifier::spinoff_prover]
pub proof fn lemma_already_working_non_fatal(
    uuid: i32,
    name: String,
    init: EventSMView,
    events: Seq<WorkEventT>,
    i: int,
    dup: WorkEventT,
)
    requires
        0 <= i <= events.len(),
        dup.event matches WorkEvent::StatusChange(id, _, st) && id == uuid && st is Working,
        process_seq(uuid, name, init, events.take(i)).1 is None,
        process_seq(uuid, name, init, events.take(i)).0.label is Working,
    ensures
        ({
            let pre = process_seq(uuid, name, init, events.take(i)).0;
            let (ra, ea) = process_seq(uuid, name, init, events.insert(i, dup));
            let (rb, eb) = process_seq(uuid, name, init, events);
            let lp = pre.soft_errors.len() as int;
            &&& ra.core_eq(rb)
            &&& ea == eb
            &&& rb.soft_errors.take(lp) == pre.soft_errors
            &&& ra.soft_errors == rb.soft_errors.take(lp).push(
                SoftStatisticsError::AlreadyWorking(dup.created_at, name),
            ) + rb.soft_errors.skip(lp)
        }),
{
    let pre_events = events.take(i);
    let rest = events.skip(i);
    let pre = process_seq(uuid, name, init, pre_events).0;
    let anomaly = SoftStatisticsError::AlreadyWorking(dup.created_at, name);
    let pre2 = EventSMView { soft_errors: pre.soft_errors.push(anomaly), ..pre };
    let lp = pre.soft_errors.len() as int;

    assert(events.insert(i, dup) =~= pre_events.push(dup) + rest);
    assert(events =~= pre_events + rest);

    lemma_process_app(uuid, name, init, pre_events.push(dup), rest);
    lemma_process_app(uuid, name, init, pre_events, rest);
    assert(pre_events.push(dup).drop_last() =~= pre_events);

    // The duplicate event itself: state Working, change to Working — only the
    // anomaly is recorded.
    assert(process_seq(uuid, name, init, pre_events.push(dup)) == (
        pre2,
        None::<StatisticsError>,
    ));

    lemma_process_core(uuid, name, pre2, pre, rest);

    let (ra, ea) = process_seq(uuid, name, pre2, rest);
    let (rb, eb) = process_seq(uuid, name, pre, rest);
    assert(ra.soft_errors.take(pre2.soft_errors.len() as int) == pre2.soft_errors);
    assert(rb.soft_errors.take(lp) == pre.soft_errors);
    assert(ra.soft_errors =~= pre2.soft_errors + ra.soft_errors.skip(
        pre2.soft_errors.len() as int,
    ));
    assert(rb.soft_errors =~= pre.soft_errors + rb.soft_errors.skip(lp));
    assert(ra.soft_errors =~= rb.soft_errors.take(lp).push(anomaly) + rb.soft_errors.skip(lp));
}

/// Processing a concatenation: the first part runs first, and its fatal
/// error, if any, is the whole run's outcome.
proof fn lemma_process_app(
    uuid: i32,
    name: String,
    v: EventSMView,
    s1: Seq<WorkEventT>,
    s2: Seq<WorkEventT>,
)
    ensures
        process_seq(uuid, name, v, s1 + s2) == ({
            let (v1, e1) = process_seq(uuid, name, v, s1);
            if e1 is Some {
                (v1, e1)
            } else {
                process_seq(uuid, name, v1, s2)
            }
        }),
    decreases s2.len(),
{
    if s2.len() == 0 {
        assert(s1 + s2 =~= s1);
    } else {
        assert((s1 + s2).drop_last() =~= s1 + s2.drop_last());
        assert((s1 + s2).last() == s2.last());
        lemma_process_app(uuid, name, v, s1, s2.drop_last());
    }
}

/// A day boundary while working is reported, never fatal by itself: exactly
/// one `StaffStillWorking` anomaly is recorded, the time worked up to the
/// boundary is still credited bucket by bucket, and the member is away
/// afterwards.  Only a bucket sum no longer fitting is fatal, and even then
/// nothing but the anomaly is recorded.  The work start precedes the boundary
/// whenever events are fed in log order, as the processor demands.
pub proof fn lemma_boundary_while_working(
    uuid: i32,
    name: String,
    v: EventSMView,
    ev: WorkEventT,
    t: Timestamp,
)
    requires
        v.label == EventSMLabel::Working(t),
        ev.event is _6am,
        t.secs < ev.created_at.secs,
    ensures
        ({
            let (r, e) = sm_step(uuid, name, v, ev);
            let d0 = alloc_in_bucket(t.secs as int, ev.created_at.secs as int, 0);
            let d1 = alloc_in_bucket(t.secs as int, ev.created_at.secs as int, 1);
            let d2 = alloc_in_bucket(t.secs as int, ev.created_at.secs as int, 2);
            &&& r.soft_errors == v.soft_errors.push(
                SoftStatisticsError::StaffStillWorking(ev.created_at, name),
            )
            &&& (e is None <==> v.b0 + d0 <= u64::MAX && v.b1 + d1 <= u64::MAX && v.b2 + d2
                <= u64::MAX)
            &&& (e is None ==> r.label is Away && r.b0 == v.b0 + d0 && r.b1 == v.b1 + d1 && r.b2
                == v.b2 + d2)
            &&& (e matches Some(err) ==> err is DurationError && r.core_eq(v))
        }),
{
}

/// The machine state a member's evaluation starts from: working since the
/// period start when the status reconstruction said so, away otherwise.
pub open spec fn initial_view(member: StaffMember, start_time: Timestamp) -> EventSMView {
    EventSMView {
        label: if member.status is Working {
            EventSMLabel::Working(start_time)
        } else {
            EventSMLabel::Away
        },
        b0: 0,
        b1: 0,
        b2: 0,
        soft_errors: Seq::empty(),
    }
}

/// The outcome of processing all of a period's events for one member.
pub open spec fn member_result(
    member: StaffMember,
    events: Seq<WorkEventT>,
    start_time: Timestamp,
) -> (EventSMView, Option<StatisticsError>) {
    process_seq(member.spec_uuid(), member.name, initial_view(member, start_time), events)
}

/// The report row a member's outcome turns into: the name and whole minutes
/// per bucket.
pub open spec fn member_row(member: StaffMember, v: EventSMView) -> PersonHoursCSV {
    PersonHoursCSV {
        name: member.name,
        minutes_1: (v.bucket(0) / 60) as i64,
        minutes_2: (v.bucket(1) / 60) as i64,
        minutes_3: (v.bucket(2) / 60) as i64,
    }
}

/// The whole evaluation: one row per member, in staff order, and all
/// anomalies concatenated in that order.  The first member whose processing
/// fails fatally fails the evaluation.
pub open spec fn evaluate_members(
    staff: Seq<StaffMember>,
    events: Seq<WorkEventT>,
    start_time: Timestamp,
) -> Result<(Seq<PersonHoursCSV>, Seq<SoftStatisticsError>), StatisticsError>
    decreases staff.len(),
{
    if staff.len() == 0 {
        Ok((Seq::empty(), Seq::empty()))
    } else {
        match evaluate_members(staff.drop_last(), events, start_time) {
            Err(e) => Err(e),
            Ok(acc) => {
                let (v, e) = member_result(staff.last(), events, start_time);
                match e {
                    Some(err) => Err(err),
                    None => Ok(
                        (acc.0.push(member_row(staff.last(), v)), acc.1 + v.soft_errors),
                    ),
                }
            },
        }
    }
}

/// Once a prefix of the staff list has failed, the whole evaluation fails the
/// same way.
pub proof fn lemma_evaluate_error_sticky(
    staff: Seq<StaffMember>,
    events: Seq<WorkEventT>,
    start_time: Timestamp,
    i: int,
)
    requires
        0 <= i <= staff.len(),
        evaluate_members(staff.take(i), events, start_time) is Err,
    ensures
        evaluate_members(staff, events, start_time) == evaluate_members(
            staff.take(i),
            events,
            start_time,
        ),
    decreases staff.len() - i,
{
    if i < staff.len() {
        assert(staff.take(i + 1).drop_last() =~= staff.take(i));
        lemma_evaluate_error_sticky(staff, events, start_time, i + 1);
    } else {
        assert(staff.take(i) =~= staff);
    }
}

/// The staff list with each member's status derived from the events before
/// the evaluation period.
pub open spec fn staff_seq_with_status(
    raw: Seq<DBStaffMember>,
    prev: Seq<WorkEventT>,
) -> Seq<StaffMember> {
    raw.map_values(
        |m: DBStaffMember| m.spec_with_status(status_from_events(m.spec_uuid(), prev)),
    )
}

/// Create an `EventSM` for one staff member, seeded from the member's derived
/// status, and feed it every event of the period, in log order.
pub fn evaluate_hours_for_staff_member<'a>(
    staff_member: &'a StaffMember,
    events: &[WorkEventT],
    start_time: Timestamp,
) -> (r: Result<(PersonHours<'a>, Vec<SoftStatisticsError>), StatisticsError>)
    ensures
        ({
            let (v, e) = member_result(*staff_member, events@, start_time);
            match e {
                None => r matches Ok(pair) && pair.0.staff_member == staff_member && (forall|k: int|
                    0 <= k < 3 ==> pair.0.duration.bucket(k) == v.bucket(k)) && pair.1@
                    == v.soft_errors,
                Some(err) => r == Err::<(PersonHours<'a>, Vec<SoftStatisticsError>), StatisticsError>(
                    err,
                ),
            }
        }),
{
    let ghost uuid = staff_member.spec_uuid();
    let ghost name = staff_member.name;
    let ghost init = initial_view(*staff_member, start_time);

    let initial_start_time = if staff_member.status == WorkStatus::Working {
        Some(start_time)
    } else {
        None
    };
    let mut event_sm = EventSM::new(staff_member, initial_start_time);
    proof {
        assert(events@.take(0) =~= Seq::<WorkEventT>::empty());
        assert(event_sm@ == init);
    }

    let mut i: usize = 0;
    while i < events.len()
        invariant
            i <= events@.len(),
            uuid == staff_member.spec_uuid(),
            name == staff_member.name,
            init == initial_view(*staff_member, start_time),
            event_sm.spec_member() == staff_member,
            process_seq(uuid, name, init, events@.take(i as int)) == (
                event_sm@,
                None::<StatisticsError>,
            ),
        decreases events@.len() - i,
    {
        proof {
            assert(events@.take(i + 1).drop_last() =~= events@.take(i as int));
            assert(events@.take(i + 1).last() == events@[i as int]);
        }
        match event_sm.process(&events[i]) {
            Ok(()) => (),
            Err(e) => {
                proof {
                    lemma_process_error_sticky(uuid, name, init, events@, i + 1);
                }
                return Err(e);
            },
        }
        i += 1;
    }
    proof {
        assert(events@.take(events@.len() as int) =~= events@);
    }
    Ok(event_sm.finish())
}

/// The stored records of the visible staff members, in staff order: the
/// evaluation is run for those alone, and each status is re-derived from the
/// log rather than taken from the list.
pub open spec fn visible_db(staff: Seq<StaffMember>) -> Seq<DBStaffMember>
    decreases staff.len(),
{
    if staff.len() == 0 {
        Seq::empty()
    } else {
        let rest = visible_db(staff.drop_last());
        if staff.last().is_visible {
            rest.push(staff.last().spec_forget_status())
        } else {
            rest
        }
    }
}

/// The visible members' stored records, statuses forgotten.
pub fn visible_raw_staff(staff: &[StaffMember]) -> (r: Vec<DBStaffMember>)
    ensures
        r@ == visible_db(staff@),
{
    let mut out: Vec<DBStaffMember> = Vec::new();
    proof {
        assert(staff@.take(0) =~= Seq::<StaffMember>::empty());
    }
    let mut i: usize = 0;
    while i < staff.len()
        invariant
            i <= staff@.len(),
            out@ == visible_db(staff@.take(i as int)),
        decreases staff@.len() - i,
    {
        proof {
            assert(staff@.take(i + 1).drop_last() =~= staff@.take(i as int));
            assert(staff@.take(i + 1).last() == staff@[i as int]);
        }
        if staff[i].is_visible {
            out.push(staff[i].forget_status());
        }
        i += 1;
    }
    proof {
        assert(staff@.take(staff@.len() as int) =~= staff@);
    }
    out
}

/// Evaluate a period for a staff list as stored: derive each member's status
/// at the period start from the events before it, process the period's
/// events per member, and aggregate rows and anomalies.
#[verifier::loop_isolation(false)]
pub fn evaluate_hours_for_events(
    raw_staff: Vec<DBStaffMember>,
    events: &[WorkEventT],
    previous_events: &[WorkEventT],
    start_time: Timestamp,
) -> (r: Result<StaffHours, StechuhrError>)
    ensures
        ({
            let staff = staff_seq_with_status(raw_staff@, previous_events@);
            match evaluate_members(staff, events@, start_time) {
                Ok(acc) => r matches Ok(h) && h.hours_csv@ == acc.0 && h.soft_errors@ == acc.1,
                Err(e) => r == Err::<StaffHours, StechuhrError>(StechuhrError::Statistics(e)),
            }
        }),
{
    let ghost raw0 = raw_staff@;
    let staff = staff_compute_status(raw_staff, previous_events);
    proof {
        assert(staff@ =~= staff_seq_with_status(raw0, previous_events@));
    }
    let ghost sseq = staff@;

    let mut hours_csv: Vec<PersonHoursCSV> = Vec::new();
    let mut soft_errors: Vec<SoftStatisticsError> = Vec::new();
    proof {
        assert(sseq.take(0) =~= Seq::<StaffMember>::empty());
        assert(hours_csv@ =~= Seq::<PersonHoursCSV>::empty());
        assert(soft_errors@ =~= Seq::<SoftStatisticsError>::empty());
    }

    let mut i: usize = 0;
    while i < staff.len()
        invariant
            i <= sseq.len(),
            staff@ == sseq,
            sseq == staff_seq_with_status(raw0, previous_events@),
            evaluate_members(sseq.take(i as int), events@, start_time) == Ok::<
                (Seq<PersonHoursCSV>, Seq<SoftStatisticsError>),
                StatisticsError,
            >((hours_csv@, soft_errors@)),
        decreases sseq.len() - i,
    {
        proof {
            assert(sseq.take(i + 1).drop_last() =~= sseq.take(i as int));
            assert(sseq.take(i + 1).last() == sseq[i as int]);
        }
        let ghost mr = member_result(sseq[i as int], events@, start_time);
        let (hours, mut soft) = match evaluate_hours_for_staff_member(
            &staff[i],
            events,
            start_time,
        ) {
            Ok(pair) => pair,
            Err(e) => {
                proof {
                    lemma_evaluate_error_sticky(sseq, events@, start_time, i + 1);
                }
                return Err(StechuhrError::Statistics(e));
            },
        };
        let ghost soft_before = soft_errors@;
        let row = PersonHoursCSV::from_hours(hours);
        hours_csv.push(row);
        soft_errors.append(&mut soft);
        proof {
            assert(row == member_row(sseq[i as int], mr.0));
            assert(soft_errors@ == soft_before + mr.0.soft_errors);
        }
        i += 1;
    }
    proof {
        assert(sseq.take(sseq.len() as int) =~= sseq);
    }
    Ok(StaffHours { hours_csv, soft_errors })
}

/// The evaluation period for the month containing `date`: from the first of
/// the month at the cutover hour to the first of the next month, also at the
/// cutover hour.  Loading the period's events and writing the report out are
/// the caller's concern.
pub fn month_evaluation_period(date: Date) -> (r: (Timestamp, Timestamp))
    requires
        date.wf(),
        date.year < MAX_YEAR,
    ensures
        r.0.secs == date.spec_first_dom().spec_and_hms(CUTOVER_HOUR as int, 0, 0),
        r.1.secs == date.spec_last_dom().spec_succ().spec_and_hms(CUTOVER_HOUR as int, 0, 0),
{
    let start_time = date.first_dom().and_hms(CUTOVER_HOUR, 0, 0);
    let end_time = date.last_dom().succ().and_hms(CUTOVER_HOUR, 0, 0);
    (start_time, end_time)
}

/// Idempotent re-evaluation: the evaluation is a function of the staff
/// snapshot, the event snapshots and the period alone, so two runs over
/// identical inputs yield identical reports.
pub proof fn lemma_evaluation_idempotent(
    raw1: Seq<DBStaffMember>,
    prev1: Seq<WorkEventT>,
    events1: Seq<WorkEventT>,
    start1: Timestamp,
    raw2: Seq<DBStaffMember>,
    prev2: Seq<WorkEventT>,
    events2: Seq<WorkEventT>,
    start2: Timestamp,
)
    requires
        raw1 == raw2,
        prev1 == prev2,
        events1 == events2,
        start1 == start2,
    ensures
        evaluate_members(staff_seq_with_status(raw1, prev1), events1, start1) == evaluate_members(
            staff_seq_with_status(raw2, prev2),
            events2,
            start2,
        ),
{
}

} // verus!
