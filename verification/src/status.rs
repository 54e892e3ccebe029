//! Status reconstruction: deriving a staff member's Working/Away state by
//! replaying the event log, most recent event first.
//!
//! The log is the single source of truth: no status is ever persisted.  The
//! scan stops at the first status change for the member, or at a day
//! boundary, which always forces Away; a member without history is away.

use vstd::prelude::*;

verus! {

use crate::models::{DBStaffMember, StaffMember, WorkEvent, WorkEventT, WorkStatus};

/// The status of member `uuid` after the given events: the status of the
/// member's latest status change, unless a day boundary comes later, and
/// Away when neither exists.
pub open spec fn status_from_events(uuid: i32, events: Seq<WorkEventT>) -> WorkStatus
    decreases events.len(),
{
    if events.len() == 0 {
        WorkStatus::Away
    } else {
        match events.last().event {
            WorkEvent::StatusChange(id, _, status) => if id == uuid {
                status
            } else {
                status_from_events(uuid, events.drop_last())
            },
            WorkEvent::_6am => WorkStatus::Away,
            _ => status_from_events(uuid, events.drop_last()),
        }
    }
}

/// Attach to the stored record the status its event history implies.
/// `previous_events` are all logged events before the point of interest, in
/// log order.
pub fn staff_member_compute_status(staff_member: DBStaffMember, previous_events: &[WorkEventT])
    -> (r: StaffMember)
    ensures
        r == staff_member.spec_with_status(
            status_from_events(staff_member.spec_uuid(), previous_events@),
        ),
{
    let uuid = staff_member.uuid();
    let ghost all = previous_events@;
    let mut i: usize = previous_events.len();
    assert(all.take(i as int) =~= all);

    while i > 0
        invariant
            i <= all.len(),
            all == previous_events@,
            uuid == staff_member.spec_uuid(),
            status_from_events(uuid, all.take(i as int)) == status_from_events(uuid, all),
        decreases i,
    {
        i = i - 1;
        assert(all.take(i + 1).drop_last() =~= all.take(i as int));
        assert(all.take(i + 1).last() == all[i as int]);
        match &previous_events[i].event {
            WorkEvent::StatusChange(id, _, status) => {
                if *id == uuid {
                    return staff_member.with_status(*status);
                }
            },
            WorkEvent::_6am => {
                return staff_member.with_status(WorkStatus::Away);
            },
            _ => {},
        }
    }
    assert(all.take(0) =~= Seq::<WorkEventT>::empty());
    staff_member.with_status(WorkStatus::Away)
}

/// Attach derived statuses to a whole staff list, in order.
pub fn staff_compute_status(staff: Vec<DBStaffMember>, events: &[WorkEventT]) -> (r: Vec<
    StaffMember,
>)
    ensures
        r@.len() == staff@.len(),
        forall|k: int|
            0 <= k < staff@.len() ==> r@[k] == (#[trigger] staff@[k]).spec_with_status(
                status_from_events(staff@[k].spec_uuid(), events@),
            ),
{
    let ghost orig = staff@;
    let mut staff = staff;
    let mut out: Vec<StaffMember> = Vec::new();

    while staff.len() > 0
        invariant
            out@.len() + staff@.len() == orig.len(),
            staff@ == orig.skip(out@.len() as int),
            forall|k: int|
                0 <= k < out@.len() ==> out@[k] == (#[trigger] orig[k]).spec_with_status(
                    status_from_events(orig[k].spec_uuid(), events@),
                ),
        decreases staff@.len(),
    {
        let ghost done = out@.len() as int;
        let m = staff.remove(0);
        assert(m == orig[done]);
        out.push(staff_member_compute_status(m, events));
        assert(staff@ =~= orig.skip(done + 1));
    }
    out
}

/// Status reconstruction is deterministic: replaying the same event prefix
/// always yields the same status.
pub proof fn lemma_status_reconstruction_deterministic(
    uuid: i32,
    events1: Seq<WorkEventT>,
    events2: Seq<WorkEventT>,
)
    requires
        events1 == events2,
    ensures
        status_from_events(uuid, events1) == status_from_events(uuid, events2),
{
}

/// A day boundary is a hard reset: whatever came before it — in particular a
/// status change to Working with no Away in between — a member queried after
/// the boundary is away.
pub proof fn lemma_boundary_forces_away(uuid: i32, events: Seq<WorkEventT>, boundary: WorkEventT)
    requires
        boundary.event is _6am,
    ensures
        status_from_events(uuid, events.push(boundary)) == WorkStatus::Away,
{
    assert(events.push(boundary).last() == boundary);
}

} // verus!
