//! The time-tracking actions on the staff list: toggling one member at the
//! terminal, and signing everyone off.
//!
//! Each action returns the status-change events it implies; appending them to
//! the event log is the caller's.

use vstd::prelude::*;

verus! {

use crate::models::{NewWorkEventT, StaffMember, WorkEvent, WorkStatus};
use crate::time::Timestamp;

/// A member as sign-off leaves them: working members go to away, the rest are
/// untouched.
pub open spec fn spec_signed_off(m: StaffMember) -> StaffMember {
    if m.status is Working {
        StaffMember { status: WorkStatus::Away, ..m }
    } else {
        m
    }
}

/// The status-change events a sign-off writes: one per working member, in
/// staff order.
pub open spec fn spec_sign_off_events(staff: Seq<StaffMember>, t: Timestamp) -> Seq<NewWorkEventT>
    decreases staff.len(),
{
    if staff.len() == 0 {
        Seq::empty()
    } else {
        let rest = spec_sign_off_events(staff.drop_last(), t);
        if staff.last().status is Working {
            rest.push(
                NewWorkEventT {
                    created_at: t,
                    event: WorkEvent::StatusChange(
                        staff.last().spec_uuid(),
                        staff.last().name,
                        WorkStatus::Away,
                    ),
                },
            )
        } else {
            rest
        }
    }
}

/// Set every working member to away, and return the status-change events to
/// append to the log, in staff order.
pub fn sign_off_all_staff(staff: &mut Vec<StaffMember>, sign_off_time: Timestamp) -> (r: Vec<
    NewWorkEventT,
>)
    ensures
        final(staff)@.len() == old(staff)@.len(),
        forall|i: int|
            0 <= i < old(staff)@.len() ==> final(staff)@[i] == spec_signed_off(
                #[trigger] old(staff)@[i],
            ),
        r@ == spec_sign_off_events(old(staff)@, sign_off_time),
{
    let ghost orig = staff@;
    let mut events: Vec<NewWorkEventT> = Vec::new();
    proof {
        assert(orig.take(0) =~= Seq::<StaffMember>::empty());
    }
    let mut i: usize = 0;
    while i < staff.len()
        invariant
            i <= orig.len(),
            staff@.len() == orig.len(),
            orig == old(staff)@,
            forall|j: int| 0 <= j < i ==> staff@[j] == spec_signed_off(#[trigger] orig[j]),
            forall|j: int| i <= j < orig.len() ==> #[trigger] staff@[j] == orig[j],
            events@ == spec_sign_off_events(orig.take(i as int), sign_off_time),
        decreases orig.len() - i,
    {
        proof {
            assert(orig.take(i + 1).drop_last() =~= orig.take(i as int));
            assert(orig.take(i + 1).last() == orig[i as int]);
        }
        let ghost before = staff@;
        let m = staff.remove(i);
        if m.status == WorkStatus::Working {
            events.push(
                NewWorkEventT {
                    created_at: sign_off_time,
                    event: WorkEvent::StatusChange(m.uuid(), m.name.clone(), WorkStatus::Away),
                },
            );
            staff.insert(i, StaffMember { status: WorkStatus::Away, ..m });
        } else {
            staff.insert(i, m);
        }
        proof {
            assert(staff@ =~= before.update(i as int, spec_signed_off(orig[i as int])));
        }
        i += 1;
    }
    proof {
        assert(orig.take(orig.len() as int) =~= orig);
    }
    events
}

/// Whether anyone is still working: the check that guards closing out.
pub fn any_working(staff: &[StaffMember]) -> (r: bool)
    ensures
        r == exists|i: int| 0 <= i < staff@.len() && (#[trigger] staff@[i]).status is Working,
{
    let mut idx: usize = 0;
    while idx < staff.len()
        invariant
            idx <= staff@.len(),
            forall|j: int| 0 <= j < idx ==> !((#[trigger] staff@[j]).status is Working),
        decreases staff@.len() - idx,
    {
        if staff[idx].status == WorkStatus::Working {
            return true;
        }
        idx += 1;
    }
    false
}

/// Toggle the status of the member the identifier names — the terminal's
/// confirmed action — and hand back the status-change event to log; `None`
/// when no member carries the identifier.
pub fn toggle_member_status(staff: &mut Vec<StaffMember>, uuid: i32, at: Timestamp) -> (r: Option<
    NewWorkEventT,
>)
    ensures
        r is None ==> final(staff)@ == old(staff)@ && (forall|i: int|
            0 <= i < old(staff)@.len() ==> (#[trigger] old(staff)@[i]).spec_uuid() != uuid),
        r matches Some(ev) ==> exists|i: int|
            0 <= i < old(staff)@.len() && (#[trigger] old(staff)@[i]).spec_uuid() == uuid && (
            forall|j: int| 0 <= j < i ==> (#[trigger] old(staff)@[j]).spec_uuid() != uuid)
                && final(staff)@ == old(staff)@.update(
                i,
                (StaffMember { status: old(staff)@[i].status.spec_toggle(), ..old(staff)@[i] }),
            ) && ev == (NewWorkEventT {
                created_at: at,
                event: WorkEvent::StatusChange(
                    uuid,
                    old(staff)@[i].name,
                    old(staff)@[i].status.spec_toggle(),
                ),
            }),
{
    let found = StaffMember::get_index_by_uuid(staff.as_slice(), uuid);
    match found {
        None => None,
        Some(i) => {
            let m = staff.remove(i);
            let new_status = m.status.toggle();
            let ev = NewWorkEventT {
                created_at: at,
                event: WorkEvent::StatusChange(uuid, m.name.clone(), new_status),
            };
            staff.insert(i, StaffMember { status: new_status, ..m });
            proof {
                assert(staff@ =~= old(staff)@.update(
                    i as int,
                    (StaffMember {
                        status: old(staff)@[i as int].status.spec_toggle(),
                        ..old(staff)@[i as int]
                    }),
                ));
            }
            Some(ev)
        },
    }
}

} // verus!
