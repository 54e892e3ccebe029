//! Staff directory management: editing and removing roster entries.
//!
//! These are the roster halves of the management actions; persisting the
//! result and the surrounding input handling are the caller's.

use vstd::prelude::*;

verus! {

use crate::models::{pin_valid, staff_input_valid, ModelError, NewStaffMember, StaffMember};
use crate::StechuhrError;

/// Errors of the management operations.
#[derive(Debug, Clone, PartialEq, Eq)]
pub enum ManagementError {
    /// A row index that does not name a staff member.
    IndexError(usize),
    InvalidPassword,
}

/// The roster entry as an edit leaves it: new contact fields, same identifier
/// and same derived status.
pub open spec fn spec_updated_member(
    m: StaffMember,
    name: String,
    pin: String,
    cardid: String,
    is_visible: bool,
) -> StaffMember {
    StaffMember { name, pin, cardid, is_visible, ..m }
}

/// Replace the contact fields of the roster entry at `idx` with validated
/// input.  Reports the index when it names no entry, else the first
/// validation failure; the roster is unchanged on failure.
pub fn update_staff_entry(
    staff: &mut Vec<StaffMember>,
    idx: usize,
    name: String,
    pin: String,
    cardid: String,
    is_visible: bool,
) -> (r: Result<(), StechuhrError>)
    ensures
        ({
            if idx >= old(staff)@.len() {
                &&& r == Err::<(), StechuhrError>(
                    StechuhrError::Management(ManagementError::IndexError(idx)),
                )
                &&& final(staff)@ == old(staff)@
            } else if !staff_input_valid(name@, pin@, cardid@) {
                &&& final(staff)@ == old(staff)@
                &&& r matches Err(e) && e matches StechuhrError::Model(me) && (
                if name@.len() == 0 {
                    me == ModelError::EmptyName
                } else if !pin_valid(pin@) {
                    me matches ModelError::ParsePIN(p) && p@ == pin@
                } else {
                    me matches ModelError::ParseCardid(c) && c@ == cardid@
                })
            } else {
                &&& r is Ok
                &&& final(staff)@ == old(staff)@.update(
                    idx as int,
                    spec_updated_member(old(staff)@[idx as int], name, pin, cardid, is_visible),
                )
            }
        }),
{
    if idx >= staff.len() {
        return Err(StechuhrError::Management(ManagementError::IndexError(idx)));
    }
    match NewStaffMember::validate(name.as_str(), pin.as_str(), cardid.as_str()) {
        Ok(()) => (),
        Err(e) => {
            return Err(StechuhrError::Model(e));
        },
    }
    let m = staff.remove(idx);
    staff.insert(idx, StaffMember { name, pin, cardid, is_visible, ..m });
    proof {
        assert(staff@ =~= old(staff)@.update(
            idx as int,
            spec_updated_member(old(staff)@[idx as int], name, pin, cardid, is_visible),
        ));
    }
    Ok(())
}

/// Remove the roster entry at `idx` and hand it back, for the directory to
/// deactivate; reports the index when it names no entry.
pub fn remove_staff_entry(staff: &mut Vec<StaffMember>, idx: usize) -> (r: Result<
    StaffMember,
    ManagementError,
>)
    ensures
        ({
            if idx < old(staff)@.len() {
                &&& r matches Ok(m) && m == old(staff)@[idx as int]
                &&& final(staff)@ == old(staff)@.remove(idx as int)
            } else {
                &&& r == Err::<StaffMember, ManagementError>(ManagementError::IndexError(idx))
                &&& final(staff)@ == old(staff)@
            }
        }),
{
    if idx >= staff.len() {
        return Err(ManagementError::IndexError(idx));
    }
    Ok(staff.remove(idx))
}

} // verus!
