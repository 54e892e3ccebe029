//! The domain data model: work statuses, logged events, and staff members.

use vstd::prelude::*;

verus! {

use vstd::string::is_ascii;
use vstd::string::StringSliceAdditionalSpecFns;

use crate::time::Timestamp;

/// Validation errors on staff-member input.
#[derive(Debug, Clone, PartialEq, Eq)]
pub enum ModelError {
    EmptyName,
    ParsePIN(String),
    ParseCardid(String),
}

/// The two-valued work status of a staff member.  It is always derived from
/// the event log, never stored.
#[derive(Debug, Clone, Copy, PartialEq, Eq, Structural)]
pub enum WorkStatus {
    Away,
    Working,
}

impl WorkStatus {
    pub open spec fn spec_toggle(self) -> WorkStatus {
        match self {
            WorkStatus::Away => WorkStatus::Working,
            WorkStatus::Working => WorkStatus::Away,
        }
    }

    pub fn from_bool(b: bool) -> (r: WorkStatus)
        ensures
            r == (if b {
                WorkStatus::Working
            } else {
                WorkStatus::Away
            }),
    {
        if b {
            WorkStatus::Working
        } else {
            WorkStatus::Away
        }
    }

    /// Toggling is the only change a status-change event may request.
    pub fn toggle(&self) -> (r: WorkStatus)
        ensures
            r == self.spec_toggle(),
    {
        match self {
            WorkStatus::Away => WorkStatus::Working,
            WorkStatus::Working => WorkStatus::Away,
        }
    }
}

/// A domain event, immutable once created.
#[derive(Debug, Clone, PartialEq, Eq)]
pub enum WorkEvent {
    /// A staff member (by identifier, with a snapshot of their name)
    /// transitioned to the given status.
    StatusChange(i32, String, WorkStatus),
    /// Legacy marker retained so that historical logs still parse; carries no
    /// status semantics.
    EventStart,
    /// Legacy manual close-out of a shift; the processor records an anomaly
    /// for members still working but forces no transition.
    EventOver,
    /// The daily boundary at the fixed cutover hour: a hard reset, after
    /// which every member counts as away.
    _6am,
    /// An operator-visible note; no status semantics.
    Info(String),
    /// An operator-visible error entry; no status semantics.
    Error(String),
}

/// A logged event: a domain event plus its creation time and the identifier
/// the log assigned on append.  Identifiers increase strictly at insertion,
/// so `(created_at, id)` totally orders the log.
#[derive(Debug, Clone, PartialEq, Eq)]
pub struct WorkEventT {
    pub id: i32,
    pub created_at: Timestamp,
    pub event: WorkEvent,
}

/// The log's total order over events: by timestamp, then by the log-assigned
/// identifier as the tie-break.
pub open spec fn event_le(a: WorkEventT, b: WorkEventT) -> bool {
    a.created_at.secs < b.created_at.secs || (a.created_at.secs == b.created_at.secs
        && a.spec_id() <= b.spec_id())
}

impl WorkEventT {
    pub open spec fn spec_id(&self) -> i32 {
        self.id
    }

    pub fn new(id: i32, created_at: Timestamp, event: WorkEvent) -> (r: WorkEventT)
        ensures
            r.spec_id() == id,
            r.created_at == created_at,
            r.event == event,
    {
        WorkEventT { id, created_at, event }
    }

    pub fn id(&self) -> (r: i32)
        ensures
            r == self.spec_id(),
    {
        self.id
    }

    /// Whether `self` comes no later than `other` in the log's total order.
    pub fn le(&self, other: &WorkEventT) -> (r: bool)
        ensures
            r == event_le(*self, *other),
    {
        self.created_at.secs < other.created_at.secs || (self.created_at.secs
            == other.created_at.secs && self.id <= other.id)
    }
}

/// An event that has not been appended to the log yet: no identifier.
#[derive(Debug, Clone, PartialEq, Eq)]
pub struct NewWorkEventT {
    pub created_at: Timestamp,
    pub event: WorkEvent,
}

impl NewWorkEventT {
    pub fn new(created_at: Timestamp, event: WorkEvent) -> (r: NewWorkEventT)
        ensures
            r.created_at == created_at,
            r.event == event,
    {
        NewWorkEventT { created_at, event }
    }
}

/// Whether a character may appear in a PIN: an ASCII letter or digit.
pub open spec fn is_pin_char(c: char) -> bool {
    ('0' <= c && c <= '9') || ('A' <= c && c <= 'Z') || ('a' <= c && c <= 'z')
}

/// A well-formed PIN: exactly four ASCII letters or digits.
pub open spec fn pin_valid(s: Seq<char>) -> bool {
    s.len() == 4 && (forall|i: int| 0 <= i < s.len() ==> is_pin_char(#[trigger] s[i]))
}

/// A well-formed card identifier: exactly ten ASCII digits.
pub open spec fn cardid_valid(s: Seq<char>) -> bool {
    s.len() == 10 && (forall|i: int|
        0 <= i < s.len() ==> '0' <= #[trigger] s[i] && s[i] <= '9')
}

/// A staff member's numeric PIN, as typed at the terminal.
#[derive(Debug, Clone, Copy, PartialEq, Eq, Structural)]
pub struct PIN;

/// A staff member's RFID card identifier, as swiped at the terminal.
#[derive(Debug, Clone, Copy, PartialEq, Eq, Structural)]
pub struct Cardid;

impl PIN {
    /// Accepts exactly the well-formed PINs.
    pub fn parse(s: &str) -> (r: Result<PIN, ModelError>)
        ensures
            r is Ok <==> pin_valid(s@),
            r matches Err(e) ==> e matches ModelError::ParsePIN(p) && p@ == s@,
    {
        if check_ascii_run(s, 4, false) {
            Ok(PIN)
        } else {
            Err(ModelError::ParsePIN(s.to_owned()))
        }
    }
}

impl Cardid {
    /// Accepts exactly the well-formed card identifiers.
    pub fn parse(s: &str) -> (r: Result<Cardid, ModelError>)
        ensures
            r is Ok <==> cardid_valid(s@),
            r matches Err(e) ==> e matches ModelError::ParseCardid(c) && c@ == s@,
    {
        if check_ascii_run(s, 10, true) {
            Ok(Cardid)
        } else {
            Err(ModelError::ParseCardid(s.to_owned()))
        }
    }
}

/// Whether `s` consists of exactly `want_len` characters, every one an ASCII
/// digit (`digits_only`) or an ASCII letter or digit (otherwise).
fn check_ascii_run(s: &str, want_len: usize, digits_only: bool) -> (r: bool)
    ensures
        digits_only ==> r == (s@.len() == want_len && (forall|i: int|
            0 <= i < s@.len() ==> '0' <= #[trigger] s@[i] && s@[i] <= '9')),
        !digits_only ==> r == (s@.len() == want_len && (forall|i: int|
            0 <= i < s@.len() ==> is_pin_char(#[trigger] s@[i]))),
{
    if !s.is_ascii() {
        // Some character lies beyond ASCII, so some character fails either
        // class; but the length clause may still need a witness.
        proof {
            let j = choose|j: int| 0 <= j < s@.len() && !('\0' <= #[trigger] s@[j] && s@[j] <= '\u{7f}');
            assert(!is_pin_char(s@[j]));
            assert(!('0' <= s@[j] && s@[j] <= '9'));
        }
        return false;
    }
    proof {
        vstd::string::is_ascii_spec_bytes(s);
    }
    let bytes = s.as_bytes();
    if bytes.len() != want_len {
        return false;
    }
    let mut i: usize = 0;
    while i < bytes.len()
        invariant
            is_ascii(s),
            bytes@ == s.spec_bytes(),
            s.spec_bytes() =~= Seq::new(s@.len(), |k: int| s@[k] as u8),
            bytes@.len() == s@.len(),
            0 <= i <= bytes@.len(),
            forall|k: int|
                0 <= k < i ==> (if digits_only {
                    '0' <= #[trigger] s@[k] && s@[k] <= '9'
                } else {
                    is_pin_char(s@[k])
                }),
        decreases bytes@.len() - i,
    {
        let b = bytes[i];
        let ok = if digits_only {
            48 <= b && b <= 57
        } else {
            (48 <= b && b <= 57) || (65 <= b && b <= 90) || (97 <= b && b <= 122)
        };
        proof {
            let c = s@[i as int];
            assert('\0' <= c <= '\u{7f}');
            assert(b == c as u8);
            assert(c as u8 == c as u32 && '0' as u32 == 48 && '9' as u32 == 57 && 'A' as u32 == 65
                && 'Z' as u32 == 90 && 'a' as u32 == 97 && 'z' as u32 == 122);
        }
        if !ok {
            return false;
        }
        i += 1;
    }
    true
}

/// A staff member as the directory stores it: identity and contact fields
/// only, never a live status.
#[derive(Debug, Clone, PartialEq, Eq)]
pub struct DBStaffMember {
    pub uuid: i32,
    pub name: String,
    pub pin: String,
    pub cardid: String,
    pub is_visible: bool,
}

impl DBStaffMember {
    pub open spec fn spec_uuid(&self) -> i32 {
        self.uuid
    }

    pub fn new(uuid: i32, name: String, pin: String, cardid: String, is_visible: bool) -> (r:
        DBStaffMember)
        ensures
            r.spec_uuid() == uuid,
            r.name == name,
            r.pin == pin,
            r.cardid == cardid,
            r.is_visible == is_visible,
    {
        DBStaffMember { uuid, name, pin, cardid, is_visible }
    }

    pub fn uuid(&self) -> (r: i32)
        ensures
            r == self.spec_uuid(),
    {
        self.uuid
    }

    pub fn name(&self) -> (r: &String)
        ensures
            r == self.name,
    {
        &self.name
    }

    /// What `with_status` returns: the same record, with the given derived
    /// status attached.
    pub open spec fn spec_with_status(self, status: WorkStatus) -> StaffMember {
        StaffMember {
            uuid: self.spec_uuid(),
            name: self.name,
            pin: self.pin,
            cardid: self.cardid,
            is_visible: self.is_visible,
            status,
        }
    }

    /// Attach a derived status, turning the stored record into the in-memory
    /// staff member.
    pub fn with_status(self, status: WorkStatus) -> (r: StaffMember)
        ensures
            r == self.spec_with_status(status),
    {
        let DBStaffMember { uuid, name, pin, cardid, is_visible } = self;
        StaffMember { uuid, name, pin, cardid, is_visible, status }
    }
}

/// A staff member as the program uses it: the stored record plus the status
/// derived by replaying the event log.
#[derive(Debug, Clone, PartialEq, Eq)]
pub struct StaffMember {
    pub uuid: i32,
    pub name: String,
    pub pin: String,
    pub cardid: String,
    pub status: WorkStatus,
    pub is_visible: bool,
}

impl StaffMember {
    pub open spec fn spec_uuid(&self) -> i32 {
        self.uuid
    }

    pub fn uuid(&self) -> (r: i32)
        ensures
            r == self.spec_uuid(),
    {
        self.uuid
    }

    /// Forget the derived status, leaving the fields the directory stores.
    pub open spec fn spec_forget_status(self) -> DBStaffMember {
        DBStaffMember {
            uuid: self.spec_uuid(),
            name: self.name,
            pin: self.pin,
            cardid: self.cardid,
            is_visible: self.is_visible,
        }
    }

    pub fn forget_status(&self) -> (r: DBStaffMember)
        ensures
            r == self.spec_forget_status(),
    {
        DBStaffMember {
            uuid: self.uuid,
            name: self.name.clone(),
            pin: self.pin.clone(),
            cardid: self.cardid.clone(),
            is_visible: self.is_visible,
        }
    }

    /// The first member of `staff` carrying this card identifier, if any.
    pub fn get_by_card_id<'a>(staff: &'a [StaffMember], cardid: &str) -> (r: Option<
        &'a StaffMember,
    >)
        ensures
            match r {
                Some(m) => exists|i: int|
                    0 <= i < staff@.len() && m == #[trigger] staff@[i] && staff@[i].cardid@
                        == cardid@ && (forall|j: int|
                        0 <= j < i ==> (#[trigger] staff@[j]).cardid@ != cardid@),
                None => forall|i: int|
                    0 <= i < staff@.len() ==> (#[trigger] staff@[i]).cardid@ != cardid@,
            },
    {
        let ident: String = cardid.to_owned();
        let mut idx: usize = 0;
        while idx < staff.len()
            invariant
                ident@ == cardid@,
                0 <= idx <= staff@.len(),
                forall|j: int| 0 <= j < idx ==> (#[trigger] staff@[j]).cardid@ != cardid@,
            decreases staff@.len() - idx,
        {
            if staff[idx].cardid == ident {
                return Some(&staff[idx]);
            }
            idx += 1;
        }
        None
    }

    /// The first member of `staff` whose PIN or card identifier equals
    /// `ident`.  The directory keeps PINs and card identifiers disjoint, so
    /// at most one member can match.
    pub fn get_by_pin_or_card_id<'a>(staff: &'a [StaffMember], ident: &str) -> (r: Option<
        &'a StaffMember,
    >)
        ensures
            match r {
                Some(m) => exists|i: int|
                    0 <= i < staff@.len() && m == #[trigger] staff@[i] && (staff@[i].pin@ == ident@
                        || staff@[i].cardid@ == ident@) && (forall|j: int|
                        0 <= j < i ==> (#[trigger] staff@[j]).pin@ != ident@ && staff@[j].cardid@
                            != ident@),
                None => forall|i: int|
                    0 <= i < staff@.len() ==> (#[trigger] staff@[i]).pin@ != ident@
                        && staff@[i].cardid@ != ident@,
            },
    {
        let ident_owned: String = ident.to_owned();
        let mut idx: usize = 0;
        while idx < staff.len()
            invariant
                ident_owned@ == ident@,
                0 <= idx <= staff@.len(),
                forall|j: int|
                    0 <= j < idx ==> (#[trigger] staff@[j]).pin@ != ident@ && staff@[j].cardid@
                        != ident@,
            decreases staff@.len() - idx,
        {
            if staff[idx].pin == ident_owned || staff[idx].cardid == ident_owned {
                return Some(&staff[idx]);
            }
            assert(staff@[idx as int].pin@ != ident@ && staff@[idx as int].cardid@ != ident@);
            idx += 1;
        }
        None
    }

    /// The index of the first member with the given identifier, if any.
    pub fn get_index_by_uuid(staff: &[StaffMember], uuid: i32) -> (r: Option<usize>)
        ensures
            match r {
                Some(i) => 0 <= i < staff@.len() && staff@[i as int].spec_uuid() == uuid && (
                forall|j: int| 0 <= j < i ==> #[trigger] staff@[j].spec_uuid() != uuid),
                None => forall|i: int| 0 <= i < staff@.len() ==> #[trigger] staff@[i].spec_uuid() != uuid,
            },
    {
        let mut idx: usize = 0;
        while idx < staff.len()
            invariant
                0 <= idx <= staff@.len(),
                forall|j: int| 0 <= j < idx ==> #[trigger] staff@[j].spec_uuid() != uuid,
            decreases staff@.len() - idx,
        {
            if staff[idx].uuid == uuid {
                return Some(idx);
            }
            idx += 1;
        }
        None
    }

    /// The first member with the given identifier, if any.
    pub fn get_by_uuid<'a>(staff: &'a [StaffMember], uuid: i32) -> (r: Option<&'a StaffMember>)
        ensures
            match r {
                Some(m) => exists|i: int|
                    0 <= i < staff@.len() && m == #[trigger] staff@[i] && staff@[i].spec_uuid()
                        == uuid,
                None => forall|i: int| 0 <= i < staff@.len() ==> #[trigger] staff@[i].spec_uuid() != uuid,
            },
    {
        match StaffMember::get_index_by_uuid(staff, uuid) {
            Some(i) => Some(&staff[i]),
            None => None,
        }
    }
}

/// A validated staff member about to be inserted into the directory.
#[derive(Debug, Clone, PartialEq, Eq)]
pub struct NewStaffMember {
    pub name: String,
    pub pin: String,
    pub cardid: String,
}

/// The validation rule for staff-member input: a non-empty name, a
/// well-formed PIN and a well-formed card identifier.
pub open spec fn staff_input_valid(name: Seq<char>, pin: Seq<char>, cardid: Seq<char>) -> bool {
    name.len() > 0 && pin_valid(pin) && cardid_valid(cardid)
}

impl NewStaffMember {
    /// Checks staff-member input, reporting the first violation: an empty
    /// name, then a malformed PIN, then a malformed card identifier.
    pub fn validate(name: &str, pin: &str, cardid: &str) -> (r: Result<(), ModelError>)
        ensures
            r is Ok <==> staff_input_valid(name@, pin@, cardid@),
            r matches Err(e) ==> (if name@.len() == 0 {
                e == ModelError::EmptyName
            } else if !pin_valid(pin@) {
                e matches ModelError::ParsePIN(p) && p@ == pin@
            } else {
                e matches ModelError::ParseCardid(c) && c@ == cardid@
            }),
    {
        if name.is_empty() {
            return Err(ModelError::EmptyName);
        }
        match PIN::parse(pin) {
            Ok(_) => (),
            Err(e) => {
                return Err(e);
            },
        }
        match Cardid::parse(cardid) {
            Ok(_) => (),
            Err(e) => {
                return Err(e);
            },
        }
        Ok(())
    }

    /// Builds a new staff member from validated input; rejects invalid input
    /// with the same error `validate` reports.
    pub fn new(name: String, pin: String, cardid: String) -> (r: Result<NewStaffMember, ModelError>)
        ensures
            r matches Ok(m) ==> m.name == name && m.pin == pin && m.cardid == cardid,
            r is Ok <==> staff_input_valid(name@, pin@, cardid@),
            r matches Err(e) ==> (if name@.len() == 0 {
                e == ModelError::EmptyName
            } else if !pin_valid(pin@) {
                e matches ModelError::ParsePIN(p) && p@ == pin@
            } else {
                e matches ModelError::ParseCardid(c) && c@ == cardid@
            }),
    {
        match NewStaffMember::validate(name.as_str(), pin.as_str(), cardid.as_str()) {
            Ok(_) => Ok(NewStaffMember { name, pin, cardid }),
            Err(e) => Err(e),
        }
    }
}

} // verus!
