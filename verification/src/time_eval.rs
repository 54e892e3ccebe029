//! The time-bucket allocator.
//!
//! A worked half-open interval `[start, end)` is split into three
//! time-of-day pay-rate buckets that repeat every day:
//! bucket 0 covers 04:00-20:00, bucket 1 covers 20:00-24:00, and bucket 2
//! covers 00:00-04:00.
//!
//! The meaning of the split is given second by second: a bucket receives
//! exactly the seconds of the interval whose time of day falls inside it
//! (`alloc_in_bucket`).  The executable allocator walks the interval one
//! bucket span at a time and is proved to produce exactly those counts.

use vstd::prelude::*;

verus! {

use vstd::arithmetic::div_mod::{
    lemma_add_mod_noop,
    lemma_mod_pos_bound,
    lemma_mod_self_0,
    lemma_small_mod,
};

use crate::statistics::StatisticsError;
use crate::time::{Timestamp, SECS_PER_DAY, SECS_PER_HOUR};

/// A second count.
pub type Secs = u64;

/// The bucket that a second of day belongs to.
pub open spec fn bucket_index_of(tod: int) -> int {
    if tod < 4 * 3600 {
        2
    } else if tod < 20 * 3600 {
        0
    } else {
        1
    }
}

/// The first second of day of bucket `k`.
pub open spec fn bucket_start(k: int) -> int {
    if k == 0 {
        4 * 3600int
    } else if k == 1 {
        20 * 3600int
    } else {
        0
    }
}

/// The length, in seconds, of bucket `k`'s daily span.
pub open spec fn bucket_duration(k: int) -> int {
    if k == 0 {
        16 * 3600int
    } else {
        4 * 3600int
    }
}

/// The seconds of `[start, end)` whose time of day falls in bucket `k`,
/// counted one second at a time.  This is the allocator's meaning.
pub open spec fn alloc_in_bucket(start: int, end: int, k: int) -> int
    decreases end - start,
{
    if end <= start {
        0
    } else {
        alloc_in_bucket(start, end - 1, k) + (if bucket_index_of((end - 1) % (SECS_PER_DAY as int))
            == k {
            1int
        } else {
            0int
        })
    }
}

/// Each bucket receives at least nothing and at most the whole interval.
pub proof fn lemma_alloc_in_bucket_bounds(start: int, end: int, k: int)
    requires
        start <= end,
    ensures
        0 <= alloc_in_bucket(start, end, k) <= end - start,
    decreases end - start,
{
    if start < end {
        lemma_alloc_in_bucket_bounds(start, end - 1, k);
    }
}

/// Allocator additivity: splitting an interval anywhere and allocating the two
/// parts gives, bucket for bucket, the same result as allocating the whole.
pub proof fn lemma_allocate_additive(start: int, mid: int, end: int, k: int)
    requires
        start <= mid <= end,
    ensures
        alloc_in_bucket(start, end, k) == alloc_in_bucket(start, mid, k) + alloc_in_bucket(
            mid,
            end,
            k,
        ),
    decreases end - mid,
{
    if mid < end {
        lemma_allocate_additive(start, mid, end - 1, k);
    }
}

/// Allocator conservation: the three buckets together receive every second of
/// the interval exactly once.
pub proof fn lemma_allocate_conservation(start: int, end: int)
    requires
        start <= end,
    ensures
        alloc_in_bucket(start, end, 0) + alloc_in_bucket(start, end, 1) + alloc_in_bucket(
            start,
            end,
            2,
        ) == end - start,
    decreases end - start,
{
    if start < end {
        lemma_allocate_conservation(start, end - 1);
    }
}

/// Advancing within a day: as long as the sum stays below the day length,
/// adding to a time does the same to its time of day.
proof fn lemma_mod_advance(a: int, i: int)
    requires
        0 <= a,
        0 <= i,
        a % (SECS_PER_DAY as int) + i < SECS_PER_DAY,
    ensures
        (a + i) % (SECS_PER_DAY as int) == a % (SECS_PER_DAY as int) + i,
{
    let m = SECS_PER_DAY as int;
    lemma_mod_pos_bound(a, m);
    lemma_small_mod(i as nat, m as nat);
    lemma_add_mod_noop(a, i, m);
    lemma_small_mod((a % m + i) as nat, m as nat);
}

/// Advancing exactly to the next midnight: the time of day wraps to zero.
proof fn lemma_mod_wrap(a: int, i: int)
    requires
        0 <= a,
        0 <= i < SECS_PER_DAY,
        a % (SECS_PER_DAY as int) + i == SECS_PER_DAY,
    ensures
        (a + i) % (SECS_PER_DAY as int) == 0,
{
    let m = SECS_PER_DAY as int;
    lemma_mod_pos_bound(a, m);
    lemma_small_mod(i as nat, m as nat);
    lemma_add_mod_noop(a, i, m);
    lemma_mod_self_0(m);
}

/// An interval lying wholly inside bucket `k`'s daily span is allocated to
/// bucket `k` alone.
proof fn lemma_alloc_uniform(start: int, len: int, k: int, j: int)
    requires
        0 <= start,
        0 <= len,
        0 <= k < 3,
        bucket_start(k) <= start % (SECS_PER_DAY as int),
        start % (SECS_PER_DAY as int) + len <= bucket_start(k) + bucket_duration(k),
    ensures
        alloc_in_bucket(start, start + len, j) == (if j == k {
            len
        } else {
            0int
        }),
    decreases len,
{
    if len > 0 {
        lemma_alloc_uniform(start, len - 1, k, j);
        lemma_mod_advance(start, len - 1);
        assert(bucket_index_of((start + len - 1) % (SECS_PER_DAY as int)) == k);
        assert(alloc_in_bucket(start, start + len, j) == alloc_in_bucket(start, start + len - 1, j)
            + (if j == k {
            1int
        } else {
            0int
        }));
    }
}

/// One of the three daily time periods a second of day can fall in.
#[derive(Debug, Clone, Copy, PartialEq, Eq, Structural)]
pub enum DurationSMLabel {
    /// 04:00-20:00, bucket 0.
    L4_20,
    /// 20:00-24:00, bucket 1.
    L20_24,
    /// 00:00-04:00, bucket 2.
    L24_4,
}

/// The label whose daily span contains the given second of day.
pub open spec fn label_of(s: int) -> DurationSMLabel {
    if s < 4 * 3600 {
        DurationSMLabel::L24_4
    } else if s < 20 * 3600 {
        DurationSMLabel::L4_20
    } else {
        DurationSMLabel::L20_24
    }
}

impl DurationSMLabel {
    /// The bucket this label fills.
    pub open spec fn spec_index(self) -> int {
        match self {
            DurationSMLabel::L4_20 => 0,
            DurationSMLabel::L20_24 => 1,
            DurationSMLabel::L24_4 => 2,
        }
    }

    pub open spec fn spec_start(self) -> int {
        bucket_start(self.spec_index())
    }

    pub open spec fn spec_duration(self) -> int {
        bucket_duration(self.spec_index())
    }

    /// The label of the next time period of the day cycle.
    pub open spec fn spec_next(self) -> DurationSMLabel {
        match self {
            DurationSMLabel::L4_20 => DurationSMLabel::L20_24,
            DurationSMLabel::L20_24 => DurationSMLabel::L24_4,
            DurationSMLabel::L24_4 => DurationSMLabel::L4_20,
        }
    }

    /// The number of seconds in this label's time period.
    pub fn to_duration_seconds(&self) -> (r: Secs)
        ensures
            r == self.spec_duration(),
    {
        match self {
            DurationSMLabel::L4_20 => (20 - 4) * SECS_PER_HOUR,
            DurationSMLabel::L20_24 => (24 - 20) * SECS_PER_HOUR,
            DurationSMLabel::L24_4 => (4 - 0) * SECS_PER_HOUR,
        }
    }

    /// The first second of day of this label's time period.
    pub fn to_start_seconds(&self) -> (r: Secs)
        ensures
            r == self.spec_start(),
    {
        match self {
            DurationSMLabel::L4_20 => 4 * SECS_PER_HOUR,
            DurationSMLabel::L20_24 => 20 * SECS_PER_HOUR,
            DurationSMLabel::L24_4 => 0 * SECS_PER_HOUR,
        }
    }

    /// The label for a second of day between midnight and the following
    /// midnight.
    pub fn from_absolute_seconds(s: Secs) -> (r: DurationSMLabel)
        requires
            s < SECS_PER_DAY,
        ensures
            r == label_of(s as int),
            r.spec_start() <= s < r.spec_start() + r.spec_duration(),
            r.spec_index() == bucket_index_of(s as int),
    {
        if s < 4 * SECS_PER_HOUR {
            DurationSMLabel::L24_4
        } else if s < 20 * SECS_PER_HOUR {
            DurationSMLabel::L4_20
        } else {
            DurationSMLabel::L20_24
        }
    }
}

/// State machine that distributes the seconds between two points in time into
/// buckets, one time period of the day cycle at a time.
pub struct DurationSM {
    b0: Secs,
    b1: Secs,
    b2: Secs,
    label: DurationSMLabel,
    /// Offset within the current time period; nonzero only until the first
    /// period is consumed, when the starting time is not aligned.
    current_seconds: Secs,
}

impl DurationSM {
    pub closed spec fn spec_bucket(&self, k: int) -> int {
        if k == 0 {
            self.b0 as int
        } else if k == 1 {
            self.b1 as int
        } else {
            self.b2 as int
        }
    }

    pub closed spec fn spec_label(&self) -> DurationSMLabel {
        self.label
    }

    pub closed spec fn spec_offset(&self) -> int {
        self.current_seconds as int
    }

    /// The machine's offset never reaches the end of its current period.
    pub open spec fn wf(&self) -> bool {
        self.spec_offset() < self.spec_label().spec_duration()
    }

    /// A machine starting at the given second of day: the label containing
    /// it, the offset within that label's period, and empty buckets.
    pub fn new(start_seconds: Secs) -> (r: DurationSM)
        requires
            start_seconds < SECS_PER_DAY,
        ensures
            r.wf(),
            r.spec_label() == label_of(start_seconds as int),
            r.spec_offset() == start_seconds - r.spec_label().spec_start(),
            forall|k: int| 0 <= k < 3 ==> r.spec_bucket(k) == 0,
    {
        let label = DurationSMLabel::from_absolute_seconds(start_seconds);
        let current_seconds = start_seconds - label.to_start_seconds();
        DurationSM { b0: 0, b1: 0, b2: 0, label, current_seconds }
    }

    /// Advance to the next time period of the day cycle.
    pub fn next_step(&mut self)
        ensures
            final(self).spec_label() == old(self).spec_label().spec_next(),
            final(self).spec_offset() == old(self).spec_offset(),
            forall|k: int| 0 <= k < 3 ==> final(self).spec_bucket(k) == old(self).spec_bucket(k),
    {
        match self.label {
            DurationSMLabel::L4_20 => self.label = DurationSMLabel::L20_24,
            DurationSMLabel::L20_24 => self.label = DurationSMLabel::L24_4,
            DurationSMLabel::L24_4 => self.label = DurationSMLabel::L4_20,
        }
    }

    /// The number of seconds left in the current time period.
    pub fn get_current_seconds(&self) -> (r: Secs)
        requires
            self.wf(),
        ensures
            r == self.spec_label().spec_duration() - self.spec_offset(),
            r >= 1,
    {
        self.label.to_duration_seconds() - self.current_seconds
    }

    /// Add `s` seconds to the current period's bucket and mark the period's
    /// offset as consumed.
    pub fn add_time(&mut self, s: Secs)
        requires
            old(self).spec_bucket(old(self).spec_label().spec_index()) + s <= u64::MAX,
        ensures
            final(self).spec_label() == old(self).spec_label(),
            final(self).spec_offset() == 0,
            forall|k: int|
                0 <= k < 3 ==> final(self).spec_bucket(k) == old(self).spec_bucket(k) + (if k
                    == old(self).spec_label().spec_index() {
                    s as int
                } else {
                    0int
                }),
    {
        match self.label {
            DurationSMLabel::L4_20 => self.b0 = self.b0 + s,
            DurationSMLabel::L20_24 => self.b1 = self.b1 + s,
            DurationSMLabel::L24_4 => self.b2 = self.b2 + s,
        }
        self.current_seconds = 0;
    }

    /// The buckets accumulated so far, as a duration.
    pub fn to_work_duration(&self) -> (r: WorkDuration)
        ensures
            forall|k: int| 0 <= k < 3 ==> r.bucket(k) == self.spec_bucket(k),
    {
        WorkDuration(self.b0, self.b1, self.b2)
    }
}

/// A worked duration, split into the three pay-rate buckets, in seconds.
#[derive(Debug, Clone, Copy, PartialEq, Eq, Structural)]
pub struct WorkDuration(pub Secs, pub Secs, pub Secs);

impl WorkDuration {
    /// The seconds this duration holds in bucket `k`.
    pub open spec fn bucket(self, k: int) -> int {
        if k == 0 {
            self.0 as int
        } else if k == 1 {
            self.1 as int
        } else {
            self.2 as int
        }
    }

    /// The empty duration.
    pub fn zero() -> (r: WorkDuration)
        ensures
            forall|k: int| 0 <= k < 3 ==> r.bucket(k) == 0,
    {
        WorkDuration(0, 0, 0)
    }

    /// Bucket-wise sum.  Fails, naming the two counts that clashed, exactly
    /// when some bucket's sum does not fit.
    pub fn checked_add(&self, rhs: &WorkDuration) -> (r: Result<WorkDuration, StatisticsError>)
        ensures
            ({
                if self.bucket(0) + rhs.bucket(0) > u64::MAX {
                    r == Err::<WorkDuration, StatisticsError>(
                        StatisticsError::DurationError(rhs.0, self.0),
                    )
                } else if self.bucket(1) + rhs.bucket(1) > u64::MAX {
                    r == Err::<WorkDuration, StatisticsError>(
                        StatisticsError::DurationError(rhs.1, self.1),
                    )
                } else if self.bucket(2) + rhs.bucket(2) > u64::MAX {
                    r == Err::<WorkDuration, StatisticsError>(
                        StatisticsError::DurationError(rhs.2, self.2),
                    )
                } else {
                    r matches Ok(w) && (forall|k: int|
                        0 <= k < 3 ==> w.bucket(k) == self.bucket(k) + rhs.bucket(k))
                }
            }),
    {
        let r0 = match self.0.checked_add(rhs.0) {
            Some(v) => v,
            None => {
                return Err(StatisticsError::DurationError(rhs.0, self.0));
            },
        };
        let r1 = match self.1.checked_add(rhs.1) {
            Some(v) => v,
            None => {
                return Err(StatisticsError::DurationError(rhs.1, self.1));
            },
        };
        let r2 = match self.2.checked_add(rhs.2) {
            Some(v) => v,
            None => {
                return Err(StatisticsError::DurationError(rhs.2, self.2));
            },
        };
        Ok(WorkDuration(r0, r1, r2))
    }

    /// Allocate the half-open interval `[start_time, end_time)` to the
    /// buckets: each bucket receives exactly the seconds whose time of day
    /// falls in its daily span.
    pub fn from_start_end_time(start_time: Timestamp, end_time: Timestamp) -> (r: WorkDuration)
        requires
            start_time.secs < end_time.secs,
        ensures
            forall|k: int|
                0 <= k < 3 ==> #[trigger] r.bucket(k) == alloc_in_bucket(
                    start_time.secs as int,
                    end_time.secs as int,
                    k,
                ),
    {
        let ghost start = start_time.secs as int;
        let ghost end = end_time.secs as int;
        let current_seconds = start_time.num_seconds_from_midnight();
        let mut seconds_remaining: u64 = end_time.secs - start_time.secs;
        let mut sm = DurationSM::new(current_seconds);

        proof {
            lemma_mod_pos_bound(start, SECS_PER_DAY as int);
        }

        while seconds_remaining > 0
            invariant
                start == start_time.secs,
                end == end_time.secs,
                start < end,
                seconds_remaining <= end - start,
                sm.wf(),
                forall|k: int|
                    0 <= k < 3 ==> #[trigger] sm.spec_bucket(k) == alloc_in_bucket(
                        start,
                        end - seconds_remaining,
                        k,
                    ),
                seconds_remaining > 0 ==> (end - seconds_remaining) % (SECS_PER_DAY as int)
                    == sm.spec_label().spec_start() + sm.spec_offset(),
            decreases seconds_remaining,
        {
            let ghost cursor = end - seconds_remaining;
            let ghost kidx = sm.spec_label().spec_index();
            let cur = sm.get_current_seconds();
            let s = if seconds_remaining < cur {
                seconds_remaining
            } else {
                cur
            };

            proof {
                // The current bucket cannot overflow: the buckets sum to the
                // seconds consumed so far, which with `s` stays within the
                // whole interval.
                lemma_allocate_conservation(start, cursor);
                lemma_alloc_in_bucket_bounds(start, cursor, 0);
                lemma_alloc_in_bucket_bounds(start, cursor, 1);
                lemma_alloc_in_bucket_bounds(start, cursor, 2);
                // The chunk `[cursor, cursor + s)` lies inside the current
                // label's daily span, so it all lands in that one bucket.
                lemma_alloc_uniform(cursor, s as int, kidx, 0);
                lemma_alloc_uniform(cursor, s as int, kidx, 1);
                lemma_alloc_uniform(cursor, s as int, kidx, 2);
                lemma_allocate_additive(start, cursor, cursor + s, 0);
                lemma_allocate_additive(start, cursor, cursor + s, 1);
                lemma_allocate_additive(start, cursor, cursor + s, 2);
            }

            seconds_remaining = seconds_remaining - s;
            sm.add_time(s);
            sm.next_step();

            proof {
                if seconds_remaining > 0 {
                    // The chunk filled its whole period, so the new cursor
                    // sits exactly at the start of the next period.
                    if sm.spec_label().spec_start() == 0 {
                        lemma_mod_wrap(cursor, s as int);
                    } else {
                        lemma_mod_advance(cursor, s as int);
                    }
                }
            }
        }
        sm.to_work_duration()
    }

    /// The whole minutes each bucket holds.
    pub fn num_minutes(&self) -> (r: [i64; 3])
        ensures
            r@.len() == 3,
            forall|k: int| 0 <= k < 3 ==> r@[k] == self.bucket(k) / 60,
    {
        let minutes_1 = (self.0 / 60) as i64;
        let minutes_2 = (self.1 / 60) as i64;
        let minutes_3 = (self.2 / 60) as i64;
        [minutes_1, minutes_2, minutes_3]
    }
}

} // verus!
