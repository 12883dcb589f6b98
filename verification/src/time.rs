use std::cmp::Ordering;
use std::time::Duration;
use vstd::prelude::*;
use vstd::std_specs::cmp::PartialOrdSpec;

verus! {

/// Whole milliseconds held by a [`Duration`], as `Duration::as_millis` reports them.
pub uninterp spec fn duration_millis(d: Duration) -> int;

/// Calls `Duration::from_millis`.
///
/// The standard library documents that the result spans exactly `ms` milliseconds,
/// so `as_millis` of it gives `ms` back.
#[verifier::external_body]
fn duration_from_millis(ms: u64) -> (d: Duration)
    ensures
        duration_millis(d) == ms as int,
{
    Duration::from_millis(ms)
}

/// Calls `Duration::as_millis`, the total number of whole milliseconds.
#[verifier::external_body]
fn duration_as_millis(d: Duration) -> (ms: u128)
    ensures
        ms as int == duration_millis(d),
{
    d.as_millis()
}

/// Timestamp of a frame, relative to the start of the stream.
#[derive(Copy, Clone, Debug, PartialEq, Eq, Ord)]
pub struct Timestamp(u64);

/// How two millisecond counts compare.
pub open spec fn order_of(a: u64, b: u64) -> Ordering {
    if a < b {
        Ordering::Less
    } else if a == b {
        Ordering::Equal
    } else {
        Ordering::Greater
    }
}

impl PartialOrd for Timestamp {
    /// Timestamps compare as their milliseconds.
    fn partial_cmp(&self, other: &Self) -> (r: Option<Ordering>) {
        if self.0 < other.0 {
            Some(Ordering::Less)
        } else if self.0 == other.0 {
            Some(Ordering::Equal)
        } else {
            Some(Ordering::Greater)
        }
    }
}

impl vstd::std_specs::cmp::PartialOrdSpecImpl for Timestamp {
    open spec fn obeys_partial_cmp_spec() -> bool {
        true
    }

    open spec fn partial_cmp_spec(&self, other: &Self) -> Option<Ordering> {
        Some(order_of(self.millis(), other.millis()))
    }
}

impl Timestamp {
    /// The number of milliseconds of this timestamp.
    pub closed spec fn millis(self) -> u64 {
        self.0
    }

    /// Creates a new timestamp from the given number of milliseconds.
    pub fn from_millis(ts: u64) -> (r: Self)
        ensures
            r.millis() == ts,
    {
        Timestamp(ts)
    }

    /// The time of this timestamp in milliseconds.
    pub fn as_millis(self) -> (r: u64)
        ensures
            r == self.millis(),
    {
        self.0
    }

    /// The timestamp in the native (signed 64 bit) representation of the codec.
    pub fn as_native(self) -> (r: i64)
        requires
            self.millis() <= i64::MAX,
        ensures
            r as int == self.millis(),
    {
        self.0 as i64
    }
}

impl std::ops::Sub for Timestamp {
    type Output = Duration;

    /// The time elapsed from `rhs` to `self`.
    fn sub(self, rhs: Self) -> (d: Duration)
        ensures
            duration_millis(d) == self.millis() - rhs.millis(),
    {
        duration_from_millis(self.0 - rhs.0)
    }
}

impl std::ops::Add<Duration> for Timestamp {
    type Output = Timestamp;

    /// The timestamp `rhs` (in whole milliseconds) after `self`.
    fn add(self, rhs: Duration) -> (r: Timestamp)
        ensures
            r.millis() == self.millis() + duration_millis(rhs),
    {
        let rhs_ms = duration_as_millis(rhs);
        let rhs_u64 = rhs_ms as u64;
        Timestamp(self.0 + rhs_u64)
    }
}

impl vstd::std_specs::ops::AddSpecImpl<Duration> for Timestamp {
    open spec fn obeys_add_spec() -> bool {
        false
    }

    open spec fn add_req(self, rhs: Duration) -> bool {
        self.millis() + duration_millis(rhs) <= u64::MAX
    }

    open spec fn add_spec(self, rhs: Duration) -> Timestamp {
        arbitrary()
    }
}

impl vstd::std_specs::ops::SubSpecImpl for Timestamp {
    open spec fn obeys_sub_spec() -> bool {
        false
    }

    open spec fn sub_req(self, rhs: Self) -> bool {
        rhs.millis() <= self.millis()
    }

    open spec fn sub_spec(self, rhs: Self) -> Duration {
        arbitrary()
    }
}

/// Adding a duration to a timestamp and subtracting the timestamp again gives the duration
/// back: for `sum` the result of `t + d` and `diff` that of `sum - t`, `diff` spans `d`.
pub proof fn law_add_then_sub(t: Timestamp, d: Duration, sum: Timestamp, diff: Duration)
    requires
        sum.millis() == t.millis() + duration_millis(d),
        duration_millis(diff) == sum.millis() - t.millis(),
    ensures
        duration_millis(diff) == duration_millis(d),
{
}

/// Subtracting an earlier timestamp and adding the difference back lands on the later one:
/// for `diff` the result of `u - t` and `sum` that of `t + diff`, `sum` is `u`.
pub proof fn law_sub_then_add(t: Timestamp, u: Timestamp, diff: Duration, sum: Timestamp)
    requires
        t.millis() <= u.millis(),
        duration_millis(diff) == u.millis() - t.millis(),
        sum.millis() == t.millis() + duration_millis(diff),
    ensures
        sum.millis() == u.millis(),
{
}

/// Timestamps are ordered as the milliseconds they hold: `t <= u` exactly when `t` holds no more
/// milliseconds than `u`, and `t < u` exactly when it holds fewer.
pub proof fn law_order_follows_millis(t: Timestamp, u: Timestamp)
    ensures
        t.partial_cmp_spec(&u) matches Some(Ordering::Less | Ordering::Equal) <==> t.millis()
            <= u.millis(),
        t.partial_cmp_spec(&u) == Some(Ordering::Less) <==> t.millis() < u.millis(),
        t.partial_cmp_spec(&u) == Some(Ordering::Equal) <==> t.millis() == u.millis(),
{
}

} // verus!
