//! Points in time and spans of time, and how they are shown.

use crate::text::decimal_text;
use std::cmp::Ordering;
use vstd::prelude::*;

verus! {

/// A point in time: seconds since the start of the Unix epoch, negative before it, and the
/// nanoseconds behind them.
#[derive(Clone, Copy, Debug, PartialEq, Eq, Structural)]
pub struct Timestamp {
    pub secs: i64,
    pub nanos: u32,
}

/// A span of time: whole seconds and the nanoseconds behind them.
#[derive(Clone, Copy, Debug, PartialEq, Eq, Structural)]
pub struct TimeSpan {
    pub secs: u64,
    pub nanos: u32,
}

impl Timestamp {
    /// The nanoseconds make up less than a second.
    pub open spec fn valid(self) -> bool {
        self.nanos < 1_000_000_000
    }

    /// The nanoseconds since the start of the Unix epoch.
    pub open spec fn instant(self) -> int {
        self.secs * 1_000_000_000 + self.nanos
    }

    /// Whether this point comes before another one.
    pub open spec fn before(self, other: Timestamp) -> bool {
        self.secs < other.secs || (self.secs == other.secs && self.nanos < other.nanos)
    }

    /// The start of the Unix epoch.
    pub fn epoch() -> (result: Timestamp)
        ensures
            result.valid(),
            result.instant() == 0,
    {
        Timestamp { secs: 0, nanos: 0 }
    }

    /// Tells whether this point comes before another one.
    pub fn is_before(&self, other: &Timestamp) -> (result: bool)
        ensures
            result == self.before(*other),
    {
        self.secs < other.secs || (self.secs == other.secs && self.nanos < other.nanos)
    }
}

/// The order of two points in time.
pub open spec fn time_order(left: Timestamp, right: Timestamp) -> Ordering {
    if left.before(right) {
        Ordering::Less
    } else if right.before(left) {
        Ordering::Greater
    } else {
        Ordering::Equal
    }
}

/// Compares two points in time.
pub fn compare_time(left: &Timestamp, right: &Timestamp) -> (result: Ordering)
    ensures
        result == time_order(*left, *right),
{
    if left.is_before(right) {
        Ordering::Less
    } else if right.is_before(left) {
        Ordering::Greater
    } else {
        Ordering::Equal
    }
}

/// One valid point in time comes before another exactly where fewer nanoseconds have passed.
pub proof fn before_is_order_of_instants(left: Timestamp, right: Timestamp)
    requires
        left.valid(),
        right.valid(),
    ensures
        left.before(right) <==> left.instant() < right.instant(),
{
}

/// The later of two points in time.
pub open spec fn later(left: Timestamp, right: Timestamp) -> Timestamp {
    if left.before(right) {
        right
    } else {
        left
    }
}

/// The whole days from `time` to `now`; none where `time` has not come yet.
pub open spec fn days_since(now: Timestamp, time: Timestamp) -> nat {
    if now.instant() < time.instant() {
        0
    } else {
        ((now.instant() - time.instant()) / 1_000_000_000 / 86_400) as nat
    }
}

/// How a number of days ago is said.
pub open spec fn days_ago_text(days: nat) -> Seq<char> {
    if days == 0 {
        "today"@
    } else if days == 1 {
        "yesterday"@
    } else if days < 7 {
        crate::text::decimal(days) + " days ago"@
    } else if days < 14 {
        "1 week ago"@
    } else if days < 30 {
        crate::text::decimal(days / 7) + " weeks ago"@
    } else if days < 60 {
        "1 month ago"@
    } else {
        crate::text::decimal(days / 30) + " months ago"@
    }
}

/// Counts the whole days from `time` to `now`.
fn count_days(now: Timestamp, time: Timestamp) -> (result: u64)
    ensures
        result == days_since(now, time),
{
    let to: i128 = now.secs as i128 * 1_000_000_000 + now.nanos as i128;
    let from: i128 = time.secs as i128 * 1_000_000_000 + time.nanos as i128;
    if to < from {
        return 0;
    }
    ((to - from) / 1_000_000_000 / 86_400) as u64
}

/// Says how long before `now` a point in time was, in days, weeks or months.
pub fn relative_time(now: Timestamp, time: Timestamp) -> (result: String)
    ensures
        result@ == days_ago_text(days_since(now, time)),
{
    let days: u64 = count_days(now, time);
    if days == 0 {
        "today".to_owned()
    } else if days == 1 {
        "yesterday".to_owned()
    } else if days < 7 {
        decimal_text(days as u128).concat(" days ago")
    } else if days < 14 {
        "1 week ago".to_owned()
    } else if days < 30 {
        decimal_text((days / 7) as u128).concat(" weeks ago")
    } else if days < 60 {
        "1 month ago".to_owned()
    } else {
        decimal_text((days / 30) as u128).concat(" months ago")
    }
}

} // verus!
