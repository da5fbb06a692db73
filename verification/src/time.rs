//! Points in time and spans of time.

use vstd::prelude::*;

verus! {

/// The first second that a timestamp can stand for (in the year -262143).
pub const FIRST_SECOND: i64 = -8_334_601_228_800;

/// The last second that a timestamp can stand for (in the year 262142).
pub const LAST_SECOND: i64 = 8_210_266_876_799;

/// A point in time in UTC: non-leap seconds since 1970, and nanoseconds within the
/// second. The nanoseconds go on past one second within a leap second.
#[derive(Debug, Clone, Copy, PartialEq, Eq, Structural)]
pub struct Timestamp {
    pub secs: i64,
    pub nanos: u32,
}

impl Timestamp {
    pub open spec fn wf(self) -> bool {
        FIRST_SECOND <= self.secs <= LAST_SECOND && self.nanos < 2_000_000_000
    }

    /// A time that the system clock may show: in 1970 or later, and never in a leap
    /// second.
    pub open spec fn is_clock_time(self) -> bool {
        self.wf() && self.secs >= 0 && self.nanos < 1_000_000_000
    }

    /// The system clock showed this time when it was read.
    pub closed spec fn was_shown(self) -> bool {
        call_ensures(utc_now, (), self)
    }

    /// Strictly later than `other`.
    pub open spec fn after(self, other: Timestamp) -> bool {
        self.secs > other.secs || (self.secs == other.secs && self.nanos > other.nanos)
    }

    /// The point `n` seconds later. Going on from within a leap second ends in an
    /// ordinary one.
    pub open spec fn later_by(self, n: nat) -> (int, int) {
        if n > 0 && self.nanos >= 1_000_000_000 {
            (self.secs + n, self.nanos - 1_000_000_000)
        } else {
            (self.secs + n, self.nanos as int)
        }
    }

    pub fn is_after(&self, other: &Timestamp) -> (r: bool)
        ensures
            r == self.after(*other),
    {
        self.secs > other.secs || (self.secs == other.secs && self.nanos > other.nanos)
    }

    pub fn plus_seconds(&self, n: u32) -> (r: Timestamp)
        requires
            self.wf(),
            self.secs + n <= LAST_SECOND,
        ensures
            r.wf(),
            (r.secs as int, r.nanos as int) == self.later_by(n as nat),
    {
        let nanos: u32 = if n > 0 && self.nanos >= 1_000_000_000 {
            self.nanos - 1_000_000_000
        } else {
            self.nanos
        };
        Timestamp { secs: self.secs + n as i64, nanos }
    }

    /// The current time.
    pub fn now() -> (r: Timestamp)
        ensures
            r.is_clock_time(),
            r.was_shown(),
    {
        utc_now()
    }
}

/// `chrono::Utc::now`: the system clock's time, which lies in 1970 or later, within
/// the range of timestamps, and never in a leap second.
#[verifier::external_body]
fn utc_now() -> (r: Timestamp)
    ensures
        r.wf(),
        r.secs >= 0,
        r.nanos < 1_000_000_000,
{
    let now = chrono::Utc::now();
    Timestamp { secs: now.timestamp(), nanos: now.timestamp_subsec_nanos() }
}

/// A span of time: whole seconds, and nanoseconds below one second.
#[derive(Debug, Clone, Copy, PartialEq, Eq, Structural)]
pub struct Duration {
    pub secs: u64,
    pub nanos: u32,
}

impl Duration {
    pub open spec fn wf(self) -> bool {
        self.nanos < 1_000_000_000
    }

    /// The span in nanoseconds.
    pub open spec fn total_nanos(self) -> nat {
        self.secs as nat * 1_000_000_000 + self.nanos as nat
    }

    pub fn from_secs(secs: u64) -> (r: Duration)
        ensures
            r.wf(),
            r.total_nanos() == secs * 1_000_000_000,
    {
        Duration { secs, nanos: 0 }
    }

    pub fn from_millis(millis: u64) -> (r: Duration)
        ensures
            r.wf(),
            r.total_nanos() == millis * 1_000_000,
    {
        Duration { secs: millis / 1000, nanos: (millis % 1000) as u32 * 1_000_000 }
    }

    pub fn as_nanos(&self) -> (r: u128)
        ensures
            r == self.total_nanos(),
    {
        self.secs as u128 * 1_000_000_000 + self.nanos as u128
    }
}

/// Later is a strict order in time: of two different times exactly one is later.
pub proof fn times_are_ordered(
    a: Timestamp,
    b: Timestamp,
    c: Timestamp,
    ab: bool,
    ba: bool,
    bc: bool,
    ac: bool,
)
    requires
        call_ensures(Timestamp::is_after, (&a, &b), ab),
        call_ensures(Timestamp::is_after, (&b, &a), ba),
        call_ensures(Timestamp::is_after, (&b, &c), bc),
        call_ensures(Timestamp::is_after, (&a, &c), ac),
    ensures
        !(ab && ba),
        a != b <==> ab || ba,
        ab && bc ==> ac,
        a.nanos < 1_000_000_000 && b.nanos < 1_000_000_000 ==> (ab <==> a.secs * 1_000_000_000
            + a.nanos > b.secs * 1_000_000_000 + b.nanos),
{
}

/// Adding seconds moves a time by exactly so many, unless it lies within a leap second.
pub proof fn added_seconds_move_the_time(t: Timestamp, n: u32, r: Timestamp)
    requires
        call_ensures(Timestamp::plus_seconds, (&t, n), r),
    ensures
        r.secs == t.secs + n,
        t.nanos < 1_000_000_000 || n == 0 ==> r.nanos == t.nanos,
        t.nanos >= 1_000_000_000 && n > 0 ==> r.nanos == t.nanos - 1_000_000_000,
{
}

/// A second has a thousand milliseconds, and a billion nanoseconds.
pub proof fn spans_are_counted_in_nanoseconds(
    n: u64,
    secs: Duration,
    millis: Duration,
    d: Duration,
    nanos: u128,
)
    requires
        call_ensures(Duration::from_secs, (n,), secs),
        call_ensures(Duration::from_millis, (n,), millis),
        call_ensures(Duration::as_nanos, (&d,), nanos),
    ensures
        secs.secs == n && secs.nanos == 0,
        millis.secs * 1000 + millis.nanos / 1_000_000 == n,
        millis.nanos < 1_000_000_000 && millis.nanos % 1_000_000 == 0,
        nanos == d.secs * 1_000_000_000 + d.nanos,
{
}

/// The current time is one that the system clock showed.
pub proof fn current_time_is_the_clocks(r: Timestamp)
    requires
        call_ensures(Timestamp::now, (), r),
    ensures
        r.was_shown(),
        r.secs >= 0,
        r.nanos < 1_000_000_000,
{
}

} // verus!
