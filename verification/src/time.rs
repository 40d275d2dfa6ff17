//! Points in time and the milliseconds between them.

use vstd::prelude::*;

verus! {

/// Whether seconds since the Unix epoch and nanoseconds within the second
/// name a point in time: the years -262143 to 262142, with a nanosecond part
/// past the second for a leap second only.
pub open spec fn valid_instant(secs: int, nanos: int) -> bool {
    &&& -8334601228800 <= secs <= 8210266876799
    &&& 0 <= nanos < 2_000_000_000
    &&& nanos >= 1_000_000_000 ==> secs % 60 == 59
}

/// The nanoseconds from one point in time to another.
///
/// A leap second that the later time of day has behind it counts.
pub open spec fn nanos_between(start: Timestamp, end: Timestamp) -> int {
    let leap = if end.secs() % 86_400 > start.secs() % 86_400 && start.nanos() >= 1_000_000_000 {
        1_000_000_000int
    } else if end.secs() % 86_400 < start.secs() % 86_400 && end.nanos() >= 1_000_000_000 {
        -1_000_000_000int
    } else {
        0
    };
    (end.secs() - start.secs()) * 1_000_000_000 + (end.nanos() - start.nanos()) + leap
}

/// The whole milliseconds in a number of nanoseconds, toward zero.
pub open spec fn whole_millis(nanos: int) -> int {
    if nanos < 0 {
        -((-nanos) / 1_000_000)
    } else {
        nanos / 1_000_000
    }
}

/// The whole milliseconds from one point in time to another.
pub open spec fn millis_between(start: Timestamp, end: Timestamp) -> int {
    whole_millis(nanos_between(start, end))
}

/// A point in time, in UTC.
#[derive(Clone, Copy, Debug, PartialEq, Eq, Structural)]
pub struct Timestamp {
    secs: i64,
    nanos: u32,
}

impl Timestamp {
    /// The seconds since the Unix epoch.
    pub closed spec fn secs(self) -> int {
        self.secs as int
    }

    /// The nanoseconds within the second.
    pub closed spec fn nanos(self) -> int {
        self.nanos as int
    }

    #[verifier::type_invariant]
    spec fn valid(self) -> bool {
        valid_instant(self.secs as int, self.nanos as int)
    }

    /// Whether this point in time comes before another.
    pub open spec fn before(self, other: Timestamp) -> bool {
        self.secs() < other.secs() || (self.secs() == other.secs() && self.nanos() < other.nanos())
    }

    /// Makes a point in time, if the parts name one.
    pub fn new(secs: i64, nanos: u32) -> (r: Option<Timestamp>)
        ensures
            match r {
                Some(at) => valid_instant(secs as int, nanos as int) && at.secs() == secs
                    && at.nanos() == nanos,
                None => !valid_instant(secs as int, nanos as int),
            },
    {
        if secs < -8334601228800 || secs > 8210266876799 || nanos >= 2_000_000_000 {
            return None;
        }
        if nanos >= 1_000_000_000 {
            let within: i64 = (secs + 8334601228800) % 60;
            if within != 59 {
                return None;
            }
        }
        Some(Timestamp { secs, nanos })
    }

    /// Reads the clock.
    pub fn now() -> (r: Timestamp)
        ensures
            valid_instant(r.secs(), r.nanos()),
            r.nanos() < 1_000_000_000,
    {
        let (secs, nanos) = clock();
        Timestamp { secs, nanos }
    }

    /// The seconds since the Unix epoch.
    pub fn timestamp(&self) -> (r: i64)
        ensures
            r == self.secs(),
    {
        self.secs
    }

    /// The nanoseconds within the second.
    pub fn timestamp_subsec_nanos(&self) -> (r: u32)
        ensures
            r == self.nanos(),
    {
        self.nanos
    }

    /// Whether this point in time comes before another.
    pub fn is_before(&self, other: &Timestamp) -> (r: bool)
        ensures
            r == self.before(*other),
    {
        self.secs < other.secs || (self.secs == other.secs && self.nanos < other.nanos)
    }

    /// The whole milliseconds from this point in time until a later one;
    /// negative when the other comes first.
    pub fn millis_until(&self, end: &Timestamp) -> (r: i64)
        ensures
            r == millis_between(*self, *end),
    {
        proof {
            use_type_invariant(&*self);
            use_type_invariant(&*end);
        }
        elapsed_millis(*self, *end)
    }

    /// A point in time is determined by its two parts.
    pub proof fn lemma_parts(a: Timestamp, b: Timestamp)
        requires
            a.secs() == b.secs(),
            a.nanos() == b.nanos(),
        ensures
            a == b,
    {
    }
}

/// Reads the clock, as seconds since the Unix epoch and nanoseconds within the
/// second.
///
/// This is `chrono::Utc::now`. It is trusted to give a time that chrono can
/// represent, outside of any leap second; which one depends on the clock.
/// chrono panics when the clock stands before the Unix epoch.
#[verifier::external_body]
fn clock() -> (r: (i64, u32))
    ensures
        valid_instant(r.0 as int, r.1 as int),
        r.1 < 1_000_000_000,
{
    let now = chrono::Utc::now();
    (now.timestamp(), now.timestamp_subsec_nanos())
}

/// The whole milliseconds between two points in time.
///
/// This is chrono's subtraction of one `DateTime<Utc>` from another and
/// `TimeDelta::num_milliseconds`. It is trusted to count 86400 seconds a day,
/// to count a leap second that only one of the two times of day has behind it,
/// and to round toward zero.
#[verifier::external_body]
fn elapsed_millis(start: Timestamp, end: Timestamp) -> (r: i64)
    requires
        valid_instant(start.secs(), start.nanos()),
        valid_instant(end.secs(), end.nanos()),
    ensures
        r == millis_between(start, end),
{
    let from = chrono::DateTime::from_timestamp(start.secs, start.nanos).expect("a valid time");
    let to = chrono::DateTime::from_timestamp(end.secs, end.nanos).expect("a valid time");
    (to - from).num_milliseconds()
}

} // verus!
