//! Clock readings and the spans between them.
//!
//! A reading is kept as seconds and nanoseconds since the Unix epoch, a span
//! as a signed count of nanoseconds wide enough for the distance between any
//! two readings.

use vstd::prelude::*;

verus! {

/// Nanoseconds in one second.
pub const NANOS_PER_SEC: i128 = 1_000_000_000;

/// The number of whole seconds in `nanos` nanoseconds: the quotient by
/// [`NANOS_PER_SEC`], rounded towards zero.
pub open spec fn whole_seconds(nanos: int) -> int {
    if nanos >= 0 {
        nanos / (NANOS_PER_SEC as int)
    } else {
        -((-nanos) / (NANOS_PER_SEC as int))
    }
}

/// A reading of the wall clock: `sec` seconds and `nsec` nanoseconds after
/// 1970-01-01T00:00:00Z.
#[derive(Clone, Copy, Debug, PartialEq, Eq, Structural)]
pub struct Timestamp {
    pub sec: i64,
    pub nsec: i32,
}

/// A signed span of time with nanosecond resolution.
#[derive(Clone, Copy, Debug, PartialEq, Eq, Structural)]
pub struct Elapsed {
    nanos: i128,
}

impl View for Timestamp {
    type V = int;

    /// Nanoseconds since the epoch.
    open spec fn view(&self) -> int {
        self.sec * (NANOS_PER_SEC as int) + self.nsec
    }
}

impl View for Elapsed {
    type V = int;

    /// The length of the span in nanoseconds.
    closed spec fn view(&self) -> int {
        self.nanos as int
    }
}

/// Reads the wall clock with `time::now_utc` and turns the calendar time it
/// returns into seconds and nanoseconds since the epoch with
/// `time::Tm::to_timespec`.
///
/// Trusted. Nothing is claimed of the instant that comes back. The
/// nanoseconds lie within one second: `to_timespec` builds its result with
/// `Timespec::new`, which refuses anything else.
#[verifier::external_body]
fn read_wall_clock() -> (t: Timestamp)
    ensures
        t.is_normal(),
{
    let ts = time::now_utc().to_timespec();
    Timestamp { sec: ts.sec, nsec: ts.nsec }
}

impl Timestamp {
    /// The nanoseconds lie within one second, as in every reading that the
    /// clock gives.
    pub open spec fn is_normal(self) -> bool {
        0 <= self.nsec < NANOS_PER_SEC
    }

    /// The reading `sec` seconds and `nsec` nanoseconds after the epoch.
    pub fn new(sec: i64, nsec: i32) -> (t: Timestamp)
        ensures
            t.sec == sec,
            t.nsec == nsec,
    {
        Timestamp { sec, nsec }
    }

    /// The current wall-clock time. Successive readings need not increase:
    /// the wall clock can be set back.
    pub fn now() -> (t: Timestamp)
        ensures
            t.is_normal(),
    {
        read_wall_clock()
    }

    /// The span from `earlier` to `self`, negative if `self` is the earlier
    /// of the two. It is the difference that `time` gives for two `Timespec`s
    /// wherever that one is defined, and is defined for every two readings.
    pub fn since(&self, earlier: &Timestamp) -> (e: Elapsed)
        ensures
            e@ == self@ - earlier@,
    {
        let secs: i128 = self.sec as i128 - earlier.sec as i128;
        let nanos: i128 = self.nsec as i128 - earlier.nsec as i128;
        Elapsed { nanos: secs * NANOS_PER_SEC + nanos }
    }
}

impl Elapsed {
    /// A span of `nanos` nanoseconds.
    pub fn from_nanos(nanos: i128) -> (e: Elapsed)
        ensures
            e@ == nanos,
    {
        Elapsed { nanos }
    }

    /// The whole span in nanoseconds.
    pub fn num_nanoseconds(&self) -> (n: i128)
        ensures
            n == self@,
    {
        self.nanos
    }

    /// The number of whole seconds in the span, rounded towards zero, as
    /// `time::Duration::num_seconds` counts them.
    pub fn num_seconds(&self) -> (s: i128)
        ensures
            s == whole_seconds(self@),
    {
        self.nanos / NANOS_PER_SEC
    }
}

/// Rounding towards zero keeps the order of spans.
pub proof fn lemma_whole_seconds_monotone(a: int, b: int)
    requires
        a <= b,
    ensures
        whole_seconds(a) <= whole_seconds(b),
{
}

} // verus!
