//! Timing a search.

use vstd::prelude::*;

verus! {

/// Calls `time::precise_time_ns`: the reading, in nanoseconds, of a clock that
/// starts at an unspecified moment. Nothing is assumed of the value.
#[verifier::external_body]
fn precise_time_ns() -> u64 {
    time::precise_time_ns()
}

/// The whole milliseconds between two readings of the clock, if the second is not
/// before the first.
pub open spec fn millis_between(started: u64, now: u64) -> Option<u64> {
    if started <= now {
        Some(((now - started) / 1_000_000) as u64)
    } else {
        None
    }
}

/// The moment at which a search began.
#[derive(Clone, Copy, Debug)]
pub struct Stopwatch {
    started: u64,
}

impl Stopwatch {
    /// The clock's reading, in nanoseconds, when the watch was started.
    pub closed spec fn started(&self) -> u64 {
        self.started
    }

    /// A watch that was started when the clock read `nanos`.
    pub fn started_at(nanos: u64) -> (watch: Stopwatch)
        ensures
            watch.started() == nanos,
    {
        Stopwatch { started: nanos }
    }

    /// Starts a watch now.
    pub fn start() -> Stopwatch {
        Stopwatch::started_at(precise_time_ns())
    }

    /// The milliseconds from the start to a later reading of the clock; `None` for
    /// a reading before the start.
    pub fn millis_until(&self, now: u64) -> (millis: Option<u64>)
        ensures
            millis == millis_between(self.started(), now),
    {
        if self.started <= now {
            Some((now - self.started) / 1_000_000)
        } else {
            None
        }
    }

    /// The milliseconds since the start, by the clock's reading now.
    pub fn elapsed_millis(&self) -> (millis: Option<u64>)
        ensures
            exists|now: u64| millis == millis_between(self.started(), now),
    {
        let now = precise_time_ns();
        self.millis_until(now)
    }
}

} // verus!
