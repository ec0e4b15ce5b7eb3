//! The scoped timer: a label and the clock reading at the start of a region.
use vstd::prelude::*;

verus! {

/// `now - start`, clamped to zero when the clock reads earlier than `start`.
pub open spec fn elapsed_spec(start: u64, now: u64) -> u64 {
    if now >= start {
        (now - start) as u64
    } else {
        0
    }
}

/// Relies on time::precise_time_ns: a reading of the monotonic
/// high-resolution clock in nanoseconds. Nothing is promised of its value.
#[verifier::external_body]
fn precise_time_ns() -> (r: u64) {
    time::precise_time_ns()
}

/// Marks the start of a measured region under a label.
///
/// Recording it (see `TimeDB::add_time`) adds one invocation of the label
/// with the time elapsed since the timer was made.
pub struct TimeIt {
    start_time: u64,
    name: &'static str,
}

impl TimeIt {
    /// The clock reading at which the region started.
    pub closed spec fn start_spec(&self) -> u64 {
        self.start_time
    }

    /// The label that the region is recorded under.
    pub closed spec fn label_spec(&self) -> Seq<char> {
        self.name@
    }

    /// Starts timing a region labelled `name` at the current clock reading.
    pub fn new(name: &'static str) -> (r: TimeIt)
        ensures
            r.label_spec() == name@,
    {
        let start_time = precise_time_ns();
        TimeIt::started_at(name, start_time)
    }

    /// A timer for `name` whose region started at clock reading `start_time`.
    pub fn started_at(name: &'static str, start_time: u64) -> (r: TimeIt)
        ensures
            r.label_spec() == name@,
            r.start_spec() == start_time,
    {
        TimeIt { start_time, name }
    }

    /// The label.
    pub fn name(&self) -> (r: &'static str)
        ensures
            r@ == self.label_spec(),
    {
        self.name
    }

    /// The clock reading at the start.
    pub fn start_time(&self) -> (r: u64)
        ensures
            r == self.start_spec(),
    {
        self.start_time
    }

    /// Nanoseconds from the start to clock reading `now`; `0` if `now` is
    /// earlier than the start (a clock that went back is no negative time).
    pub fn elapsed_at(&self, now: u64) -> (r: u64)
        ensures
            r == elapsed_spec(self.start_spec(), now),
    {
        now.saturating_sub(self.start_time)
    }

    /// Nanoseconds from the start to the current clock reading, clamped at zero.
    pub fn elapsed(&self) -> (r: u64)
        ensures
            exists|now: u64| r == elapsed_spec(self.start_spec(), now),
    {
        let now = precise_time_ns();
        self.elapsed_at(now)
    }
}

} // verus!
