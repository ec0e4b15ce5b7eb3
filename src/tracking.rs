//! Aggregate statistics for one label.
use vstd::prelude::*;

use crate::text::{bar_sep, per_call_suffix, push_decimal, stats_text};

verus! {

/// `a + b`, held at `u64::MAX` instead of wrapping.
pub open spec fn sat_add(a: u64, b: u64) -> u64 {
    if a + b > u64::MAX {
        u64::MAX
    } else {
        (a + b) as u64
    }
}

/// The number of recorded invocations of one label and the sum of their
/// elapsed times in nanoseconds.
///
/// Both counters grow monotonically; they stop at `u64::MAX` rather than wrap.
#[derive(Clone, Copy, Debug, PartialEq, Eq, Structural)]
pub struct InvocationTracking {
    pub count: u64,
    pub total_time: u64,
}

impl InvocationTracking {
    /// The statistics after one invocation that took `elapsed` nanoseconds.
    pub open spec fn first_spec(elapsed: u64) -> InvocationTracking {
        InvocationTracking { count: 1, total_time: elapsed }
    }

    /// The statistics after one more invocation that took `elapsed` nanoseconds.
    pub open spec fn accumulate_spec(self, elapsed: u64) -> InvocationTracking {
        InvocationTracking {
            count: sat_add(self.count, 1),
            total_time: sat_add(self.total_time, elapsed),
        }
    }

    /// Mean nanoseconds per invocation, truncated toward zero; `0` when nothing
    /// was recorded.
    pub open spec fn average_spec(self) -> u64 {
        if self.count == 0 {
            0
        } else {
            (self.total_time / self.count) as u64
        }
    }

    /// Statistics seeded with a first invocation of `elapsed` nanoseconds.
    pub fn new(elapsed: u64) -> (r: InvocationTracking)
        ensures
            r == InvocationTracking::first_spec(elapsed),
    {
        let mut i = InvocationTracking { count: 0, total_time: 0 };
        i.add_time(elapsed);
        i
    }

    /// Adds one invocation that took `elapsed` nanoseconds.
    pub fn add_time(&mut self, elapsed: u64)
        ensures
            *final(self) == old(self).accumulate_spec(elapsed),
            final(self).count >= old(self).count,
            final(self).total_time >= old(self).total_time,
    {
        self.count = self.count.saturating_add(1);
        self.total_time = self.total_time.saturating_add(elapsed);
    }

    /// Mean nanoseconds per invocation in integer division (truncated); `0`
    /// when the count is zero, so nothing is ever divided by zero.
    pub fn average_ns(&self) -> (r: u64)
        ensures
            r == self.average_spec(),
            self.count == 0 ==> r == 0,
            self.count > 0 ==> r as int == self.total_time as int / self.count as int,
    {
        if self.count == 0 {
            0
        } else {
            self.total_time / self.count
        }
    }

    /// The text form `count | average ns/call`, with the truncated integer average.
    pub fn to_text(&self) -> (r: String)
        ensures
            r@ == stats_text(self.count, self.average_spec()),
    {
        let mut out = String::new();
        self.push_text(&mut out);
        out
    }

    /// Appends the text form `count | average ns/call` to `out`.
    pub fn push_text(&self, out: &mut String)
        ensures
            final(out)@ == old(out)@ + stats_text(self.count, self.average_spec()),
    {
        push_decimal(out, self.count);
        proof { reveal_strlit(" | "); }
        out.append(" | ");
        push_decimal(out, self.average_ns());
        proof { reveal_strlit(" ns/call"); }
        out.append(" ns/call");
        assert(" | "@ =~= bar_sep());
        assert(" ns/call"@ =~= per_call_suffix());
        assert(out@ =~= old(out)@ + stats_text(self.count, self.average_spec()));
    }
}

} // verus!
