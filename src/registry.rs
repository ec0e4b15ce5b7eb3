//! The registry: label → statistics, labels unique, in order of first record.
use vstd::prelude::*;

use crate::text::{arrow_sep, line_text};
use crate::timer::TimeIt;
use crate::tracking::InvocationTracking;

verus! {

/// A registry's contents as a sequence of (label, statistics) entries.
pub type Entries = Seq<(Seq<char>, InvocationTracking)>;

/// No label occurs in two entries.
pub open spec fn unique_labels(s: Entries) -> bool {
    forall|i: int, j: int|
        0 <= i < s.len() && 0 <= j < s.len() && i != j ==> #[trigger] s[i].0 != #[trigger] s[j].0
}

/// Some entry has `label`.
pub open spec fn has_label(s: Entries, label: Seq<char>) -> bool {
    exists|i: int| 0 <= i < s.len() && #[trigger] s[i].0 == label
}

/// The position of `label`'s entry (meaningful where `has_label` holds).
pub open spec fn label_index(s: Entries, label: Seq<char>) -> int {
    choose|i: int| 0 <= i < s.len() && #[trigger] s[i].0 == label
}

/// The statistics kept for `label` (meaningful where `has_label` holds).
pub open spec fn stats_of(s: Entries, label: Seq<char>) -> InvocationTracking {
    s[label_index(s, label)].1
}

/// The contents after recording one invocation of `label` that took
/// `elapsed` nanoseconds: an existing entry accumulates it, otherwise a new
/// entry seeded with it goes last.
pub open spec fn record_spec(s: Entries, label: Seq<char>, elapsed: u64) -> Entries {
    if has_label(s, label) {
        let i = label_index(s, label);
        s.update(i, (label, s[i].1.accumulate_spec(elapsed)))
    } else {
        s.push((label, InvocationTracking::first_spec(elapsed)))
    }
}

/// The contents after recording each `(label, elapsed)` of `events` in turn,
/// starting from `s`.
pub open spec fn replay(s: Entries, events: Seq<(Seq<char>, u64)>) -> Entries
    decreases events.len(),
{
    if events.len() == 0 {
        s
    } else {
        let last = events.last();
        record_spec(replay(s, events.drop_last()), last.0, last.1)
    }
}

/// How many of `events` are recordings of `label`.
pub open spec fn count_of(events: Seq<(Seq<char>, u64)>, label: Seq<char>) -> nat
    decreases events.len(),
{
    if events.len() == 0 {
        0
    } else {
        count_of(events.drop_last(), label) + if events.last().0 == label { 1nat } else { 0nat }
    }
}

/// The sum of the elapsed times of the recordings of `label` in `events`.
pub open spec fn sum_of(events: Seq<(Seq<char>, u64)>, label: Seq<char>) -> nat
    decreases events.len(),
{
    if events.len() == 0 {
        0
    } else {
        sum_of(events.drop_last(), label) + if events.last().0 == label {
            events.last().1 as nat
        } else {
            0nat
        }
    }
}

proof fn lemma_record_keeps_unique(s: Entries, label: Seq<char>, elapsed: u64)
    requires
        unique_labels(s),
    ensures
        unique_labels(record_spec(s, label, elapsed)),
{
    let r = record_spec(s, label, elapsed);
    if has_label(s, label) {
        let k = label_index(s, label);
        assert forall|i: int, j: int|
            0 <= i < r.len() && 0 <= j < r.len() && i != j implies #[trigger] r[i].0
            != #[trigger] r[j].0 by {
            assert(s[k].0 == label);
            if i != k && j != k {
                assert(s[i].0 != s[j].0);
            } else if i == k {
                assert(s[j].0 != s[k].0);
            } else {
                assert(s[i].0 != s[k].0);
            }
        }
    } else {
        assert forall|i: int, j: int|
            0 <= i < r.len() && 0 <= j < r.len() && i != j implies #[trigger] r[i].0
            != #[trigger] r[j].0 by {
            if i < s.len() && j < s.len() {
                assert(s[i].0 != s[j].0);
            } else if i == s.len() {
                assert(r[j].0 == s[j].0);
            } else {
                assert(r[i].0 == s[i].0);
            }
        }
    }
}

proof fn lemma_record_effect(s: Entries, label: Seq<char>, elapsed: u64, other: Seq<char>)
    requires
        unique_labels(s),
    ensures
        has_label(record_spec(s, label, elapsed), label),
        stats_of(record_spec(s, label, elapsed), label) == if has_label(s, label) {
            stats_of(s, label).accumulate_spec(elapsed)
        } else {
            InvocationTracking::first_spec(elapsed)
        },
        other != label ==> (has_label(record_spec(s, label, elapsed), other) == has_label(
            s,
            other,
        )),
        other != label && has_label(s, other) ==> stats_of(record_spec(s, label, elapsed), other)
            == stats_of(s, other),
{
    let r = record_spec(s, label, elapsed);
    lemma_record_keeps_unique(s, label, elapsed);
    if has_label(s, label) {
        let k = label_index(s, label);
        assert(r[k].0 == label);
        let k2 = label_index(r, label);
        assert(r[k2].0 == label);
    } else {
        let n = s.len() as int;
        assert(r[n].0 == label);
        let k2 = label_index(r, label);
        assert(r[k2].0 == label);
        assert(k2 == n);
    }
    if other != label {
        if has_label(s, other) {
            let j = label_index(s, other);
            assert(r[j].0 == other);
            let j2 = label_index(r, other);
            assert(r[j2].0 == other);
            assert(j2 == j);
        }
        if has_label(r, other) {
            let j2 = label_index(r, other);
            assert(r[j2].0 == other);
            assert(s[j2].0 == other);
        }
    }
}

/// Recording is exact: starting from a registry that holds no entry for
/// `label`, after any sequence of recordings (of `label` and of other labels,
/// in any interleaving) the entry of `label` exists exactly when some were of
/// it, its count is the number of them and its total the sum of their elapsed
/// times; other labels never disturb it. This holds while that count and sum
/// fit in a `u64`.
pub proof fn lemma_replay_tally(s: Entries, events: Seq<(Seq<char>, u64)>, label: Seq<char>)
    requires
        unique_labels(s),
        !has_label(s, label),
        count_of(events, label) <= u64::MAX,
        sum_of(events, label) <= u64::MAX,
    ensures
        unique_labels(replay(s, events)),
        has_label(replay(s, events), label) <==> count_of(events, label) > 0,
        count_of(events, label) > 0 ==> stats_of(replay(s, events), label).count == count_of(
            events,
            label,
        ) && stats_of(replay(s, events), label).total_time == sum_of(events, label),
        count_of(events, label) == 0 ==> sum_of(events, label) == 0,
    decreases events.len(),
{
    if events.len() > 0 {
        let prefix = events.drop_last();
        let last = events.last();
        lemma_replay_tally(s, prefix, label);
        let p = replay(s, prefix);
        lemma_record_keeps_unique(p, last.0, last.1);
        lemma_record_effect(p, last.0, last.1, label);
        let r = replay(s, events);
        assert(r == record_spec(p, last.0, last.1));
        if last.0 == label {
            assert(count_of(events, label) == count_of(prefix, label) + 1);
            assert(sum_of(events, label) == sum_of(prefix, label) + last.1);
            if has_label(p, label) {
                let before = stats_of(p, label);
                assert(before.count + 1 <= u64::MAX);
                assert(before.total_time + last.1 <= u64::MAX);
                assert(stats_of(r, label) == before.accumulate_spec(last.1));
            }
        } else {
            assert(count_of(events, label) == count_of(prefix, label));
            assert(sum_of(events, label) == sum_of(prefix, label));
        }
    }
}

/// The text of a snapshot of `s`: one `line_text` per entry, in entry order.
pub open spec fn snapshot_text(s: Entries) -> Seq<char>
    decreases s.len(),
{
    if s.len() == 0 {
        Seq::empty()
    } else {
        let e = s.last();
        snapshot_text(s.drop_last()) + line_text(e.0, e.1.count, e.1.average_spec())
    }
}

/// A snapshot's text depends on the registry's contents alone: two snapshots
/// with no recording between them are the same, character for character.
pub proof fn lemma_snapshot_repeatable(a: Entries, b: Entries)
    requires
        a == b,
    ensures
        snapshot_text(a) == snapshot_text(b),
{
}

/// Timing registry: for each label, the invocations recorded against it.
///
/// This is the state that a process shares behind a single lock; every
/// operation here is one critical section of that lock.
pub struct TimeDB {
    times: Vec<(String, InvocationTracking)>,
}

impl View for TimeDB {
    type V = Entries;

    closed spec fn view(&self) -> Entries {
        self.times@.map_values(|e: (String, InvocationTracking)| (e.0@, e.1))
    }
}

impl TimeDB {
    /// Well formed: no label has two entries.
    pub open spec fn wf(&self) -> bool {
        unique_labels(self@)
    }

    /// An empty registry.
    pub fn new() -> (r: TimeDB)
        ensures
            r.wf(),
            r@ == Seq::<(Seq<char>, InvocationTracking)>::empty(),
    {
        let r = TimeDB { times: Vec::new() };
        assert(r@ =~= Seq::<(Seq<char>, InvocationTracking)>::empty());
        r
    }

    /// Number of distinct labels recorded.
    pub fn len(&self) -> (r: usize)
        ensures
            r == self@.len(),
    {
        self.times.len()
    }

    /// Position of `label`'s entry, if it has one.
    pub fn find(&self, label: &str) -> (r: Option<usize>)
        requires
            self.wf(),
        ensures
            r is None <==> !has_label(self@, label@),
            r matches Some(i) ==> i < self@.len() && i == label_index(self@, label@)
                && self@[i as int].0 == label@,
    {
        let key = label.to_owned();
        let mut i: usize = 0;
        while i < self.times.len()
            invariant
                self.wf(),
                i <= self.times.len(),
                key@ == label@,
                forall|j: int| 0 <= j < i ==> (#[trigger] self@[j]).0 != label@,
            decreases self.times.len() - i,
        {
            if self.times[i].0 == key {
                assert(self@[i as int].0 == label@);
                let ghost k = label_index(self@, label@);
                assert(self@[k].0 == label@);
                assert(k == i);
                return Some(i);
            }
            i = i + 1;
        }
        None
    }

    /// Records one invocation of `label` that took `elapsed` nanoseconds: the
    /// label's entry gains one invocation and `elapsed`, or is created with them.
    pub fn record(&mut self, label: &str, elapsed: u64)
        requires
            old(self).wf(),
        ensures
            final(self).wf(),
            final(self)@ == record_spec(old(self)@, label@, elapsed),
            has_label(final(self)@, label@),
            stats_of(final(self)@, label@) == if has_label(old(self)@, label@) {
                stats_of(old(self)@, label@).accumulate_spec(elapsed)
            } else {
                InvocationTracking::first_spec(elapsed)
            },
            forall|other: Seq<char>|
                other != label@ ==> (has_label(final(self)@, other) == has_label(
                    old(self)@,
                    other,
                ) && (has_label(old(self)@, other) ==> stats_of(final(self)@, other) == stats_of(
                    old(self)@,
                    other,
                ))),
    {
        proof {
            assert forall|other: Seq<char>| other != label@ implies (has_label(
                record_spec(old(self)@, label@, elapsed),
                other,
            ) == has_label(old(self)@, other) && (has_label(old(self)@, other) ==> stats_of(
                record_spec(old(self)@, label@, elapsed),
                other,
            ) == stats_of(old(self)@, other))) by {
                lemma_record_effect(old(self)@, label@, elapsed, other);
            }
            lemma_record_effect(old(self)@, label@, elapsed, label@);
        }
        match self.find(label) {
            Some(i) => {
                let mut stats = self.times[i].1;
                stats.add_time(elapsed);
                let name = self.times[i].0.clone();
                self.times.set(i, (name, stats));
                assert(self@ =~= record_spec(old(self)@, label@, elapsed));
            },
            None => {
                self.times.push((label.to_owned(), InvocationTracking::new(elapsed)));
                assert(self@ =~= record_spec(old(self)@, label@, elapsed));
            },
        }
    }

    /// Records `t`: one invocation of its label, with the nanoseconds from
    /// its start to the current clock reading (zero if the clock went back).
    pub fn add_time(&mut self, t: &TimeIt)
        requires
            old(self).wf(),
        ensures
            final(self).wf(),
            exists|e: u64| final(self)@ == record_spec(old(self)@, t.label_spec(), e),
    {
        let elapsed = t.elapsed();
        self.record(t.name(), elapsed);
    }

    /// A copy of the current contents.
    pub fn snapshot(&self) -> (r: TimeDB)
        requires
            self.wf(),
        ensures
            r.wf(),
            r@ == self@,
    {
        let mut times: Vec<(String, InvocationTracking)> = Vec::new();
        let mut i: usize = 0;
        while i < self.times.len()
            invariant
                i <= self.times.len(),
                times@.len() == i,
                forall|j: int|
                    0 <= j < i ==> (#[trigger] times@[j]).0@ == self.times@[j].0@ && times@[j].1
                        == self.times@[j].1,
            decreases self.times.len() - i,
        {
            let name = self.times[i].0.clone();
            times.push((name, self.times[i].1));
            i = i + 1;
        }
        let r = TimeDB { times };
        assert(r@ =~= self@);
        r
    }

    /// The snapshot text: a line `label => count | average ns/call` for each
    /// label, in the order the labels were first recorded.
    pub fn to_text(&self) -> (r: String)
        ensures
            r@ == snapshot_text(self@),
    {
        let mut out = String::new();
        let mut i: usize = 0;
        while i < self.times.len()
            invariant
                i <= self.times.len(),
                out@ == snapshot_text(self@.take(i as int)),
            decreases self.times.len() - i,
        {
            let ghost before = out@;
            out.append(self.times[i].0.as_str());
            proof { reveal_strlit(" => "); }
            out.append(" => ");
            self.times[i].1.push_text(&mut out);
            proof { reveal_strlit("\n"); }
            out.append("\n");
            proof {
                let e = self@[i as int];
                assert(self@.take(i + 1).drop_last() =~= self@.take(i as int));
                assert(" => "@ =~= arrow_sep());
                assert(out@ =~= before + line_text(e.0, e.1.count, e.1.average_spec()));
            }
            i = i + 1;
        }
        assert(self@.take(self@.len() as int) =~= self@);
        out
    }

    /// The statistics of `label`, if anything was recorded against it.
    pub fn get(&self, label: &str) -> (r: Option<InvocationTracking>)
        requires
            self.wf(),
        ensures
            r is None <==> !has_label(self@, label@),
            r matches Some(t) ==> t == stats_of(self@, label@),
    {
        match self.find(label) {
            Some(i) => Some(self.times[i].1),
            None => None,
        }
    }
}

} // verus!
