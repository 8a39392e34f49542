//! A simple in-memory collector of named counters.

use vstd::prelude::*;

verus! {

/// The counts recorded in `entries`, by name.
pub open spec fn counts_of(entries: Seq<(String, u64)>) -> Map<Seq<char>, u64> {
    Map::new(
        |k: Seq<char>| exists|i: int| 0 <= i < entries.len() && #[trigger] entries[i].0@ == k,
        |k: Seq<char>|
            entries[choose|i: int| 0 <= i < entries.len() && #[trigger] entries[i].0@ == k].1,
    )
}

/// No name occurs twice in `entries`.
pub open spec fn names_distinct(entries: Seq<(String, u64)>) -> bool {
    forall|i: int, j: int|
        0 <= i < entries.len() && 0 <= j < entries.len() && i != j ==> #[trigger] entries[i].0@
            != #[trigger] entries[j].0@
}

/// The value of counter `name` in `counts`: zero for a counter never incremented.
pub open spec fn count_in(counts: Map<Seq<char>, u64>, name: Seq<char>) -> u64 {
    if counts.contains_key(name) {
        counts[name]
    } else {
        0
    }
}

/// The counts after counter `name` is incremented.
pub open spec fn after_increment(counts: Map<Seq<char>, u64>, name: Seq<char>) -> Map<
    Seq<char>,
    u64,
> {
    counts.insert(name, (count_in(counts, name) + 1) as u64)
}

/// The counts after every counter is reset to zero; the counters stay known.
pub open spec fn after_reset(counts: Map<Seq<char>, u64>) -> Map<Seq<char>, u64> {
    counts.map_values(|v: u64| 0u64)
}

/// A call that changes a collector.
pub enum CounterOp {
    Increment(Seq<char>),
    Reset,
}

/// The counts of a new collector after the calls `ops`, in order.
pub open spec fn replay(ops: Seq<CounterOp>) -> Map<Seq<char>, u64>
    decreases ops.len(),
{
    if ops.len() == 0 {
        Map::empty()
    } else {
        let before = replay(ops.drop_last());
        match ops.last() {
            CounterOp::Increment(name) => after_increment(before, name),
            CounterOp::Reset => after_reset(before),
        }
    }
}

/// How many of the calls `ops` increment `name` after the last reset.
pub open spec fn increments_since_reset(ops: Seq<CounterOp>, name: Seq<char>) -> nat
    decreases ops.len(),
{
    if ops.len() == 0 {
        0
    } else {
        let before = increments_since_reset(ops.drop_last(), name);
        match ops.last() {
            CounterOp::Increment(n) => if n == name {
                before + 1
            } else {
                before
            },
            CounterOp::Reset => 0,
        }
    }
}

/// No increment in `ops` finds its counter already at `u64::MAX`.
pub open spec fn no_overflow(ops: Seq<CounterOp>) -> bool {
    forall|i: int|
        0 <= i < ops.len() ==> (#[trigger] ops[i] matches CounterOp::Increment(n)
            ==> increments_since_reset(ops.take(i), n) < u64::MAX)
}

/// Simple in-memory metrics collector for tracking request counts.
#[derive(Debug)]
pub struct MetricsCollector {
    counters: Vec<(String, u64)>,
}

/// In distinct entries, the entry at `i` is the one that `counts_of` reads for its name.
proof fn lemma_entry_count(entries: Seq<(String, u64)>, i: int)
    requires
        names_distinct(entries),
        0 <= i < entries.len(),
    ensures
        counts_of(entries).contains_key(entries[i].0@),
        counts_of(entries)[entries[i].0@] == entries[i].1,
{
    let k = entries[i].0@;
    assert(entries[i].0@ == k);
    let j = choose|j: int| 0 <= j < entries.len() && #[trigger] entries[j].0@ == k;
    assert(j == i);
}

/// The position of the entry named `name`, if there is one.
fn find(entries: &Vec<(String, u64)>, name: &String) -> (r: Option<usize>)
    ensures
        match r {
            Some(i) => i < entries.len() && entries@[i as int].0@ == name@,
            None => !counts_of(entries@).contains_key(name@),
        },
{
    let mut i: usize = 0;
    while i < entries.len()
        invariant
            i <= entries.len(),
            forall|j: int| 0 <= j < i ==> #[trigger] entries@[j].0@ != name@,
        decreases entries.len() - i,
    {
        if entries[i].0 == *name {
            return Some(i);
        }
        i = i + 1;
    }
    None
}

impl Default for MetricsCollector {
    fn default() -> (m: MetricsCollector)
        ensures
            m.counts() == Map::<Seq<char>, u64>::empty(),
    {
        MetricsCollector::new()
    }
}

impl MetricsCollector {
    #[verifier::type_invariant]
    closed spec fn distinct(self) -> bool {
        names_distinct(self.counters@)
    }

    /// The counters recorded so far, by name.
    pub closed spec fn counts(&self) -> Map<Seq<char>, u64> {
        counts_of(self.counters@)
    }

    /// A collector with no counters.
    pub fn new() -> (m: MetricsCollector)
        ensures
            m.counts() == Map::<Seq<char>, u64>::empty(),
    {
        let m = MetricsCollector { counters: Vec::new() };
        assert(m.counts() =~= Map::<Seq<char>, u64>::empty());
        m
    }

    /// Increment a named counter by 1, starting it at 1 if it is new.
    pub fn increment(&mut self, name: &str)
        requires
            count_in(old(self).counts(), name@) < u64::MAX,
        ensures
            final(self).counts() == after_increment(old(self).counts(), name@),
    {
        proof {
            use_type_invariant(&*self);
        }
        let key = String::from_str(name);
        let mut entries: Vec<(String, u64)> = Vec::new();
        std::mem::swap(&mut entries, &mut self.counters);
        match find(&entries, &key) {
            Some(i) => {
                let ghost old_entries = entries@;
                proof {
                    lemma_entry_count(old_entries, i as int);
                }
                let c = entries[i].1;
                let ghost new_entries = old_entries.update(i as int, (key, (c + 1) as u64));
                assert(names_distinct(new_entries)) by {
                    assert forall|a: int, b: int|
                        0 <= a < new_entries.len() && 0 <= b < new_entries.len() && a != b implies #[trigger] new_entries[a].0@
                        != #[trigger] new_entries[b].0@ by {
                        assert(old_entries[a].0@ != old_entries[b].0@);
                    }
                }
                entries.set(i, (key, c + 1));
                proof {
                    assert(entries@ == new_entries);
                    assert forall|k: Seq<char>| #[trigger] counts_of(entries@).contains_key(k)
                        <==> old(self).counts().insert(name@, (c + 1) as u64).contains_key(k) by {
                        if old(self).counts().contains_key(k) {
                            let j = choose|j: int| 0 <= j < old_entries.len() && #[trigger] old_entries[j].0@ == k;
                            assert(new_entries[j].0@ == k);
                        }
                        if counts_of(entries@).contains_key(k) {
                            let j = choose|j: int| 0 <= j < new_entries.len() && #[trigger] new_entries[j].0@ == k;
                            assert(old_entries[j].0@ == k);
                        }
                    }
                    assert forall|k: Seq<char>| #[trigger] counts_of(entries@).contains_key(k)
                        implies counts_of(entries@)[k] == old(self).counts().insert(name@, (c + 1) as u64)[k] by {
                        let j = choose|j: int| 0 <= j < new_entries.len() && #[trigger] new_entries[j].0@ == k;
                        lemma_entry_count(new_entries, j);
                        if j != i {
                            lemma_entry_count(old_entries, j);
                        }
                    }
                    assert(counts_of(entries@) =~= old(self).counts().insert(name@, (c + 1) as u64));
                }
            },
            None => {
                let ghost old_entries = entries@;
                let ghost new_entries = old_entries.push((key, 1u64));
                assert(names_distinct(new_entries)) by {
                    assert forall|a: int, b: int|
                        0 <= a < new_entries.len() && 0 <= b < new_entries.len() && a != b implies #[trigger] new_entries[a].0@
                        != #[trigger] new_entries[b].0@ by {
                        if a < old_entries.len() && b < old_entries.len() {
                            assert(old_entries[a].0@ != old_entries[b].0@);
                        } else if a < old_entries.len() {
                            assert(old_entries[a].0@ == old_entries[a].0@);
                        } else {
                            assert(old_entries[b].0@ == old_entries[b].0@);
                        }
                    }
                }
                entries.push((key, 1));
                proof {
                    assert(entries@ == new_entries);
                    lemma_entry_count(new_entries, old_entries.len() as int);
                    assert forall|k: Seq<char>| #[trigger] counts_of(entries@).contains_key(k)
                        <==> old(self).counts().insert(name@, 1u64).contains_key(k) by {
                        if old(self).counts().contains_key(k) {
                            let j = choose|j: int| 0 <= j < old_entries.len() && #[trigger] old_entries[j].0@ == k;
                            assert(new_entries[j].0@ == k);
                        }
                        if counts_of(entries@).contains_key(k) && k != name@ {
                            let j = choose|j: int| 0 <= j < new_entries.len() && #[trigger] new_entries[j].0@ == k;
                            assert(old_entries[j].0@ == k);
                        }
                    }
                    assert forall|k: Seq<char>| #[trigger] counts_of(entries@).contains_key(k)
                        implies counts_of(entries@)[k] == old(self).counts().insert(name@, 1u64)[k] by {
                        let j = choose|j: int| 0 <= j < new_entries.len() && #[trigger] new_entries[j].0@ == k;
                        lemma_entry_count(new_entries, j);
                        if j < old_entries.len() {
                            lemma_entry_count(old_entries, j);
                        }
                    }
                    assert(counts_of(entries@) =~= old(self).counts().insert(name@, 1u64));
                }
            },
        }
        self.counters = entries;
    }

    /// The current value of a counter; zero for one never incremented.
    pub fn get_count(&self, name: &str) -> (n: u64)
        ensures
            n == count_in(self.counts(), name@),
    {
        proof {
            use_type_invariant(self);
        }
        let key = String::from_str(name);
        match find(&self.counters, &key) {
            Some(i) => {
                proof {
                    lemma_entry_count(self.counters@, i as int);
                }
                self.counters[i].1
            },
            None => 0,
        }
    }

    /// Reset every counter to zero; the counters stay known.
    pub fn reset(&mut self)
        ensures
            final(self).counts() == after_reset(old(self).counts()),
    {
        proof {
            use_type_invariant(&*self);
        }
        let mut entries: Vec<(String, u64)> = Vec::new();
        std::mem::swap(&mut entries, &mut self.counters);
        let ghost old_entries = entries@;
        let mut i: usize = 0;
        while i < entries.len()
            invariant
                i <= entries.len() == old_entries.len(),
                names_distinct(entries@),
                forall|j: int| 0 <= j < old_entries.len() ==> #[trigger] entries@[j].0@ == old_entries[j].0@,
                forall|j: int| 0 <= j < i ==> #[trigger] entries@[j].1 == 0,
            decreases old_entries.len() - i,
        {
            let name = entries[i].0.clone();
            let ghost before = entries@;
            entries.set(i, (name, 0));
            proof {
                assert forall|a: int, b: int|
                    0 <= a < entries@.len() && 0 <= b < entries@.len() && a != b implies #[trigger] entries@[a].0@
                    != #[trigger] entries@[b].0@ by {
                    assert(before[a].0@ != before[b].0@);
                }
            }
            i = i + 1;
        }
        proof {
            let new_entries = entries@;
            let cur = counts_of(new_entries);
            let target = old(self).counts().map_values(|v: u64| 0u64);
            assert forall|k: Seq<char>| #[trigger] cur.contains_key(k)
                <==> target.contains_key(k) by {
                if old(self).counts().contains_key(k) {
                    let j = choose|j: int| 0 <= j < old_entries.len() && #[trigger] old_entries[j].0@ == k;
                    assert(new_entries[j].0@ == k);
                }
                if cur.contains_key(k) {
                    let j = choose|j: int| 0 <= j < new_entries.len() && #[trigger] new_entries[j].0@ == k;
                    assert(old_entries[j].0@ == k);
                }
            }
            assert forall|k: Seq<char>| #[trigger] cur.contains_key(k)
                implies cur[k] == target[k] by {
                let j = choose|j: int| 0 <= j < new_entries.len() && #[trigger] new_entries[j].0@ == k;
                lemma_entry_count(new_entries, j);
            }
            assert(cur =~= target);
        }
        self.counters = entries;
    }
}

} // verus!
