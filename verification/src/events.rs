//! Counting events by key, to see how often different code paths are run.

use vstd::prelude::*;
use vstd::string::StringExecFns;
use crate::filters::Filter;
use crate::text::{append_decimal, decimal, str_eq};

verus! {

/// A key and what was counted for it.
pub type Entry = (Seq<char>, u64);

/// The position of the first entry for `key`, if there is one.
pub open spec fn first_with(entries: Seq<Entry>, key: Seq<char>) -> Option<int>
    decreases entries.len(),
{
    if entries.len() == 0 {
        None
    } else {
        match first_with(entries.drop_last(), key) {
            Some(i) => Some(i),
            None => if entries.last().0 == key {
                Some(entries.len() - 1)
            } else {
                None
            },
        }
    }
}

/// What was counted for `key`; zero for a key without an entry.
pub open spec fn value_of(entries: Seq<Entry>, key: Seq<char>) -> u64 {
    match first_with(entries, key) {
        Some(i) => entries[i].1,
        None => 0,
    }
}

/// The entries with `value` for `key`: in the place of the key's entry,
/// or else behind all others.
pub open spec fn with_value(entries: Seq<Entry>, key: Seq<char>, value: u64) -> Seq<Entry> {
    match first_with(entries, key) {
        Some(i) => entries.update(i, (key, value)),
        None => entries.push((key, value)),
    }
}

/// No key has two entries.
pub open spec fn distinct(entries: Seq<Entry>) -> bool {
    forall|i: int, j: int|
        0 <= i < j < entries.len() ==> (#[trigger] entries[i]).0 != (#[trigger] entries[j]).0
}

/// What was counted for all keys together.
pub open spec fn total(entries: Seq<Entry>) -> int
    decreases entries.len(),
{
    if entries.len() == 0 {
        0
    } else {
        total(entries.drop_last()) + entries.last().1
    }
}

/// `verdicts` holds, entry by entry, what the filter says of the entries.
pub open spec fn admitted<F: Filter>(filter: F, entries: Seq<Entry>, verdicts: Seq<bool>) -> bool {
    &&& verdicts.len() == entries.len()
    &&& forall|i: int|
        0 <= i < entries.len() ==> filter.admits((#[trigger] entries[i]).0, entries[i].1, verdicts[i])
}

/// The entries whose verdict is `wanted`, in their order.
pub open spec fn picked(entries: Seq<Entry>, verdicts: Seq<bool>, wanted: bool) -> Seq<Entry>
    recommends
        verdicts.len() == entries.len(),
    decreases entries.len(),
{
    if entries.len() == 0 {
        Seq::empty()
    } else {
        let before = picked(entries.drop_last(), verdicts.drop_last(), wanted);
        if verdicts.last() == wanted {
            before.push(entries.last())
        } else {
            before
        }
    }
}

/// The entries with `amount` more for `key`.
pub open spec fn added(entries: Seq<Entry>, key: Seq<char>, amount: u64) -> Seq<Entry> {
    with_value(entries, key, (value_of(entries, key) + amount) as u64)
}

/// The entries with everything in `more` added, entry by entry.
pub open spec fn merged(entries: Seq<Entry>, more: Seq<Entry>) -> Seq<Entry>
    decreases more.len(),
{
    if more.len() == 0 {
        entries
    } else {
        added(merged(entries, more.drop_last()), more.last().0, more.last().1)
    }
}

/// Adding `more` entry by entry never counts past the largest number.
pub open spec fn mergeable(entries: Seq<Entry>, more: Seq<Entry>) -> bool
    decreases more.len(),
{
    if more.len() == 0 {
        true
    } else {
        mergeable(entries, more.drop_last()) && value_of(merged(entries, more.drop_last()), more.last().0) + more.last().1 <= u64::MAX
    }
}

/// The entries as lines: the key, a colon, a space and the number.
pub open spec fn lines(entries: Seq<Entry>) -> Seq<char>
    decreases entries.len(),
{
    if entries.len() == 0 {
        Seq::empty()
    } else {
        lines(entries.drop_last()) + entries.last().0 + ": "@ + decimal(entries.last().1 as nat)
            + "\n"@
    }
}

/// The first entry for a key holds the key, and no entry before it does.
pub proof fn lemma_first_with(entries: Seq<Entry>, key: Seq<char>)
    ensures
        match first_with(entries, key) {
            Some(i) => 0 <= i < entries.len() && entries[i].0 == key && forall|j: int|
                0 <= j < i ==> (#[trigger] entries[j]).0 != key,
            None => forall|j: int| 0 <= j < entries.len() ==> (#[trigger] entries[j]).0 != key,
        },
    decreases entries.len(),
{
    if entries.len() > 0 {
        lemma_first_with(entries.drop_last(), key);
        assert(forall|j: int|
            0 <= j < entries.len() - 1 ==> entries.drop_last()[j] == #[trigger] entries[j]);
    }
}

/// Setting the value of a key leaves no key with two entries, and the
/// key has the value afterwards.
pub proof fn lemma_with_value(entries: Seq<Entry>, key: Seq<char>, value: u64)
    ensures
        distinct(entries) ==> distinct(with_value(entries, key, value)),
        value_of(with_value(entries, key, value), key) == value,
{
    lemma_first_with(entries, key);
    let after = with_value(entries, key, value);
    lemma_first_with(after, key);
    match first_with(entries, key) {
        Some(i) => {
            assert(after[i].0 == key);
            if first_with(after, key) != Some(i) {
                let k = first_with(after, key)->0;
                assert(after[k].0 == key);
                assert(entries[k].0 == key);
            }
        },
        None => {
            assert(after[entries.len() as int].0 == key);
            if first_with(after, key) != Some(entries.len() as int) {
                let k = first_with(after, key)->0;
                assert(after[k].0 == key);
                assert(entries[k].0 == key);
            }
        },
    }
    if distinct(entries) {
        assert forall|i: int, j: int| 0 <= i < j < after.len() implies (#[trigger] after[i]).0 != (
        #[trigger] after[j]).0 by {
            if j < entries.len() {
                assert(entries[i].0 != entries[j].0);
            } else {
                assert(entries[i].0 != key);
            }
        }
    }
}

/// The entries that a filter picks count no more than all entries.
pub proof fn lemma_total_of_picked(entries: Seq<Entry>, verdicts: Seq<bool>, wanted: bool)
    requires
        verdicts.len() == entries.len(),
    ensures
        0 <= total(picked(entries, verdicts, wanted)) <= total(entries),
    decreases entries.len(),
{
    if entries.len() > 0 {
        lemma_total_of_picked(entries.drop_last(), verdicts.drop_last(), wanted);
        if verdicts.last() == wanted {
            assert(picked(entries, verdicts, wanted).drop_last() == picked(
                entries.drop_last(),
                verdicts.drop_last(),
                wanted,
            ));
        }
    }
}

/// The first entries count no more than all entries.
pub proof fn lemma_total_of_prefix(entries: Seq<Entry>, n: int)
    requires
        0 <= n <= entries.len(),
    ensures
        0 <= total(entries.take(n)) <= total(entries),
    decreases entries.len(),
{
    if n < entries.len() {
        lemma_total_of_prefix(entries.drop_last(), n);
        assert(entries.drop_last().take(n) == entries.take(n));
    } else {
        assert(entries.take(n) == entries);
        if n > 0 {
            lemma_total_of_prefix(entries.drop_last(), n - 1);
        }
    }
}

/// The counters of events.
pub struct Counters {
    events: Vec<(String, u64)>,
}

impl View for Counters {
    type V = Seq<Entry>;

    closed spec fn view(&self) -> Seq<Entry> {
        Seq::new(self.events@.len(), |i: int| (self.events@[i].0@, self.events@[i].1))
    }
}

impl Counters {
    /// No counters yet.
    pub fn new() -> (counters: Self)
        ensures
            counters@ == Seq::<Entry>::empty(),
    {
        let counters = Counters { events: Vec::new() };
        assert(counters@ =~= Seq::<Entry>::empty());
        counters
    }

    /// The position of the first entry for `key`.
    fn find(&self, key: &str) -> (found: Option<usize>)
        ensures
            match found {
                Some(i) => first_with(self@, key@) == Some(i as int) && i < self@.len(),
                None => first_with(self@, key@) is None,
            },
    {
        let mut i: usize = 0;
        assert(self@.take(0) =~= Seq::<Entry>::empty());
        while i < self.events.len()
            invariant
                i <= self@.len(),
                self@.len() == self.events@.len(),
                first_with(self@.take(i as int), key@) is None,
            decreases self@.len() - i,
        {
            proof {
                assert(self@.take(i + 1).drop_last() =~= self@.take(i as int));
                assert(self@.take(i + 1).last() == self@[i as int]);
                lemma_first_extends(self@, i + 1, key@);
            }
            if str_eq(self.events[i].0.as_str(), key) {
                return Some(i);
            }
            i = i + 1;
        }
        assert(self@.take(self@.len() as int) =~= self@);
        None
    }

    /// Sets the entry of `key` to `value`.
    fn put(&mut self, key: &str, value: u64)
        ensures
            final(self)@ == with_value(old(self)@, key@, value),
            distinct(old(self)@) ==> distinct(final(self)@),
    {
        proof {
            lemma_with_value(self@, key@, value);
        }
        match self.find(key) {
            Some(i) => {
                self.events[i].1 = value;
                proof {
                    lemma_first_with(old(self)@, key@);
                }
                assert(self@ =~= old(self)@.update(i as int, (key@, value)));
            },
            None => {
                self.events.push((String::from_str(key), value));
                assert(self@ =~= old(self)@.push((key@, value)));
            },
        }
    }

    /// Increment the counter for the provided event key.
    pub fn event(&mut self, key: &str)
        requires
            value_of(old(self)@, key@) < u64::MAX,
        ensures
            final(self)@ == added(old(self)@, key@, 1),
            distinct(old(self)@) ==> distinct(final(self)@),
    {
        let count: u64 = self.get(key);
        self.put(key, count + 1);
    }

    /// Set the value of the counter for a given event key.
    pub fn set(&mut self, key: &str, value: u64)
        ensures
            final(self)@ == with_value(old(self)@, key@, value),
            distinct(old(self)@) ==> distinct(final(self)@),
    {
        self.put(key, value);
    }

    /// Reset the counter for the provided event key to zero.
    pub fn reset_event(&mut self, key: &str)
        ensures
            final(self)@ == with_value(old(self)@, key@, 0),
            distinct(old(self)@) ==> distinct(final(self)@),
    {
        self.put(key, 0);
    }

    /// The entries of which the filter says `wanted`.
    fn pick<F: Filter>(&self, filter: F, wanted: bool) -> (kept: (Vec<(String, u64)>, Ghost<Seq<bool>>))
        requires
            filter.ready(),
        ensures
            admitted(filter, self@, kept.1@),
            Seq::new(kept.0@.len(), |i: int| (kept.0@[i].0@, kept.0@[i].1)) == picked(
                self@,
                kept.1@,
                wanted,
            ),
    {
        let mut filter = filter;
        let ghost asked = filter;
        let mut kept: Vec<(String, u64)> = Vec::new();
        let ghost mut verdicts: Seq<bool> = Seq::empty();
        let mut i: usize = 0;
        assert(self@.take(0) =~= Seq::<Entry>::empty());
        while i < self.events.len()
            invariant
                i <= self@.len(),
                self@.len() == self.events@.len(),
                filter == asked,
                filter.ready(),
                admitted(asked, self@.take(i as int), verdicts),
                Seq::new(kept@.len(), |k: int| (kept@[k].0@, kept@[k].1)) =~= picked(
                    self@.take(i as int),
                    verdicts,
                    wanted,
                ),
            decreases self@.len() - i,
        {
            let verdict: bool = filter.apply(self.events[i].0.as_str(), self.events[i].1);
            proof {
                let before = verdicts;
                verdicts = verdicts.push(verdict);
                assert(self@.take(i + 1).drop_last() =~= self@.take(i as int));
                assert(self@.take(i + 1).last() == self@[i as int]);
                assert(verdicts.drop_last() =~= before);
                assert forall|k: int| 0 <= k < i + 1 implies asked.admits(
                    (#[trigger] self@.take(i + 1)[k]).0,
                    self@.take(i + 1)[k].1,
                    verdicts[k],
                ) by {
                    if k < i {
                        assert(self@.take(i as int)[k] == self@.take(i + 1)[k]);
                    }
                }
            }
            if verdict == wanted {
                kept.push((self.events[i].0.clone(), self.events[i].1));
            }
            i = i + 1;
        }
        assert(self@.take(self@.len() as int) =~= self@);
        (kept, Ghost(verdicts))
    }

    /// Reset some of the counters to zero: the counters that the filter
    /// accepts lose their entries.
    pub fn reset_events<F: Filter>(&mut self, filter: F)
        requires
            filter.ready(),
        ensures
            exists|verdicts: Seq<bool>|
                admitted(filter, old(self)@, verdicts) && final(self)@ == picked(
                    old(self)@,
                    verdicts,
                    false,
                ),
    {
        let kept = self.pick(filter, false);
        self.events = kept.0;
        assert(admitted(filter, old(self)@, kept.1@) && self@ == picked(old(self)@, kept.1@, false));
    }

    /// Reset all counters to zero.
    pub fn reset_all(&mut self)
        ensures
            final(self)@ == Seq::<Entry>::empty(),
    {
        self.events.clear();
        assert(self@ =~= Seq::<Entry>::empty());
    }

    /// Keep some of the counters and throw away the rest: only the
    /// counters that the filter accepts keep their entries.
    pub fn retain<F: Filter>(&mut self, filter: F)
        requires
            filter.ready(),
        ensures
            exists|verdicts: Seq<bool>|
                admitted(filter, old(self)@, verdicts) && final(self)@ == picked(
                    old(self)@,
                    verdicts,
                    true,
                ),
    {
        let kept = self.pick(filter, true);
        self.events = kept.0;
        assert(admitted(filter, old(self)@, kept.1@) && self@ == picked(old(self)@, kept.1@, true));
    }

    /// Get the value of the counter or zero if it does not exist.
    pub fn get(&self, key: &str) -> (value: u64)
        ensures
            value == value_of(self@, key@),
    {
        match self.find(key) {
            Some(i) => self.events[i].1,
            None => 0,
        }
    }

    /// The sum of all counters that the filter accepts, or `None` if the
    /// sum is larger than the largest number.
    pub fn try_accumulate<F: Filter>(&self, filter: F) -> (sum: Option<u64>)
        requires
            filter.ready(),
        ensures
            exists|verdicts: Seq<bool>|
                admitted(filter, self@, verdicts) && sum == if total(picked(self@, verdicts, true)) <= u64::MAX {
                    Some(total(picked(self@, verdicts, true)) as u64)
                } else {
                    None
                },
    {
        let kept = self.pick(filter, true);
        let ghost entries = picked(self@, kept.1@, true);
        let mut sum: u64 = 0;
        let mut i: usize = 0;
        assert(entries.take(0) =~= Seq::<Entry>::empty());
        while i < kept.0.len()
            invariant
                i <= entries.len(),
                entries.len() == kept.0@.len(),
                entries == picked(self@, kept.1@, true),
                entries == Seq::new(kept.0@.len(), |k: int| (kept.0@[k].0@, kept.0@[k].1)),
                admitted(filter, self@, kept.1@),
                sum == total(entries.take(i as int)),
            decreases entries.len() - i,
        {
            proof {
                assert(entries.take(i + 1).drop_last() =~= entries.take(i as int));
                assert(entries.take(i + 1).last() == entries[i as int]);
                lemma_total_of_prefix(entries, i + 1);
            }
            if kept.0[i].1 > u64::MAX - sum {
                return None;
            }
            sum = sum + kept.0[i].1;
            i = i + 1;
        }
        assert(entries.take(entries.len() as int) =~= entries);
        Some(sum)
    }

    /// Return the sum of all counters that the filter accepts.
    pub fn accumulate<F: Filter>(&self, filter: F) -> (sum: u64)
        requires
            filter.ready(),
            forall|verdicts: Seq<bool>|
                admitted(filter, self@, verdicts) ==> total(picked(self@, verdicts, true))
                    <= u64::MAX,
        ensures
            exists|verdicts: Seq<bool>|
                admitted(filter, self@, verdicts) && sum == total(picked(self@, verdicts, true)),
    {
        let sum = self.try_accumulate(filter);
        proof {
            let verdicts = choose|verdicts: Seq<bool>|
                admitted(filter, self@, verdicts) && sum == if total(picked(self@, verdicts, true))
                    <= u64::MAX {
                    Some(total(picked(self@, verdicts, true)) as u64)
                } else {
                    None
                };
            assert(admitted(filter, self@, verdicts));
            assert(total(picked(self@, verdicts, true)) <= u64::MAX);
            lemma_total_of_picked(self@, verdicts, true);
        }
        match sum {
            Some(sum) => sum,
            None => 0,
        }
    }

    /// The entries: every key with what was counted for it.
    pub fn entries(&self) -> (entries: Vec<(String, u64)>)
        ensures
            entries@.len() == self@.len(),
            forall|i: int|
                0 <= i < self@.len() ==> (#[trigger] entries@[i]).0@ == self@[i].0 && entries@[i].1
                    == self@[i].1,
    {
        let mut entries: Vec<(String, u64)> = Vec::new();
        let mut i: usize = 0;
        while i < self.events.len()
            invariant
                i <= self.events@.len(),
                self@.len() == self.events@.len(),
                entries@.len() == i,
                forall|k: int|
                    0 <= k < i ==> (#[trigger] entries@[k]).0@ == self@[k].0 && entries@[k].1
                        == self@[k].1,
            decreases self.events@.len() - i,
        {
            entries.push((self.events[i].0.clone(), self.events[i].1));
            i = i + 1;
        }
        entries
    }

    /// The counters that the filter accepts, one to a line, as `print` writes them.
    pub fn listing<F: Filter>(&self, filter: F) -> (text: String)
        requires
            filter.ready(),
        ensures
            exists|verdicts: Seq<bool>|
                admitted(filter, self@, verdicts) && text@ == lines(picked(self@, verdicts, true)),
    {
        let kept = self.pick(filter, true);
        let ghost entries = picked(self@, kept.1@, true);
        let mut text = String::new();
        let mut i: usize = 0;
        assert(entries.take(0) =~= Seq::<Entry>::empty());
        while i < kept.0.len()
            invariant
                i <= entries.len(),
                entries.len() == kept.0@.len(),
                entries == Seq::new(kept.0@.len(), |k: int| (kept.0@[k].0@, kept.0@[k].1)),
                text@ == lines(entries.take(i as int)),
            decreases entries.len() - i,
        {
            let ghost before = text@;
            text.append(kept.0[i].0.as_str());
            text.append(": ");
            append_decimal(&mut text, kept.0[i].1);
            text.append("\n");
            proof {
                assert(entries.take(i + 1).drop_last() =~= entries.take(i as int));
                assert(entries.take(i + 1).last() == entries[i as int]);
                assert(text@ =~= lines(entries.take(i + 1)));
            }
            i = i + 1;
        }
        assert(entries.take(entries.len() as int) =~= entries);
        assert(admitted(filter, self@, kept.1@) && text@ == lines(picked(self@, kept.1@, true)));
        text
    }

    /// Whether `append` can take the counters of `other`: no counter
    /// would count past the largest number.
    pub fn can_append(&self, other: &Counters) -> (ok: bool)
        ensures
            ok == mergeable(self@, other@),
    {
        let mut sums = Counters { events: Vec::new() };
        let mut k: usize = 0;
        while k < self.events.len()
            invariant
                k <= self.events@.len(),
                sums.events@ == self.events@.take(k as int),
            decreases self.events@.len() - k,
        {
            sums.events.push((self.events[k].0.clone(), self.events[k].1));
            assert(sums.events@ =~= self.events@.take(k + 1));
            k = k + 1;
        }
        assert(self.events@.take(self.events@.len() as int) =~= self.events@);
        assert(sums@ =~= self@);
        let mut i: usize = 0;
        assert(other@.take(0) =~= Seq::<Entry>::empty());
        while i < other.events.len()
            invariant
                i <= other@.len(),
                other@.len() == other.events@.len(),
                mergeable(self@, other@.take(i as int)),
                sums@ == merged(self@, other@.take(i as int)),
            decreases other@.len() - i,
        {
            proof {
                assert(other@.take(i + 1).drop_last() =~= other@.take(i as int));
                assert(other@.take(i + 1).last() == other@[i as int]);
            }
            let count: u64 = sums.get(other.events[i].0.as_str());
            if other.events[i].1 > u64::MAX - count {
                proof {
                    if mergeable(self@, other@) {
                        lemma_mergeable_prefix(self@, other@, i + 1);
                    }
                }
                return false;
            }
            sums.put(other.events[i].0.as_str(), count + other.events[i].1);
            i = i + 1;
        }
        assert(other@.take(other@.len() as int) =~= other@);
        true
    }

    /// Moves all the elements of `other` into `self`, leaving `other` empty.
    pub fn append(&mut self, other: &mut Counters)
        requires
            mergeable(old(self)@, old(other)@),
        ensures
            final(self)@ == merged(old(self)@, old(other)@),
            final(other)@ == Seq::<Entry>::empty(),
    {
        let mut i: usize = 0;
        assert(other@.take(0) =~= Seq::<Entry>::empty());
        while i < other.events.len()
            invariant
                i <= other@.len(),
                other@.len() == other.events@.len(),
                other@ == old(other)@,
                mergeable(old(self)@, old(other)@),
                self@ == merged(old(self)@, other@.take(i as int)),
            decreases other@.len() - i,
        {
            proof {
                assert(other@.take(i + 1).drop_last() =~= other@.take(i as int));
                assert(other@.take(i + 1).last() == other@[i as int]);
                lemma_mergeable_prefix(old(self)@, other@, i + 1);
            }
            let count: u64 = self.get(other.events[i].0.as_str());
            self.put(other.events[i].0.as_str(), count + other.events[i].1);
            i = i + 1;
        }
        assert(other@.take(other@.len() as int) =~= other@);
        other.events.clear();
        assert(other@ =~= Seq::<Entry>::empty());
    }
}

/// The first entry for a key among the first entries is the first among all.
pub proof fn lemma_first_extends(entries: Seq<Entry>, n: int, key: Seq<char>)
    requires
        0 <= n <= entries.len(),
    ensures
        first_with(entries.take(n), key) is Some ==> first_with(entries, key) == first_with(entries.take(n), key),
    decreases entries.len(),
{
    if n < entries.len() {
        assert(entries.drop_last().take(n) =~= entries.take(n));
        lemma_first_extends(entries.drop_last(), n, key);
    } else {
        assert(entries.take(n) =~= entries);
    }
}

/// If all of `more` can be added, its first entries can.
pub proof fn lemma_mergeable_prefix(entries: Seq<Entry>, more: Seq<Entry>, n: int)
    requires
        0 <= n <= more.len(),
        mergeable(entries, more),
    ensures
        mergeable(entries, more.take(n)),
    decreases more.len(),
{
    if n < more.len() {
        lemma_mergeable_prefix(entries, more.drop_last(), n);
        assert(more.drop_last().take(n) =~= more.take(n));
    } else {
        assert(more.take(n) =~= more);
    }
}

/// The entries whose key is among `labels`, in their order.
pub open spec fn labelled(entries: Seq<Entry>, labels: Seq<Seq<char>>) -> Seq<Entry>
    decreases entries.len(),
{
    if entries.len() == 0 {
        Seq::empty()
    } else if labels.contains(entries.last().0) {
        labelled(entries.drop_last(), labels).push(entries.last())
    } else {
        labelled(entries.drop_last(), labels)
    }
}

/// The labels as the first line of a table, with commas between them.
pub open spec fn header(labels: Seq<Seq<char>>) -> Seq<char>
    decreases labels.len(),
{
    if labels.len() == 0 {
        Seq::empty()
    } else if labels.len() == 1 {
        labels[0]
    } else {
        header(labels.drop_last()) + ","@ + labels.last()
    }
}

/// A row as a line of a table: what the row counted for each label, with
/// a comma and a space between the numbers.
pub open spec fn row_text(row: Seq<Entry>, labels: Seq<Seq<char>>) -> Seq<char>
    decreases labels.len(),
{
    if labels.len() == 0 {
        Seq::empty()
    } else if labels.len() == 1 {
        decimal(value_of(row, labels[0]) as nat)
    } else {
        row_text(row, labels.drop_last()) + ", "@ + decimal(value_of(row, labels.last()) as nat)
    }
}

/// The rows as lines of a table.
pub open spec fn rows_text(rows: Seq<Seq<Entry>>, labels: Seq<Seq<char>>) -> Seq<char>
    decreases rows.len(),
{
    if rows.len() == 0 {
        Seq::empty()
    } else {
        rows_text(rows.drop_last(), labels) + row_text(rows.last(), labels) + "\n"@
    }
}

/// Helper to print counters as a table in csv format.
pub struct Table {
    labels: Vec<String>,
    rows: Vec<Counters>,
}

/// A table as mathematics: its labels and its rows.
pub struct TableView {
    pub labels: Seq<Seq<char>>,
    pub rows: Seq<Seq<Entry>>,
}

impl View for Table {
    type V = TableView;

    closed spec fn view(&self) -> TableView {
        TableView {
            labels: Seq::new(self.labels@.len(), |i: int| self.labels@[i]@),
            rows: Seq::new(self.rows@.len(), |i: int| self.rows@[i]@),
        }
    }
}

impl Table {
    /// A table with a column for each label and no rows.
    pub fn new(labels: &[&str]) -> (table: Self)
        ensures
            table@.labels == Seq::new(labels@.len(), |i: int| labels@[i]@),
            table@.rows == Seq::<Seq<Entry>>::empty(),
    {
        let mut owned: Vec<String> = Vec::new();
        let mut i: usize = 0;
        while i < labels.len()
            invariant
                i <= labels@.len(),
                owned@.len() == i,
                forall|k: int| 0 <= k < i ==> (#[trigger] owned@[k])@ == labels@[k]@,
            decreases labels@.len() - i,
        {
            owned.push(String::from_str(labels[i]));
            i = i + 1;
        }
        let table = Table { labels: owned, rows: Vec::new() };
        assert(table@.labels =~= Seq::new(labels@.len(), |i: int| labels@[i]@));
        assert(table@.rows =~= Seq::<Seq<Entry>>::empty());
        table
    }

    /// The labels.
    pub fn labels(&self) -> (labels: &Vec<String>)
        ensures
            labels@.len() == self@.labels.len(),
            forall|i: int| 0 <= i < labels@.len() ==> (#[trigger] labels@[i])@ == self@.labels[i],
    {
        &self.labels
    }

    /// The rows.
    pub fn rows(&self) -> (rows: &Vec<Counters>)
        ensures
            rows@.len() == self@.rows.len(),
            forall|i: int| 0 <= i < rows@.len() ==> (#[trigger] rows@[i])@ == self@.rows[i],
    {
        &self.rows
    }

    /// Whether `key` is one of the labels.
    fn has_label(&self, key: &str) -> (found: bool)
        ensures
            found == self@.labels.contains(key@),
    {
        let mut i: usize = 0;
        while i < self.labels.len()
            invariant
                i <= self.labels@.len(),
                self@.labels.len() == self.labels@.len(),
                forall|k: int| 0 <= k < i ==> (#[trigger] self@.labels[k]) != key@,
            decreases self.labels@.len() - i,
        {
            if str_eq(self.labels[i].as_str(), key) {
                assert(self@.labels[i as int] == key@);
                return true;
            }
            i = i + 1;
        }
        false
    }

    /// Add collected counters as a row, preserving only the counters that
    /// match this table's labels. Returns the number of rows.
    pub fn add_row(&mut self, row: &Counters) -> (count: usize)
        ensures
            final(self)@.labels == old(self)@.labels,
            final(self)@.rows == old(self)@.rows.push(labelled(row@, old(self)@.labels)),
            count == final(self)@.rows.len(),
    {
        let mut kept = Counters { events: Vec::new() };
        let mut i: usize = 0;
        assert(row@.take(0) =~= Seq::<Entry>::empty());
        while i < row.events.len()
            invariant
                i <= row@.len(),
                row@.len() == row.events@.len(),
                self == old(self),
                kept@ =~= labelled(row@.take(i as int), self@.labels),
            decreases row@.len() - i,
        {
            proof {
                assert(row@.take(i + 1).drop_last() =~= row@.take(i as int));
                assert(row@.take(i + 1).last() == row@[i as int]);
            }
            if self.has_label(row.events[i].0.as_str()) {
                kept.events.push((row.events[i].0.clone(), row.events[i].1));
            }
            i = i + 1;
        }
        assert(row@.take(row@.len() as int) =~= row@);
        self.rows.push(kept);
        assert(self@.rows =~= old(self)@.rows.push(labelled(row@, old(self)@.labels)));
        assert(self@.labels =~= old(self)@.labels);
        self.rows.len()
    }

    /// The table in csv format, as `print` writes it: the labels, then a
    /// line for every row.
    pub fn csv(&self) -> (text: String)
        ensures
            text@ == header(self@.labels) + "\n"@ + rows_text(self@.rows, self@.labels),
    {
        let mut text = String::new();
        let mut i: usize = 0;
        assert(self@.labels.take(0) =~= Seq::<Seq<char>>::empty());
        while i < self.labels.len()
            invariant
                i <= self.labels@.len(),
                self@.labels.len() == self.labels@.len(),
                text@ == header(self@.labels.take(i as int)),
            decreases self.labels@.len() - i,
        {
            if i != 0 {
                text.append(",");
            }
            text.append(self.labels[i].as_str());
            proof {
                let done = self@.labels.take(i + 1);
                assert(done.drop_last() =~= self@.labels.take(i as int));
                assert(done.last() == self@.labels[i as int]);
                assert(text@ =~= header(done));
            }
            i = i + 1;
        }
        assert(self@.labels.take(self@.labels.len() as int) =~= self@.labels);
        text.append("\n");
        let ghost head = text@;
        let mut r: usize = 0;
        assert(self@.rows.take(0) =~= Seq::<Seq<Entry>>::empty());
        while r < self.rows.len()
            invariant
                r <= self.rows@.len(),
                self@.rows.len() == self.rows@.len(),
                self@.labels.len() == self.labels@.len(),
                text@ == head + rows_text(self@.rows.take(r as int), self@.labels),
            decreases self.rows@.len() - r,
        {
            let ghost before = text@;
            let mut k: usize = 0;
            assert(self@.labels.take(0) =~= Seq::<Seq<char>>::empty());
            while k < self.labels.len()
                invariant
                    k <= self.labels@.len(),
                    r < self.rows@.len(),
                    self@.labels.len() == self.labels@.len(),
                    self@.rows.len() == self.rows@.len(),
                    text@ == before + row_text(self@.rows[r as int], self@.labels.take(k as int)),
                decreases self.labels@.len() - k,
            {
                if k != 0 {
                    text.append(", ");
                }
                let value: u64 = self.rows[r].get(self.labels[k].as_str());
                append_decimal(&mut text, value);
                proof {
                    let done = self@.labels.take(k + 1);
                    assert(done.drop_last() =~= self@.labels.take(k as int));
                    assert(done.last() == self@.labels[k as int]);
                    assert(text@ =~= before + row_text(self@.rows[r as int], done));
                }
                k = k + 1;
            }
            assert(self@.labels.take(self@.labels.len() as int) =~= self@.labels);
            text.append("\n");
            proof {
                let done = self@.rows.take(r + 1);
                assert(done.drop_last() =~= self@.rows.take(r as int));
                assert(done.last() == self@.rows[r as int]);
                assert(text@ =~= head + rows_text(done, self@.labels));
            }
            r = r + 1;
        }
        assert(self@.rows.take(self@.rows.len() as int) =~= self@.rows);
        text
    }
}

} // verus!
