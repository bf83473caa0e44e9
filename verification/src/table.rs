//! Tables keyed by a number, walked in ascending order of key.
use vstd::prelude::*;

verus! {

/// A table from numbers to values.
///
/// The entries stand in ascending order of key, each key once, so that walking
/// the table visits the same entries in the same order every time.
pub struct Table<V> {
    entries: Vec<(u64, V)>,
}

/// Keys in ascending order, each once.
pub open spec fn ascending<V>(entries: Seq<(u64, V)>) -> bool {
    forall|i: int, j: int|
        0 <= i < j < entries.len() ==> (#[trigger] entries[i]).0 < (#[trigger] entries[j]).0
}

/// Whether `entries` has `key` at `at`.
pub open spec fn stands<V>(entries: Seq<(u64, V)>, key: u64, at: int) -> bool {
    0 <= at < entries.len() && entries[at].0 == key
}

/// Whether `entries` has `key`.
pub open spec fn listed_key<V>(entries: Seq<(u64, V)>, key: u64) -> bool {
    exists|at: int| stands(entries, key, at)
}

/// What `entries` has under `key`.
pub open spec fn listed_value<V>(entries: Seq<(u64, V)>, key: u64) -> V {
    entries[choose|at: int| stands(entries, key, at)].1
}

proof fn lemma_listed_at<V>(entries: Seq<(u64, V)>, at: int)
    requires
        ascending(entries),
        0 <= at < entries.len(),
    ensures
        listed_key(entries, entries[at].0),
        listed_value(entries, entries[at].0) == entries[at].1,
{
    let key = entries[at].0;
    assert(stands(entries, key, at));
    let found = choose|i: int| stands(entries, key, i);
    assert(stands(entries, key, found));
    assert(found == at);
}

/// Two listings agree on a key when an entry of each is the same entry.
proof fn lemma_same_entry<V>(left: Seq<(u64, V)>, right: Seq<(u64, V)>, i: int, j: int)
    requires
        ascending(left),
        ascending(right),
        0 <= i < left.len(),
        0 <= j < right.len(),
        left[i] == right[j],
    ensures
        listed_key(left, left[i].0),
        listed_key(right, left[i].0),
        listed_value(left, left[i].0) == listed_value(right, left[i].0),
{
    lemma_listed_at(left, i);
    lemma_listed_at(right, j);
}

proof fn lemma_insert<V>(before: Seq<(u64, V)>, at: int, key: u64, value: V, k: u64)
    requires
        ascending(before),
        0 <= at <= before.len(),
        ascending(before.insert(at, (key, value))),
    ensures
        k != key ==> listed_key(before.insert(at, (key, value)), k) == listed_key(before, k),
        k != key && listed_key(before, k) ==> listed_value(before.insert(at, (key, value)), k)
            == listed_value(before, k),
        listed_key(before.insert(at, (key, value)), key),
        listed_value(before.insert(at, (key, value)), key) == value,
{
    let after = before.insert(at, (key, value));
    lemma_listed_at(after, at);
    if k != key && listed_key(after, k) {
        let i = choose|i: int| stands(after, k, i);
        assert(stands(after, k, i));
        if i < at {
            assert(after[i] == before[i]);
            lemma_same_entry(after, before, i, i);
        } else {
            assert(after[i] == before[i - 1]);
            lemma_same_entry(after, before, i, i - 1);
        }
    }
    if k != key && listed_key(before, k) {
        let i = choose|i: int| stands(before, k, i);
        assert(stands(before, k, i));
        if i < at {
            assert(after[i] == before[i]);
            lemma_same_entry(after, before, i, i);
        } else {
            assert(after[i + 1] == before[i]);
            lemma_same_entry(after, before, i + 1, i);
        }
    }
}

proof fn lemma_remove<V>(before: Seq<(u64, V)>, at: int, k: u64)
    requires
        ascending(before),
        0 <= at < before.len(),
    ensures
        ascending(before.remove(at)),
        k != before[at].0 ==> listed_key(before.remove(at), k) == listed_key(before, k),
        k != before[at].0 && listed_key(before, k) ==> listed_value(before.remove(at), k)
            == listed_value(before, k),
        !listed_key(before.remove(at), before[at].0),
{
    let after = before.remove(at);
    assert(ascending(after)) by {
        assert forall|i: int, j: int| 0 <= i < j < after.len() implies (#[trigger] after[i]).0 < (
        #[trigger] after[j]).0 by {
            let from_i = if i < at { i } else { i + 1 };
            let from_j = if j < at { j } else { j + 1 };
            assert(after[i] == before[from_i] && after[j] == before[from_j]);
        }
    }
    if k != before[at].0 && listed_key(before, k) {
        let i = choose|i: int| stands(before, k, i);
        assert(stands(before, k, i));
        if i < at {
            assert(after[i] == before[i]);
            lemma_same_entry(after, before, i, i);
        } else {
            assert(after[i - 1] == before[i]);
            lemma_same_entry(after, before, i - 1, i);
        }
    }
    if listed_key(after, k) {
        let i = choose|i: int| stands(after, k, i);
        assert(stands(after, k, i));
        let from = if i < at { i } else { i + 1 };
        assert(after[i] == before[from]);
        lemma_listed_at(before, from);
    }
    if listed_key(after, before[at].0) {
        let i = choose|i: int| stands(after, before[at].0, i);
        assert(stands(after, before[at].0, i));
        let from = if i < at { i } else { i + 1 };
        assert(after[i] == before[from]);
    }
}

/// Two listings of the same keys list them at the same places.
pub proof fn lemma_same_keys<V>(left: Seq<(u64, V)>, right: Seq<(u64, V)>)
    requires
        ascending(left),
        ascending(right),
        forall|key: u64| #[trigger] listed_key(left, key) == listed_key(right, key),
    ensures
        left.len() == right.len(),
        forall|i: int| 0 <= i < left.len() ==> (#[trigger] left[i]).0 == right[i].0,
    decreases left.len(),
{
    if left.len() == 0 {
        if right.len() > 0 {
            assert(stands(right, right[0].0, 0));
            assert(listed_key(right, right[0].0));
            assert(listed_key(left, right[0].0));
        }
    } else {
        let key = left.last().0;
        assert(stands(left, key, left.len() - 1));
        assert(listed_key(left, key));
        assert(listed_key(right, key));
        let at = choose|at: int| stands(right, key, at);
        assert(stands(right, key, at));
        let other = right.last().0;
        assert(stands(right, other, right.len() - 1));
        assert(listed_key(right, other));
        assert(listed_key(left, other));
        let from = choose|i: int| stands(left, other, i);
        assert(stands(left, other, from));
        assert(other == key);
        let short = left.drop_last();
        let less = right.drop_last();
        assert forall|k: u64| #[trigger] listed_key(short, k) == listed_key(less, k) by {
            lemma_drop_last_keys(left, k);
            lemma_drop_last_keys(right, k);
            assert(listed_key(left, k) == listed_key(right, k));
        }
        assert(ascending(short));
        assert(ascending(less));
        lemma_same_keys(short, less);
        assert forall|i: int| 0 <= i < left.len() implies (#[trigger] left[i]).0 == right[i].0 by {
            if i < short.len() {
                assert(short[i].0 == less[i].0);
            }
        }
    }
}

proof fn lemma_drop_last_keys<V>(entries: Seq<(u64, V)>, key: u64)
    requires
        ascending(entries),
        entries.len() > 0,
    ensures
        listed_key(entries.drop_last(), key) == (listed_key(entries, key) && key
            != entries.last().0),
{
    let short = entries.drop_last();
    if listed_key(short, key) {
        let i = choose|i: int| stands(short, key, i);
        assert(stands(short, key, i));
        assert(stands(entries, key, i));
    }
    if listed_key(entries, key) && key != entries.last().0 {
        let i = choose|i: int| stands(entries, key, i);
        assert(stands(entries, key, i));
        assert(stands(short, key, i));
    }
}

impl<V> View for Table<V> {
    type V = Map<u64, V>;

    closed spec fn view(&self) -> Map<u64, V> {
        Map::new(
            |key: u64| listed_key(self.entries@, key),
            |key: u64| listed_value(self.entries@, key),
        )
    }
}

impl<V> Table<V> {
    /// The entries in ascending order of key.
    pub closed spec fn listed(&self) -> Seq<(u64, V)> {
        self.entries@
    }

    /// Every key stands once, and before every larger one.
    pub closed spec fn wf(&self) -> bool {
        ascending(self.entries@)
    }

    /// What the listing and the map say of each other.
    pub proof fn lemma_listed(&self)
        requires
            self.wf(),
        ensures
            ascending(self.listed()),
            forall|key: u64| #[trigger]
                self@.dom().contains(key) <==> listed_key(self.listed(), key),
            forall|i: int|
                0 <= i < self.listed().len() ==> {
                    &&& self@.dom().contains((#[trigger] self.listed()[i]).0)
                    &&& self@[self.listed()[i].0] == self.listed()[i].1
                },
    {
        assert forall|i: int| 0 <= i < self.listed().len() implies {
            &&& self@.dom().contains((#[trigger] self.listed()[i]).0)
            &&& self@[self.listed()[i].0] == self.listed()[i].1
        } by {
            lemma_listed_at(self.entries@, i);
        }
    }

    /// A table with nothing in it.
    pub fn new() -> (table: Self)
        ensures
            table.wf(),
            table@ == Map::<u64, V>::empty(),
            table.listed() == Seq::<(u64, V)>::empty(),
    {
        let table = Table { entries: Vec::new() };
        assert(table@ =~= Map::<u64, V>::empty());
        table
    }

    /// How many entries stand before `key`.
    fn rank(&self, key: u64) -> (at: usize)
        requires
            self.wf(),
        ensures
            at <= self.entries@.len(),
            forall|i: int| 0 <= i < at ==> (#[trigger] self.entries@[i]).0 < key,
            forall|i: int| at <= i < self.entries@.len() ==> (#[trigger] self.entries@[i]).0 >= key,
    {
        let mut at: usize = 0;
        while at < self.entries.len() && self.entries[at].0 < key
            invariant
                self.wf(),
                at <= self.entries@.len(),
                forall|i: int| 0 <= i < at ==> (#[trigger] self.entries@[i]).0 < key,
            decreases self.entries@.len() - at,
        {
            at += 1;
        }
        at
    }

    /// The value under `key`, if there is one.
    pub fn get(&self, key: u64) -> (found: Option<&V>)
        requires
            self.wf(),
        ensures
            match found {
                Some(value) => self@.dom().contains(key) && self@[key] == *value,
                None => !self@.dom().contains(key),
            },
    {
        let at: usize = self.rank(key);
        if at < self.entries.len() && self.entries[at].0 == key {
            proof {
                lemma_listed_at(self.entries@, at as int);
            }
            Some(&self.entries[at].1)
        } else {
            None
        }
    }

    /// Whether anything stands under `key`.
    pub fn contains(&self, key: u64) -> (found: bool)
        requires
            self.wf(),
        ensures
            found == self@.dom().contains(key),
    {
        self.get(key).is_some()
    }

    /// Put `value` under `key`, in place of whatever stood there.
    pub fn insert(&mut self, key: u64, value: V)
        requires
            old(self).wf(),
        ensures
            final(self).wf(),
            final(self)@ == old(self)@.insert(key, value),
    {
        let ghost before = self@;
        let taken = self.remove(key);
        let at: usize = self.rank(key);
        let ghost between = self.entries@;
        let ghost without = self@;
        assert(forall|k: u64| #[trigger] without.dom().contains(k) == listed_key(between, k));
        assert(forall|k: u64| #[trigger]
            without.dom().contains(k) ==> without[k] == listed_value(between, k));
        self.entries.insert(at, (key, value));
        proof {
            assert(!without.dom().contains(key));
            assert forall|i: int| at <= i < between.len() implies (#[trigger] between[i]).0 > key by {
                assert(!stands(between, key, i));
            }
            assert(ascending(self.entries@)) by {
                assert forall|i: int, j: int| 0 <= i < j < self.entries@.len() implies (
                #[trigger] self.entries@[i]).0 < (#[trigger] self.entries@[j]).0 by {
                    if i < at {
                        assert(self.entries@[i] == between[i]);
                    }
                    if i > at {
                        assert(self.entries@[i] == between[i - 1]);
                    }
                    if j < at {
                        assert(self.entries@[j] == between[j]);
                    }
                    if j > at {
                        assert(self.entries@[j] == between[j - 1]);
                    }
                }
            }
            assert forall|k: u64| #![auto]
                (listed_key(self.entries@, k) <==> k == key || listed_key(between, k)) && (k != key
                    && listed_key(between, k) ==> listed_value(self.entries@, k) == listed_value(
                    between,
                    k,
                )) by {
                lemma_insert(between, at as int, key, value, k);
            }
            lemma_insert(between, at as int, key, value, key);
            assert(self@ =~= without.insert(key, value));
            assert(self@ =~= before.insert(key, value));
        }
    }

    /// Take away what stands under `key`, and hand it over.
    pub fn remove(&mut self, key: u64) -> (taken: Option<V>)
        requires
            old(self).wf(),
        ensures
            final(self).wf(),
            final(self)@ == old(self)@.remove(key),
            match taken {
                Some(value) => old(self)@.dom().contains(key) && old(self)@[key] == value,
                None => !old(self)@.dom().contains(key),
            },
    {
        let at: usize = self.rank(key);
        let ghost before = self.entries@;
        if at < self.entries.len() && self.entries[at].0 == key {
            let entry = self.entries.remove(at);
            proof {
                lemma_listed_at(before, at as int);
                lemma_remove(before, at as int, key);
                assert forall|k: u64| #![auto]
                    (listed_key(self.entries@, k) <==> k != key && listed_key(before, k)) && (k
                        != key && listed_key(before, k) ==> listed_value(self.entries@, k)
                        == listed_value(before, k)) by {
                    lemma_remove(before, at as int, k);
                }
                assert(self@ =~= old(self)@.remove(key));
            }
            Some(entry.1)
        } else {
            assert(!listed_key(before, key)) by {
                if listed_key(before, key) {
                    let i = choose|i: int| stands(before, key, i);
                    assert(stands(before, key, i));
                }
            }
            assert(self@ =~= old(self)@.remove(key));
            None
        }
    }

    /// How many keys have a value.
    pub fn len(&self) -> (count: usize)
        ensures
            count == self.listed().len(),
    {
        self.entries.len()
    }

    /// The entry that `at` others stand before.
    pub fn entry(&self, at: usize) -> (entry: (u64, &V))
        requires
            at < self.listed().len(),
        ensures
            entry.0 == self.listed()[at as int].0,
            *entry.1 == self.listed()[at as int].1,
    {
        (self.entries[at].0, &self.entries[at].1)
    }
}

} // verus!
