//! Tables keyed by a name.
use vstd::prelude::*;

use crate::bytes::same_bytes;

verus! {

/// A table from names to numbers, each name once.
pub struct Names {
    entries: Vec<(Vec<u8>, u64)>,
}

/// Whether the entry at `at` is under `name`.
pub open spec fn named_at(entries: Seq<(Vec<u8>, u64)>, name: Seq<u8>, at: int) -> bool {
    0 <= at < entries.len() && entries[at].0@ == name
}

/// Whether anything is under `name`.
pub open spec fn named(entries: Seq<(Vec<u8>, u64)>, name: Seq<u8>) -> bool {
    exists|at: int| named_at(entries, name, at)
}

/// What is under `name`.
pub open spec fn under(entries: Seq<(Vec<u8>, u64)>, name: Seq<u8>) -> u64 {
    entries[choose|at: int| named_at(entries, name, at)].1
}

/// No name stands twice.
pub open spec fn distinct(entries: Seq<(Vec<u8>, u64)>) -> bool {
    forall|i: int, j: int|
        0 <= i < j < entries.len() ==> (#[trigger] entries[i]).0@ != (#[trigger] entries[j]).0@
}

proof fn lemma_under(entries: Seq<(Vec<u8>, u64)>, at: int)
    requires
        distinct(entries),
        0 <= at < entries.len(),
    ensures
        named(entries, entries[at].0@),
        under(entries, entries[at].0@) == entries[at].1,
{
    let name = entries[at].0@;
    assert(named_at(entries, name, at));
    let found = choose|i: int| named_at(entries, name, i);
    assert(named_at(entries, name, found));
    assert(found == at);
}

proof fn lemma_removed(before: Seq<(Vec<u8>, u64)>, at: int, name: Seq<u8>)
    requires
        distinct(before),
        0 <= at < before.len(),
    ensures
        distinct(before.remove(at)),
        name != before[at].0@ ==> named(before.remove(at), name) == named(before, name),
        name != before[at].0@ && named(before, name) ==> under(before.remove(at), name) == under(
            before,
            name,
        ),
        !named(before.remove(at), before[at].0@),
{
    let after = before.remove(at);
    assert forall|i: int| 0 <= i < after.len() implies #[trigger] after[i] == before[if i < at {
        i
    } else {
        i + 1
    }] by {}
    assert(distinct(after));
    if named(before, name) && name != before[at].0@ {
        let i = choose|i: int| named_at(before, name, i);
        assert(named_at(before, name, i));
        let j = if i < at {
            i
        } else {
            i - 1
        };
        assert(after[j] == before[i]);
        lemma_under(after, j);
        lemma_under(before, i);
    }
    if named(after, name) {
        let j = choose|j: int| named_at(after, name, j);
        assert(named_at(after, name, j));
        let i = if j < at {
            j
        } else {
            j + 1
        };
        assert(after[j] == before[i]);
        lemma_under(before, i);
    }
    if named(after, before[at].0@) {
        let j = choose|j: int| named_at(after, before[at].0@, j);
        assert(named_at(after, before[at].0@, j));
        assert(after[j] == before[if j < at {
            j
        } else {
            j + 1
        }]);
    }
}

proof fn lemma_pushed(before: Seq<(Vec<u8>, u64)>, entry: (Vec<u8>, u64), name: Seq<u8>)
    requires
        distinct(before),
        !named(before, entry.0@),
    ensures
        distinct(before.push(entry)),
        named(before.push(entry), name) == (name == entry.0@ || named(before, name)),
        named(before, name) ==> under(before.push(entry), name) == under(before, name),
        under(before.push(entry), entry.0@) == entry.1,
{
    let after = before.push(entry);
    assert(distinct(after)) by {
        assert forall|i: int| 0 <= i < before.len() implies (#[trigger] before[i]).0@ != entry.0@ by {
            assert(!named_at(before, entry.0@, i));
        }
    }
    lemma_under(after, before.len() as int);
    if named(before, name) {
        let i = choose|i: int| named_at(before, name, i);
        assert(named_at(before, name, i));
        assert(after[i] == before[i]);
        lemma_under(after, i);
        lemma_under(before, i);
    }
    if named(after, name) && name != entry.0@ {
        let i = choose|i: int| named_at(after, name, i);
        assert(named_at(after, name, i));
        assert(after[i] == before[i]);
        lemma_under(before, i);
    }
}

/// As many names as entries.
proof fn lemma_counted(entries: Seq<(Vec<u8>, u64)>)
    requires
        distinct(entries),
    ensures
        Set::new(|name: Seq<u8>| named(entries, name)).finite(),
        Set::new(|name: Seq<u8>| named(entries, name)).len() == entries.len(),
    decreases entries.len(),
{
    let all = Set::new(|name: Seq<u8>| named(entries, name));
    if entries.len() == 0 {
        assert(all =~= Set::empty());
    } else {
        let before = entries.drop_last();
        let fewer = Set::new(|name: Seq<u8>| named(before, name));
        assert(before.push(entries.last()) =~= entries);
        lemma_counted(before);
        assert(!named(before, entries.last().0@)) by {
            assert forall|at: int| !named_at(before, entries.last().0@, at) by {
                if 0 <= at < before.len() {
                    assert(before[at] == entries[at]);
                }
            }
        }
        assert(all =~= fewer.insert(entries.last().0@)) by {
            assert forall|name: Seq<u8>|
                all.contains(name) == fewer.insert(entries.last().0@).contains(name) by {
                lemma_pushed(before, entries.last(), name);
            }
        }
    }
}

impl View for Names {
    type V = Map<Seq<u8>, u64>;

    closed spec fn view(&self) -> Map<Seq<u8>, u64> {
        Map::new(
            |name: Seq<u8>| named(self.entries@, name),
            |name: Seq<u8>| under(self.entries@, name),
        )
    }
}

impl Names {
    /// No name stands twice.
    pub closed spec fn wf(&self) -> bool {
        distinct(self.entries@)
    }

    /// There are only so many names.
    pub proof fn lemma_finite(&self)
        requires
            self.wf(),
        ensures
            self@.dom().finite(),
            self@.dom().len() <= usize::MAX,
    {
        lemma_counted(self.entries@);
        assert(self@.dom() =~= Set::new(|name: Seq<u8>| named(self.entries@, name)));
        assert(self.entries@.len() == self.entries.len());
    }

    /// No names.
    pub fn new() -> (names: Self)
        ensures
            names.wf(),
            names@ == Map::<Seq<u8>, u64>::empty(),
    {
        let names = Names { entries: Vec::new() };
        assert(names@ =~= Map::<Seq<u8>, u64>::empty());
        names
    }

    fn find(&self, name: &[u8]) -> (found: Option<usize>)
        requires
            self.wf(),
        ensures
            match found {
                Some(at) => named_at(self.entries@, name@, at as int),
                None => !named(self.entries@, name@),
            },
    {
        let mut at: usize = 0;
        while at < self.entries.len()
            invariant
                at <= self.entries@.len(),
                forall|i: int| 0 <= i < at ==> (#[trigger] self.entries@[i]).0@ != name@,
            decreases self.entries@.len() - at,
        {
            if same_bytes(self.entries[at].0.as_slice(), name) {
                return Some(at);
            }
            at += 1;
        }
        None
    }

    /// What stands under `name`, if anything does.
    pub fn get(&self, name: &[u8]) -> (found: Option<u64>)
        requires
            self.wf(),
        ensures
            found == if self@.dom().contains(name@) {
                Some(self@[name@])
            } else {
                None
            },
    {
        match self.find(name) {
            Some(at) => {
                proof {
                    lemma_under(self.entries@, at as int);
                }
                Some(self.entries[at].1)
            },
            None => None,
        }
    }

    /// Take away whatever stands under `name`; whether anything did.
    pub fn remove(&mut self, name: &[u8]) -> (was: bool)
        requires
            old(self).wf(),
        ensures
            final(self).wf(),
            was == old(self)@.dom().contains(name@),
            final(self)@ == old(self)@.remove(name@),
    {
        let ghost before = self.entries@;
        match self.find(name) {
            Some(at) => {
                self.entries.remove(at);
                proof {
                    lemma_under(before, at as int);
                    assert forall|k: Seq<u8>| #![auto]
                        (named(self.entries@, k) <==> k != name@ && named(before, k)) && (k != name@
                            && named(before, k) ==> under(self.entries@, k) == under(before, k)) by {
                        lemma_removed(before, at as int, k);
                    }
                    lemma_removed(before, at as int, name@);
                    assert(self@ =~= old(self)@.remove(name@));
                }
                true
            },
            None => {
                assert(self@ =~= old(self)@.remove(name@));
                false
            },
        }
    }

    /// Put `value` under a name nothing stands under.
    pub fn insert(&mut self, name: Vec<u8>, value: u64)
        requires
            old(self).wf(),
            !old(self)@.dom().contains(name@),
        ensures
            final(self).wf(),
            final(self)@ == old(self)@.insert(name@, value),
    {
        let ghost before = self.entries@;
        let ghost key = name@;
        let ghost entry = (name, value);
        self.entries.push((name, value));
        proof {
            assert forall|k: Seq<u8>| #![auto]
                (named(self.entries@, k) <==> k == key || named(before, k)) && (named(before, k)
                    ==> under(self.entries@, k) == under(before, k)) by {
                lemma_pushed(before, entry, k);
            }
            lemma_pushed(before, entry, key);
            assert(self@ =~= old(self)@.insert(key, value));
        }
    }
}

} // verus!
