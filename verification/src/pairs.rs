//! Tables keyed by an owner and one of its numbers.
use vstd::prelude::*;

verus! {

/// A table from pairs of numbers to numbers, each pair once.
pub struct Pairs {
    entries: Vec<(u64, u64, u64)>,
}

/// The key of an entry.
pub open spec fn key_of(entry: (u64, u64, u64)) -> (u64, u64) {
    (entry.0, entry.1)
}

/// Whether the entry at `at` is under `key`.
pub open spec fn kept_at(entries: Seq<(u64, u64, u64)>, key: (u64, u64), at: int) -> bool {
    0 <= at < entries.len() && key_of(entries[at]) == key
}

/// Whether anything is under `key`.
pub open spec fn kept(entries: Seq<(u64, u64, u64)>, key: (u64, u64)) -> bool {
    exists|at: int| kept_at(entries, key, at)
}

/// What is under `key`.
pub open spec fn kept_value(entries: Seq<(u64, u64, u64)>, key: (u64, u64)) -> u64 {
    entries[choose|at: int| kept_at(entries, key, at)].2
}

/// No pair stands twice.
pub open spec fn once(entries: Seq<(u64, u64, u64)>) -> bool {
    forall|i: int, j: int|
        0 <= i < j < entries.len() ==> key_of(#[trigger] entries[i]) != key_of(
            #[trigger] entries[j],
        )
}

proof fn lemma_kept(entries: Seq<(u64, u64, u64)>, at: int)
    requires
        once(entries),
        0 <= at < entries.len(),
    ensures
        kept(entries, key_of(entries[at])),
        kept_value(entries, key_of(entries[at])) == entries[at].2,
{
    let key = key_of(entries[at]);
    assert(kept_at(entries, key, at));
    let found = choose|i: int| kept_at(entries, key, i);
    assert(kept_at(entries, key, found));
    assert(found == at);
}

proof fn lemma_pushed(before: Seq<(u64, u64, u64)>, entry: (u64, u64, u64), key: (u64, u64))
    requires
        once(before),
        !kept(before, key_of(entry)),
    ensures
        once(before.push(entry)),
        kept(before.push(entry), key) == (key == key_of(entry) || kept(before, key)),
        kept(before, key) ==> kept_value(before.push(entry), key) == kept_value(before, key),
        kept_value(before.push(entry), key_of(entry)) == entry.2,
{
    let after = before.push(entry);
    assert(once(after)) by {
        assert forall|i: int| 0 <= i < before.len() implies key_of(#[trigger] before[i]) != key_of(
            entry,
        ) by {
            assert(!kept_at(before, key_of(entry), i));
        }
    }
    lemma_kept(after, before.len() as int);
    if kept(before, key) {
        let i = choose|i: int| kept_at(before, key, i);
        assert(kept_at(before, key, i));
        assert(after[i] == before[i]);
        lemma_kept(after, i);
        lemma_kept(before, i);
    }
    if kept(after, key) && key != key_of(entry) {
        let i = choose|i: int| kept_at(after, key, i);
        assert(kept_at(after, key, i));
        assert(after[i] == before[i]);
        lemma_kept(before, i);
    }
}

impl View for Pairs {
    type V = Map<(u64, u64), u64>;

    closed spec fn view(&self) -> Map<(u64, u64), u64> {
        Map::new(
            |key: (u64, u64)| kept(self.entries@, key),
            |key: (u64, u64)| kept_value(self.entries@, key),
        )
    }
}

impl Pairs {
    /// No pair stands twice.
    pub closed spec fn wf(&self) -> bool {
        once(self.entries@)
    }

    /// Nothing.
    pub fn new() -> (pairs: Self)
        ensures
            pairs.wf(),
            pairs@ == Map::<(u64, u64), u64>::empty(),
    {
        let pairs = Pairs { entries: Vec::new() };
        assert(pairs@ =~= Map::<(u64, u64), u64>::empty());
        pairs
    }

    /// What stands under a pair, if anything does.
    pub fn get(&self, owner: u64, item: u64) -> (found: Option<u64>)
        requires
            self.wf(),
        ensures
            found == if self@.dom().contains((owner, item)) {
                Some(self@[(owner, item)])
            } else {
                None
            },
    {
        let mut at: usize = 0;
        while at < self.entries.len()
            invariant
                self.wf(),
                at <= self.entries@.len(),
                forall|i: int| 0 <= i < at ==> !kept_at(self.entries@, (owner, item), i),
            decreases self.entries@.len() - at,
        {
            if self.entries[at].0 == owner && self.entries[at].1 == item {
                proof {
                    lemma_kept(self.entries@, at as int);
                }
                return Some(self.entries[at].2);
            }
            at += 1;
        }
        None
    }

    /// Keep only the entries for which owner and item are not as given: every
    /// entry of `owner`, or just the one of `item`.
    fn discard(&mut self, owner: u64, item: Option<u64>)
        requires
            old(self).wf(),
        ensures
            final(self).wf(),
            final(self)@ == old(self)@.remove_keys(
                Set::new(|key: (u64, u64)| key.0 == owner && (item is None || item == Some(key.1))),
            ),
    {
        let ghost before = self.entries@;
        let ghost gone = |key: (u64, u64)| key.0 == owner && (item is None || item == Some(key.1));
        let mut kept_entries: Vec<(u64, u64, u64)> = Vec::new();
        let mut at: usize = 0;
        while at < self.entries.len()
            invariant
                at <= self.entries@.len(),
                self.entries@ == before,
                once(before),
                gone == (|key: (u64, u64)|
                    key.0 == owner && (item is None || item == Some(key.1))),
                once(kept_entries@),
                forall|key: (u64, u64)| #[trigger]
                    kept(kept_entries@, key) <==> !gone(key) && kept(before.take(at as int), key),
                forall|key: (u64, u64)| #[trigger]
                    kept(kept_entries@, key) ==> kept_value(kept_entries@, key) == kept_value(
                        before,
                        key,
                    ),
            decreases self.entries@.len() - at,
        {
            let entry: (u64, u64, u64) = self.entries[at];
            let goes: bool = entry.0 == owner && match item {
                None => true,
                Some(item) => entry.1 == item,
            };
            let ghost key = key_of(entry);
            let ghost so_far = kept_entries@;
            proof {
                assert(before.take(at + 1) =~= before.take(at as int).push(entry));
                assert(once(before.take(at as int)));
                assert(!kept(before.take(at as int), key)) by {
                    if kept(before.take(at as int), key) {
                        let i = choose|i: int| kept_at(before.take(at as int), key, i);
                        assert(kept_at(before.take(at as int), key, i));
                        assert(before[i] == before.take(at as int)[i]);
                    }
                }
                assert forall|k: (u64, u64)| #[trigger]
                    kept(before.take(at + 1), k) == (k == key || kept(
                        before.take(at as int),
                        k,
                    )) by {
                    lemma_pushed(before.take(at as int), entry, k);
                }
                lemma_kept(before, at as int);
            }
            if !goes {
                kept_entries.push(entry);
                proof {
                    lemma_pushed(so_far, entry, key);
                }
            }
            proof {
                assert(gone(key) == goes);
                assert forall|k: (u64, u64)| #[trigger]
                    kept(kept_entries@, k) <==> !gone(k) && kept(before.take(at + 1), k) by {
                    assert(kept(before.take(at + 1), k) == (k == key || kept(
                        before.take(at as int),
                        k,
                    )));
                    if !goes {
                        lemma_pushed(so_far, entry, k);
                    }
                }
                assert forall|k: (u64, u64)| #[trigger] kept(kept_entries@, k) implies kept_value(
                    kept_entries@,
                    k,
                ) == kept_value(before, k) by {
                    if !goes {
                        lemma_pushed(so_far, entry, k);
                        if k != key {
                            assert(kept(so_far, k));
                        }
                    }
                }
            }
            at += 1;
        }
        self.entries = kept_entries;
        proof {
            assert(before.take(at as int) =~= before);
            assert(self@ =~= old(self)@.remove_keys(Set::new(gone)));
        }
    }

    /// Put `value` under a pair, in place of whatever stood there.
    pub fn set(&mut self, owner: u64, item: u64, value: u64)
        requires
            old(self).wf(),
        ensures
            final(self).wf(),
            final(self)@ == old(self)@.insert((owner, item), value),
    {
        self.remove(owner, item);
        let ghost without = self@;
        let ghost before = self.entries@;
        let ghost entry = (owner, item, value);
        assert(!without.dom().contains((owner, item)));
        assert(forall|k: (u64, u64)| #[trigger] without.dom().contains(k) == kept(before, k));
        assert(forall|k: (u64, u64)| #[trigger]
            without.dom().contains(k) ==> without[k] == kept_value(before, k));
        self.entries.push((owner, item, value));
        proof {
            assert forall|k: (u64, u64)| #![auto]
                kept(self.entries@, k) == (k == (owner, item) || kept(before, k)) && (kept(before, k)
                    ==> kept_value(self.entries@, k) == kept_value(before, k)) by {
                lemma_pushed(before, entry, k);
            }
            lemma_pushed(before, entry, (owner, item));
            assert(self@ =~= without.insert((owner, item), value));
            assert(self@ =~= old(self)@.insert((owner, item), value));
        }
    }

    /// Take away what stands under a pair.
    pub fn remove(&mut self, owner: u64, item: u64)
        requires
            old(self).wf(),
        ensures
            final(self).wf(),
            final(self)@ == old(self)@.remove((owner, item)),
    {
        self.discard(owner, Some(item));
        assert(self@ =~= old(self)@.remove((owner, item)));
    }

    /// Take away everything of an owner.
    pub fn forget(&mut self, owner: u64)
        requires
            old(self).wf(),
        ensures
            final(self).wf(),
            final(self)@ == old(self)@.remove_keys(Set::new(|key: (u64, u64)| key.0 == owner)),
    {
        self.discard(owner, None);
        assert(self@ =~= old(self)@.remove_keys(Set::new(|key: (u64, u64)| key.0 == owner)));
    }

    /// How many pairs have a value.
    pub fn len(&self) -> (count: usize)
        requires
            self.wf(),
        ensures
            count == self@.dom().len(),
            self@.dom().finite(),
    {
        proof {
            let keys = self.entries@.map_values(|entry: (u64, u64, u64)| key_of(entry));
            assert(keys.no_duplicates());
            keys.unique_seq_to_set();
            assert(self@.dom() =~= keys.to_set()) by {
                assert forall|key: (u64, u64)| self@.dom().contains(key)
                    == #[trigger] keys.to_set().contains(key) by {
                    if kept(self.entries@, key) {
                        let i = choose|i: int| kept_at(self.entries@, key, i);
                        assert(kept_at(self.entries@, key, i));
                        assert(keys[i] == key);
                    }
                    if keys.to_set().contains(key) {
                        let i = choose|i: int| 0 <= i < keys.len() && keys[i] == key;
                        assert(kept_at(self.entries@, key, i));
                    }
                }
            }
        }
        self.entries.len()
    }
}

} // verus!
