//! A table from text keys to values, kept in the order in which the keys
//! came and viewed as a finite map.
//!
//! It is a plain vector of slots and no hash map. The stores are walked
//! when they are written out and change a value where it stands, which the
//! string-keyed hash map of vstd does not offer, and a vector needs no
//! assumption about how a `String` is hashed.

use vstd::prelude::*;

verus! {

/// One key of a table with its value.
pub struct Slot<V> {
    pub key: String,
    pub val: V,
}

/// A table from text keys to values. No key stands in it twice.
pub struct Table<V> {
    slots: Vec<Slot<V>>,
}

impl<V> Table<V> {
    /// The keys and values as they are stored, in order of arrival.
    pub closed spec fn slots(&self) -> Seq<Slot<V>> {
        self.slots@
    }

    /// How many keys the table holds.
    pub open spec fn spec_len(&self) -> nat {
        self.slots().len()
    }

    /// The key at position `i`.
    pub open spec fn key_at(&self, i: int) -> Seq<char> {
        self.slots()[i].key@
    }

    /// The value at position `i`.
    pub open spec fn val_at(&self, i: int) -> V {
        self.slots()[i].val
    }

    /// Whether `i` is a position of the table that holds `key`.
    pub open spec fn holds(&self, i: int, key: Seq<char>) -> bool {
        0 <= i < self.spec_len() && self.key_at(i) == key
    }

    /// A position that holds `key`, if there is one.
    pub open spec fn position(&self, key: Seq<char>) -> int {
        choose|i: int| self.holds(i, key)
    }

    /// No key stands at two positions.
    pub open spec fn wf(&self) -> bool {
        forall|i: int, j: int|
            0 <= i < self.spec_len() && 0 <= j < self.spec_len() && #[trigger] self.key_at(i)
                == #[trigger] self.key_at(j) ==> i == j
    }

    /// The table as a map from each key to its value.
    pub open spec fn view(&self) -> Map<Seq<char>, V> {
        Map::new(
            |key: Seq<char>| exists|i: int| self.holds(i, key),
            |key: Seq<char>| self.val_at(self.position(key)),
        )
    }

    /// In a well-formed table the map gives, for the key at a position, the
    /// value at that position.
    pub proof fn lemma_lookup(&self, i: int)
        requires
            self.wf(),
            0 <= i < self.spec_len(),
        ensures
            self@.contains_key(self.key_at(i)),
            self@[self.key_at(i)] == self.val_at(i),
            self.position(self.key_at(i)) == i,
    {
        assert(self.holds(i, self.key_at(i)));
    }

    /// A key of the map stands at its position.
    pub proof fn lemma_position(&self, key: Seq<char>)
        requires
            self@.contains_key(key),
        ensures
            self.holds(self.position(key), key),
    {
    }

    /// The keys in the order in which they stand in the table.
    pub open spec fn keys(&self) -> Seq<Seq<char>> {
        Seq::new(self.spec_len(), |i: int| self.key_at(i))
    }

    /// The keys of a well-formed table are those of its map, each once.
    pub proof fn lemma_keys(&self)
        requires
            self.wf(),
        ensures
            self.keys().no_duplicates(),
            forall|key: Seq<char>| self@.contains_key(key) <==> self.keys().contains(key),
            forall|i: int|
                0 <= i < self.spec_len() ==> self@.contains_key(#[trigger] self.keys()[i])
                    && self@[self.keys()[i]] == self.val_at(i),
    {
        let keys = self.keys();
        assert forall|i: int, j: int| 0 <= i < keys.len() && 0 <= j < keys.len() && i != j implies keys[i]
            != keys[j] by {
            assert(self.key_at(i) == keys[i] && self.key_at(j) == keys[j]);
        }
        assert forall|key: Seq<char>| self@.contains_key(key) <==> keys.contains(key) by {
            if self@.contains_key(key) {
                let i = self.position(key);
                assert(keys[i] == key);
            }
            if keys.contains(key) {
                let i = choose|i: int| 0 <= i < keys.len() && keys[i] == key;
                assert(self.holds(i, key));
            }
        }
        assert forall|i: int| 0 <= i < self.spec_len() implies self@.contains_key(
            #[trigger] self.keys()[i],
        ) && self@[self.keys()[i]] == self.val_at(i) by {
            self.lemma_lookup(i);
        }
    }

    /// An empty table.
    pub fn new() -> (table: Self)
        ensures
            table.wf(),
            table.spec_len() == 0,
            table@ == Map::<Seq<char>, V>::empty(),
    {
        let table = Table { slots: Vec::new() };
        assert(table@ =~= Map::<Seq<char>, V>::empty());
        table
    }

    /// How many keys the table holds.
    pub fn len(&self) -> (n: usize)
        ensures
            n == self.spec_len(),
    {
        self.slots.len()
    }

    /// The position of `key`.
    pub fn find(&self, key: &str) -> (found: Option<usize>)
        requires
            self.wf(),
        ensures
            found is Some <==> self@.contains_key(key@),
            found is Some ==> self.holds(found->0 as int, key@) && self@[key@] == self.val_at(
                found->0 as int,
            ),
    {
        let wanted = key.to_owned();
        let mut i: usize = 0;
        while i < self.slots.len()
            invariant
                self.wf(),
                i <= self.spec_len(),
                wanted@ == key@,
                forall|j: int| 0 <= j < i ==> !self.holds(j, key@),
            decreases self.spec_len() - i,
        {
            if self.slots[i].key == wanted {
                proof {
                    self.lemma_lookup(i as int);
                }
                return Some(i);
            }
            i += 1;
        }
        None
    }

    /// The key and value at position `i`.
    pub fn slot(&self, i: usize) -> (slot: &Slot<V>)
        requires
            i < self.spec_len(),
        ensures
            *slot == self.slots()[i as int],
    {
        &self.slots[i]
    }

    /// The value at position `i`, to be changed in place.
    pub fn value_mut(&mut self, i: usize) -> (val: &mut V)
        requires
            old(self).wf(),
            i < old(self).spec_len(),
        ensures
            *val == old(self).val_at(i as int),
            final(self).wf(),
            final(self).spec_len() == old(self).spec_len(),
            forall|j: int|
                0 <= j < old(self).spec_len() ==> #[trigger] final(self).key_at(j) == old(
                    self,
                ).key_at(j),
            forall|j: int|
                0 <= j < old(self).spec_len() && j != i ==> #[trigger] final(self).val_at(j)
                    == old(self).val_at(j),
            final(self).val_at(i as int) == *final(val),
            final(self)@ == old(self)@.insert(old(self).key_at(i as int), *final(val)),
    {
        proof {
            let before = *self;
            assert forall|after: Self| before.differs_at(after, i as int) implies #[trigger] after.wf()
                && after@ == before@.insert(before.key_at(i as int), after.val_at(i as int)) by {
                Self::lemma_update(before, after, i as int);
            }
        }
        &mut self.slots[i].val
    }

    /// Whether `after` is this table with, at most, another value at
    /// position `i`.
    pub open spec fn differs_at(&self, after: Self, i: int) -> bool {
        &&& after.spec_len() == self.spec_len()
        &&& forall|j: int| 0 <= j < self.spec_len() ==> after.key_at(j) == self.key_at(j)
        &&& forall|j: int| 0 <= j < self.spec_len() && j != i ==> after.val_at(j) == self.val_at(j)
    }

    /// A table that differs from `before` only in the value at position `i`
    /// is well formed, and its map is that of `before` with the new value
    /// for the key of that position.
    pub proof fn lemma_update(before: Self, after: Self, i: int)
        requires
            before.wf(),
            0 <= i < before.spec_len(),
            before.differs_at(after, i),
        ensures
            after.wf(),
            after@ == before@.insert(before.key_at(i), after.val_at(i)),
    {
        let val = after.val_at(i);
        assert forall|a: int, b: int|
            0 <= a < after.spec_len() && 0 <= b < after.spec_len() && #[trigger] after.key_at(a)
                == #[trigger] after.key_at(b) implies a == b by {
            assert(before.key_at(a) == before.key_at(b));
        }
        assert forall|key: Seq<char>| #[trigger]
            after@.contains_key(key) <==> before@.insert(before.key_at(i), val).contains_key(
                key,
            ) by {
            if after@.contains_key(key) {
                let j = after.position(key);
                assert(before.holds(j, key));
            }
            if before@.contains_key(key) {
                let j = before.position(key);
                assert(after.holds(j, key));
            }
            if key == before.key_at(i) {
                assert(after.holds(i, key));
            }
        }
        assert forall|key: Seq<char>| #[trigger] after@.contains_key(key) implies after@[key]
            == before@.insert(before.key_at(i), val)[key] by {
            let j = after.position(key);
            after.lemma_lookup(j);
            before.lemma_lookup(j);
        }
        assert(after@ =~= before@.insert(before.key_at(i), val));
    }

    /// Adds a key that the table does not hold yet.
    pub fn insert_new(&mut self, key: String, val: V)
        requires
            old(self).wf(),
            !old(self)@.contains_key(key@),
        ensures
            final(self).wf(),
            final(self).slots() == old(self).slots().push(Slot { key, val }),
            final(self)@ == old(self)@.insert(key@, val),
    {
        let ghost before = *self;
        self.slots.push(Slot { key, val });
        proof {
            let n = before.spec_len() as int;
            assert forall|a: int, b: int|
                0 <= a < self.spec_len() && 0 <= b < self.spec_len() && #[trigger] self.key_at(a)
                    == #[trigger] self.key_at(b) implies a == b by {
                if a < n && b < n {
                    assert(before.key_at(a) == before.key_at(b));
                } else if a < n {
                    assert(before.holds(a, key@));
                } else if b < n {
                    assert(before.holds(b, key@));
                }
            }
            assert forall|k: Seq<char>| #[trigger]
                self@.contains_key(k) <==> before@.insert(key@, val).contains_key(k) by {
                if self@.contains_key(k) {
                    let j = self.position(k);
                    if j < n {
                        assert(before.holds(j, k));
                    }
                }
                if before@.contains_key(k) {
                    let j = before.position(k);
                    assert(self.holds(j, k));
                }
                if k == key@ {
                    assert(self.holds(n, k));
                }
            }
            assert forall|k: Seq<char>| #[trigger] self@.contains_key(k) implies self@[k]
                == before@.insert(key@, val)[k] by {
                let j = self.position(k);
                self.lemma_lookup(j);
                if j < n {
                    assert(before.key_at(j) == k);
                    before.lemma_lookup(j);
                }
            }
            assert(self@ =~= before@.insert(key@, val));
        }
    }

    /// Takes the key at position `i` out of the table, with its value.
    pub fn remove_at(&mut self, i: usize) -> (slot: Slot<V>)
        requires
            old(self).wf(),
            i < old(self).spec_len(),
        ensures
            final(self).wf(),
            slot == old(self).slots()[i as int],
            final(self).slots() == old(self).slots().remove(i as int),
            final(self)@ == old(self)@.remove(old(self).key_at(i as int)),
    {
        let ghost before = *self;
        let slot = self.slots.remove(i);
        proof {
            let gone = before.key_at(i as int);
            assert forall|j: int| 0 <= j < self.spec_len() implies #[trigger] self.key_at(j) == (
            if j < i {
                before.key_at(j)
            } else {
                before.key_at(j + 1)
            }) by {}
            assert forall|a: int, b: int|
                0 <= a < self.spec_len() && 0 <= b < self.spec_len() && #[trigger] self.key_at(a)
                    == #[trigger] self.key_at(b) implies a == b by {
                let a0 = if a < i { a } else { a + 1 };
                let b0 = if b < i { b } else { b + 1 };
                assert(before.key_at(a0) == before.key_at(b0));
            }
            assert forall|k: Seq<char>| #[trigger]
                self@.contains_key(k) <==> before@.remove(gone).contains_key(k) by {
                if self@.contains_key(k) {
                    let j = self.position(k);
                    let j0 = if j < i { j } else { j + 1 };
                    assert(before.holds(j0, k));
                    assert(before.key_at(j0) == before.key_at(i as int) ==> j0 == i);
                }
                if before@.contains_key(k) && k != gone {
                    let j = before.position(k);
                    let j1 = if j < i { j } else { j - 1 };
                    assert(self.holds(j1, k));
                }
            }
            assert forall|k: Seq<char>| #[trigger] self@.contains_key(k) implies self@[k]
                == before@.remove(gone)[k] by {
                let j = self.position(k);
                let j0 = if j < i { j } else { j + 1 };
                self.lemma_lookup(j);
                assert(before.key_at(j0) == k);
                before.lemma_lookup(j0);
            }
            assert(self@ =~= before@.remove(gone));
        }
        slot
    }
}

} // verus!
