//! A table keyed by text.

use crate::text;
use vstd::prelude::*;

verus! {

/// A table from texts to values. No key occurs twice; entries keep the order in which
/// their keys first came.
#[derive(Debug)]
pub struct Table<V> {
    entries: Vec<(String, V)>,
}

/// Whether no key occurs twice.
pub open spec fn distinct<V>(s: Seq<(String, V)>) -> bool {
    forall|i: int, j: int| 0 <= i < j < s.len() ==> (#[trigger] s[i]).0@ != (#[trigger] s[j]).0@
}

/// Whether `key` is the key of an entry.
pub open spec fn has_key<V>(s: Seq<(String, V)>, key: Seq<char>) -> bool {
    exists|i: int| 0 <= i < s.len() && (#[trigger] s[i]).0@ == key
}

/// What a list of entries maps each key to; a later entry takes the place of an earlier
/// one.
pub open spec fn as_map<V>(s: Seq<(String, V)>) -> Map<Seq<char>, V>
    decreases s.len(),
{
    if s.len() == 0 {
        Map::empty()
    } else {
        as_map(s.drop_last()).insert(s.last().0@, s.last().1)
    }
}

/// The keys of the map are the keys of the entries, and each entry without a later one
/// of its key is what its key maps to.
pub proof fn as_map_entries<V>(s: Seq<(String, V)>)
    ensures
        forall|key: Seq<char>| #[trigger] as_map(s).contains_key(key) <==> has_key(s, key),
        distinct(s) ==> forall|i: int|
            0 <= i < s.len() ==> as_map(s).contains_key((#[trigger] s[i]).0@) && as_map(s)[s[i].0@]
                == s[i].1,
    decreases s.len(),
{
    if s.len() > 0 {
        let t = s.drop_last();
        as_map_entries(t);
        assert forall|key: Seq<char>| #[trigger] as_map(s).contains_key(key) <==> has_key(s, key) by {
            assert(as_map(t).contains_key(key) <==> has_key(t, key));
            assert(as_map(s).contains_key(key) <==> key == s.last().0@ || as_map(t).contains_key(
                key,
            ));
            if has_key(s, key) {
                let i = choose|i: int| 0 <= i < s.len() && (#[trigger] s[i]).0@ == key;
                if i < t.len() {
                    assert(t[i] == s[i]);
                    assert(has_key(t, key));
                }
            }
            if has_key(t, key) {
                let i = choose|i: int| 0 <= i < t.len() && (#[trigger] t[i]).0@ == key;
                assert(s[i] == t[i]);
            }
            if key == s.last().0@ {
                assert(s[s.len() - 1].0@ == key);
            }
        }
        if distinct(s) {
            assert(distinct(t)) by {
                assert forall|i: int, j: int| 0 <= i < j < t.len() implies (#[trigger] t[i]).0@ != (
                #[trigger] t[j]).0@ by {
                    assert(t[i] == s[i] && t[j] == s[j]);
                }
            }
            assert forall|i: int| 0 <= i < s.len() implies as_map(s).contains_key(
                (#[trigger] s[i]).0@,
            ) && as_map(s)[s[i].0@] == s[i].1 by {
                if i < t.len() {
                    assert(t[i] == s[i]);
                    assert(s[i].0@ != s[s.len() - 1].0@);
                }
            }
        }
    }
}

/// A list of entries without a repeated key has as many entries as its map has keys.
pub proof fn as_map_len<V>(s: Seq<(String, V)>)
    requires
        distinct(s),
    ensures
        as_map(s).dom().finite(),
        as_map(s).dom().len() == s.len(),
    decreases s.len(),
{
    if s.len() == 0 {
        assert(as_map(s).dom() =~= Set::empty());
    } else {
        let t = s.drop_last();
        assert(distinct(t)) by {
            assert forall|i: int, j: int| 0 <= i < j < t.len() implies (#[trigger] t[i]).0@ != (
            #[trigger] t[j]).0@ by {
                assert(t[i] == s[i] && t[j] == s[j]);
            }
        }
        as_map_len(t);
        as_map_entries(t);
        assert(!has_key(t, s.last().0@)) by {
            if has_key(t, s.last().0@) {
                let i = choose|i: int| 0 <= i < t.len() && (#[trigger] t[i]).0@ == s.last().0@;
                assert(t[i] == s[i]);
                assert(s[i].0@ != s[s.len() - 1].0@);
            }
        }
        assert(as_map(s).dom() =~= as_map(t).dom().insert(s.last().0@));
    }
}

impl<V> View for Table<V> {
    type V = Map<Seq<char>, V>;

    closed spec fn view(&self) -> Map<Seq<char>, V> {
        as_map(self.entries@)
    }
}

impl<V> Table<V> {
    #[verifier::type_invariant]
    spec fn inv(self) -> bool {
        distinct(self.entries@)
    }

    /// The empty table.
    pub fn new() -> (r: Table<V>)
        ensures
            r@ == Map::<Seq<char>, V>::empty(),
    {
        Table { entries: Vec::new() }
    }

    /// The entries, in order.
    pub fn entries(&self) -> (r: &Vec<(String, V)>)
        ensures
            distinct(r@),
            as_map(r@) == self@,
    {
        proof {
            use_type_invariant(&*self);
        }
        &self.entries
    }

    /// How many keys there are.
    pub fn len(&self) -> (r: usize)
        ensures
            self@.dom().finite(),
            r == self@.dom().len(),
    {
        proof {
            use_type_invariant(&*self);
            as_map_len(self.entries@);
        }
        self.entries.len()
    }

    fn position(&self, key: &str) -> (r: Option<usize>)
        ensures
            match r {
                Some(i) => i < self.entries@.len() && self.entries@[i as int].0@ == key@,
                None => !has_key(self.entries@, key@),
            },
    {
        let mut i: usize = 0;
        while i < self.entries.len()
            invariant
                i <= self.entries@.len(),
                forall|j: int| 0 <= j < i ==> (#[trigger] self.entries@[j]).0@ != key@,
            decreases self.entries@.len() - i,
        {
            if text::same_text(self.entries[i].0.as_str(), key) {
                return Some(i);
            }
            i += 1;
        }
        None
    }

    /// What `key` maps to.
    pub fn get(&self, key: &str) -> (r: Option<&V>)
        ensures
            r == (if self@.contains_key(key@) {
                Some(&self@[key@])
            } else {
                None
            }),
    {
        proof {
            use_type_invariant(&*self);
            as_map_entries(self.entries@);
        }
        match self.position(key) {
            Some(i) => {
                assert(self.entries@[i as int].0@ == key@);
                Some(&self.entries[i].1)
            },
            None => None,
        }
    }

    /// Map `key` to `value`, in place of what it mapped to.
    pub fn insert(&mut self, key: String, value: V)
        ensures
            final(self)@ == old(self)@.insert(key@, value),
    {
        proof {
            use_type_invariant(&*self);
            as_map_entries(self.entries@);
        }
        let at = self.position(key.as_str());
        let mut entries: Vec<(String, V)> = Vec::new();
        std::mem::swap(&mut entries, &mut self.entries);
        let ghost before = entries@;
        match at {
            Some(i) => {
                entries.set(i, (key, value));
                proof {
                    let after = entries@;
                    assert(distinct(after)) by {
                        assert forall|a: int, b: int| 0 <= a < b < after.len() implies (
                        #[trigger] after[a]).0@ != (#[trigger] after[b]).0@ by {
                            assert(before[a].0@ != before[b].0@);
                        }
                    }
                    as_map_entries(after);
                    assert(as_map(after) =~= as_map(before).insert(key@, value)) by {
                        assert forall|k: Seq<char>| as_map(after).contains_key(k) <==> as_map(
                            before,
                        ).insert(key@, value).contains_key(k) by {
                            if has_key(after, k) {
                                let j = choose|j: int|
                                    0 <= j < after.len() && (#[trigger] after[j]).0@ == k;
                                assert(before[j].0@ == k);
                            }
                            if has_key(before, k) {
                                let j = choose|j: int|
                                    0 <= j < before.len() && (#[trigger] before[j]).0@ == k;
                                assert(after[j].0@ == k);
                            }
                            if k == key@ {
                                assert(after[i as int].0@ == k);
                            }
                        }
                        assert forall|k: Seq<char>| as_map(after).contains_key(k) implies as_map(
                            after,
                        )[k] == as_map(before).insert(key@, value)[k] by {
                            let j = choose|j: int|
                                0 <= j < after.len() && (#[trigger] after[j]).0@ == k;
                            assert(after[j].0@ == k);
                            assert(before[j].0@ == k);
                            if j != i {
                                assert(after[i as int].0@ != k);
                            }
                        }
                    }
                }
            },
            None => {
                entries.push((key, value));
                proof {
                    let after = entries@;
                    assert(after.drop_last() =~= before);
                    assert(distinct(after)) by {
                        assert forall|a: int, b: int| 0 <= a < b < after.len() implies (
                        #[trigger] after[a]).0@ != (#[trigger] after[b]).0@ by {
                            if b < before.len() {
                                assert(before[a].0@ != before[b].0@);
                            } else {
                                assert(before[a].0@ != key@);
                            }
                        }
                    }
                }
            },
        }
        self.entries = entries;
    }

    /// Remove `key`; whether it was there.
    pub fn remove(&mut self, key: &str) -> (r: bool)
        ensures
            r == old(self)@.contains_key(key@),
            final(self)@ == old(self)@.remove(key@),
    {
        proof {
            use_type_invariant(&*self);
            as_map_entries(self.entries@);
        }
        let at = self.position(key);
        match at {
            Some(i) => {
                let mut entries: Vec<(String, V)> = Vec::new();
                std::mem::swap(&mut entries, &mut self.entries);
                let ghost before = entries@;
                assert(before[i as int].0@ == key@);
                entries.remove(i);
                proof {
                    let after = entries@;
                    assert(after =~= before.remove(i as int));
                    assert forall|a: int, b: int| 0 <= a < b < after.len() implies (
                    #[trigger] after[a]).0@ != (#[trigger] after[b]).0@ by {
                        let x = if a < i {
                            a
                        } else {
                            a + 1
                        };
                        let y = if b < i {
                            b
                        } else {
                            b + 1
                        };
                        assert(after[a] == before[x] && after[b] == before[y]);
                    }
                    as_map_entries(after);
                    assert(as_map(after) =~= as_map(before).remove(key@)) by {
                        assert forall|k: Seq<char>| as_map(after).contains_key(k) <==> as_map(
                            before,
                        ).remove(key@).contains_key(k) by {
                            if has_key(after, k) {
                                let j = choose|j: int|
                                    0 <= j < after.len() && (#[trigger] after[j]).0@ == k;
                                let x = if j < i {
                                    j
                                } else {
                                    j + 1
                                };
                                assert(before[x] == after[j]);
                                assert(before[x].0@ != before[i as int].0@);
                            }
                            if has_key(before, k) && k != key@ {
                                let j = choose|j: int|
                                    0 <= j < before.len() && (#[trigger] before[j]).0@ == k;
                                let x = if j < i {
                                    j
                                } else {
                                    j - 1
                                };
                                assert(after[x] == before[j]);
                            }
                        }
                        assert forall|k: Seq<char>| as_map(after).contains_key(k) implies as_map(
                            after,
                        )[k] == as_map(before).remove(key@)[k] by {
                            let j = choose|j: int|
                                0 <= j < after.len() && (#[trigger] after[j]).0@ == k;
                            let x = if j < i {
                                j
                            } else {
                                j + 1
                            };
                            assert(before[x] == after[j]);
                        }
                    }
                }
                self.entries = entries;
                true
            },
            None => {
                assert(self@.remove(key@) =~= self@);
                false
            },
        }
    }
}

} // verus!
