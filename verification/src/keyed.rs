//! A small map from text keys to values that remembers the order in which
//! its keys were first inserted. No key occurs twice.
//!
//! The policies walk their maps: detectors go through the cgroups of a
//! snapshot, the registry lists its plugins. The order of such a walk
//! decides what is reported and what is killed first, so it is the order of
//! insertion here, the same in every run, and every operation says what it
//! does to that order. A map that is never walked, the field cache, is a
//! hash map instead.

use crate::text::{chars_of, same_text};
use vstd::prelude::*;

verus! {

/// The index of the first of `keys` that equals `key`, or the number of
/// keys where none does.
pub open spec fn key_position(keys: Seq<Seq<char>>, key: Seq<char>) -> int
    decreases keys.len(),
{
    if keys.len() == 0 || keys[0] == key {
        0
    } else {
        1 + key_position(keys.skip(1), key)
    }
}

/// No key occurs twice.
pub open spec fn distinct_keys(keys: Seq<Seq<char>>) -> bool {
    forall|i: int, j: int| 0 <= i < j < keys.len() ==> keys[i] != keys[j]
}

/// The texts of a list of strings.
pub open spec fn key_texts(keys: Seq<String>) -> Seq<Seq<char>> {
    Seq::new(keys.len(), |i: int| keys[i]@)
}

/// No key before the position of `key` equals it, and the key at that
/// position does, where there is one.
pub proof fn lemma_key_position(keys: Seq<Seq<char>>, key: Seq<char>)
    ensures
        0 <= key_position(keys, key) <= keys.len(),
        forall|k: int| 0 <= k < key_position(keys, key) ==> #[trigger] keys[k] != key,
        key_position(keys, key) < keys.len() ==> keys[key_position(keys, key)] == key,
    decreases keys.len(),
{
    if keys.len() == 0 || keys[0] == key {
    } else {
        lemma_key_position(keys.skip(1), key);
        assert forall|k: int| 0 <= k < key_position(keys, key) implies #[trigger] keys[k]
            != key by {
            if k > 0 {
                assert(keys[k] == keys.skip(1)[k - 1]);
            }
        }
        if key_position(keys, key) < keys.len() {
            assert(keys[key_position(keys, key)] == keys.skip(1)[key_position(
                keys.skip(1),
                key,
            )]);
        }
    }
}

/// Where no key before `n` equals `key` and the one at `n` does (or the keys
/// end there), `n` is the position of `key`.
pub proof fn lemma_key_position_is(keys: Seq<Seq<char>>, key: Seq<char>, n: int)
    requires
        0 <= n <= keys.len(),
        forall|k: int| 0 <= k < n ==> #[trigger] keys[k] != key,
        n < keys.len() ==> keys[n] == key,
    ensures
        key_position(keys, key) == n,
    decreases keys.len(),
{
    if keys.len() == 0 || keys[0] == key {
        if n > 0 {
            assert(keys[0] != key);
        }
    } else {
        assert forall|k: int| 0 <= k < n - 1 implies #[trigger] keys.skip(1)[k] != key by {
            assert(keys.skip(1)[k] == keys[k + 1]);
        }
        lemma_key_position_is(keys.skip(1), key, n - 1);
    }
}

/// The position of a key after another key was appended.
pub proof fn lemma_key_position_push(keys: Seq<Seq<char>>, added: Seq<char>, key: Seq<char>)
    ensures
        key_position(keys.push(added), key) == if key_position(keys, key) < keys.len() {
            key_position(keys, key)
        } else if added == key {
            keys.len() as int
        } else {
            keys.len() as int + 1
        },
    decreases keys.len(),
{
    let pushed = keys.push(added);
    assert(pushed.len() == keys.len() + 1);
    if keys.len() == 0 {
        assert(pushed.skip(1) =~= Seq::<Seq<char>>::empty());
        assert(pushed[0] == added);
        assert(key_position(pushed.skip(1), key) == 0);
    } else if keys[0] == key {
        assert(pushed[0] == key);
    } else {
        lemma_key_position_push(keys.skip(1), added, key);
        lemma_key_position(keys.skip(1), key);
        assert(pushed.skip(1) =~= keys.skip(1).push(added));
        assert(pushed[0] == keys[0]);
    }
}

/// The position of a key after the key at `at` was taken out.
pub proof fn lemma_key_position_remove(keys: Seq<Seq<char>>, at: int, key: Seq<char>)
    requires
        0 <= at < keys.len(),
        distinct_keys(keys),
        keys[at] != key,
    ensures
        key_position(keys, key) < at ==> key_position(keys.remove(at), key) == key_position(
            keys,
            key,
        ),
        key_position(keys, key) > at ==> key_position(keys.remove(at), key) == key_position(
            keys,
            key,
        ) - 1,
        key_position(keys, key) != at,
{
    lemma_key_position(keys, key);
    let p = key_position(keys, key);
    let removed = keys.remove(at);
    if p < at {
        assert forall|k: int| 0 <= k < p implies #[trigger] removed[k] != key by {
            assert(removed[k] == keys[k]);
        }
        assert(removed[p] == keys[p]);
        lemma_key_position_is(removed, key, p);
    } else {
        assert forall|k: int| 0 <= k < p - 1 implies #[trigger] removed[k] != key by {
            if k < at {
                assert(removed[k] == keys[k]);
            } else {
                assert(removed[k] == keys[k + 1]);
            }
        }
        if p < keys.len() {
            assert(removed[p - 1] == keys[p]);
        }
        lemma_key_position_is(removed, key, p - 1);
    }
}

/// What a list of keys and values holds under `key`.
pub open spec fn value_under<V>(keys: Seq<Seq<char>>, values: Seq<V>, key: Seq<char>) -> Option<
    V,
> {
    let i = key_position(keys, key);
    if 0 <= i < keys.len() && i < values.len() {
        Some(values[i])
    } else {
        None
    }
}

/// Values by text key, in the order in which the keys were first inserted.
#[derive(Debug)]
pub struct KeyedList<V> {
    names: Vec<String>,
    items: Vec<V>,
}

impl<V> KeyedList<V> {
    #[verifier::type_invariant]
    spec fn well_formed(self) -> bool {
        self.names@.len() <= self.items@.len() && distinct_keys(key_texts(self.names@))
    }

    /// The keys, in the order in which they were first inserted.
    pub closed spec fn keys(self) -> Seq<Seq<char>> {
        key_texts(self.names@)
    }

    /// The values, in the order of `keys`.
    pub closed spec fn values(self) -> Seq<V> {
        self.items@.take(self.names@.len() as int)
    }

    /// The value under `key`, if there is one.
    pub open spec fn lookup(self, key: Seq<char>) -> Option<V> {
        value_under(self.keys(), self.values(), key)
    }

    /// Whether there is a value under `key`.
    pub open spec fn has(self, key: Seq<char>) -> bool {
        key_position(self.keys(), key) < self.keys().len()
    }

    /// The empty list.
    pub fn new() -> (r: KeyedList<V>)
        ensures
            r.keys() == Seq::<Seq<char>>::empty(),
            r.values() == Seq::<V>::empty(),
    {
        let r = KeyedList { names: Vec::new(), items: Vec::new() };
        assert(r.keys() =~= Seq::<Seq<char>>::empty());
        assert(r.values() =~= Seq::<V>::empty());
        r
    }

    /// The number of keys, which is the number of values; no key occurs twice.
    pub fn len(&self) -> (r: usize)
        ensures
            r == self.keys().len(),
            r == self.values().len(),
            distinct_keys(self.keys()),
    {
        proof {
            use_type_invariant(self);
        }
        self.names.len()
    }

    /// The key at `index`.
    pub fn key_at(&self, index: usize) -> (r: &String)
        requires
            index < self.keys().len(),
        ensures
            r@ == self.keys()[index as int],
    {
        &self.names[index]
    }

    /// The value at `index`.
    pub fn value_at(&self, index: usize) -> (r: &V)
        requires
            index < self.values().len(),
        ensures
            *r == self.values()[index as int],
    {
        proof {
            use_type_invariant(self);
        }
        &self.items[index]
    }

    /// The index of `key`.
    pub fn position(&self, key: &str) -> (r: Option<usize>)
        ensures
            self.keys().len() == self.values().len(),
            match r {
                Some(i) => i == key_position(self.keys(), key@) && i < self.keys().len()
                    && self.keys()[i as int] == key@,
                None => key_position(self.keys(), key@) == self.keys().len(),
            },
    {
        proof {
            use_type_invariant(self);
        }
        let wanted = chars_of(key);
        let mut i: usize = 0;
        while i < self.names.len()
            invariant
                i <= self.names.len(),
                self.names@.len() <= self.items@.len(),
                wanted@ == key@,
                forall|k: int| 0 <= k < i ==> #[trigger] self.keys()[k] != key@,
            decreases self.names.len() - i,
        {
            let name = chars_of(self.names[i].as_str());
            if same_text(&name, &wanted) {
                proof {
                    lemma_key_position_is(self.keys(), key@, i as int);
                }
                return Some(i);
            }
            i += 1;
        }
        proof {
            lemma_key_position_is(self.keys(), key@, i as int);
        }
        None
    }

    /// Whether there is a value under `key`.
    pub fn contains_key(&self, key: &str) -> (r: bool)
        ensures
            r == self.has(key@),
            r == (self.lookup(key@) is Some),
    {
        self.position(key).is_some()
    }

    /// The value under `key`, if there is one.
    pub fn get(&self, key: &str) -> (r: Option<&V>)
        ensures
            match r {
                Some(v) => self.lookup(key@) == Some(*v),
                None => self.lookup(key@) is None,
            },
    {
        proof {
            use_type_invariant(self);
        }
        match self.position(key) {
            Some(i) => Some(&self.items[i]),
            None => None,
        }
    }

    /// The value under `key`, to be changed in place. The keys stay as they
    /// are, and so do the values under the other keys.
    pub fn get_mut(&mut self, key: &str) -> (r: Option<&mut V>)
        ensures
            final(self).keys() == old(self).keys(),
            match r {
                Some(v) => old(self).lookup(key@) == Some(*v) && final(self).lookup(key@) == Some(
                    *final(v),
                ) && final(self).values() == old(self).values().update(
                    key_position(old(self).keys(), key@),
                    *final(v),
                ),
                None => old(self).lookup(key@) is None && final(self).values() == old(self).values(),
            },
            forall|k: Seq<char>| k != key@ ==> #[trigger] final(self).lookup(k) == old(self).lookup(k),
    {
        proof {
            use_type_invariant(&*self);
        }
        let found = self.position(key);
        match found {
            Some(i) => {
                proof {
                    let keys = self.keys();
                    assert forall|k: Seq<char>| k != key@ implies #[trigger] key_position(keys, k)
                        != i by {
                        lemma_key_position(keys, k);
                    }
                }
                Some(&mut self.items[i])
            },
            None => None,
        }
    }

    /// Puts `value` under `key`: in place of the value that was there, or
    /// after all others where there was none.
    pub fn insert(&mut self, key: String, value: V)
        ensures
            final(self).lookup(key@) == Some(value),
            final(self).has(key@),
            old(self).has(key@) ==> final(self).keys() == old(self).keys() && final(self).values()
                == old(self).values().update(key_position(old(self).keys(), key@), value),
            !old(self).has(key@) ==> final(self).keys() == old(self).keys().push(key@)
                && final(self).values() == old(self).values().push(value),
            forall|k: Seq<char>| k != key@ ==> #[trigger] final(self).lookup(k) == old(self).lookup(k),
    {
        proof {
            use_type_invariant(&*self);
        }
        let found = self.position(key.as_str());
        let ghost keys_before = self.keys();
        let ghost values_before = self.values();
        let mut names: Vec<String> = Vec::new();
        let mut items: Vec<V> = Vec::new();
        proof {
            assert(key_texts(names@) =~= Seq::<Seq<char>>::empty());
        }
        std::mem::swap(&mut names, &mut self.names);
        std::mem::swap(&mut items, &mut self.items);
        proof {
            assert(key_texts(names@) == keys_before);
            assert(items@.take(names@.len() as int) == values_before);
        }
        match found {
            Some(i) => {
                items.set(i, value);
                proof {
                    assert(items@.take(names@.len() as int) =~= values_before.update(
                        i as int,
                        value,
                    ));
                    assert forall|k: Seq<char>| k != key@ implies value_under(
                        keys_before,
                        items@.take(names@.len() as int),
                        k,
                    ) == value_under(keys_before, values_before, k) by {
                        lemma_key_position(keys_before, k);
                    }
                }
            },
            None => {
                items.truncate(names.len());
                names.push(key);
                items.push(value);
                proof {
                    let after = key_texts(names@);
                    lemma_key_position(keys_before, key@);
                    assert(after =~= keys_before.push(key@));
                    assert(items@.take(names@.len() as int) =~= values_before.push(value));
                    assert forall|k: int| 0 <= k < keys_before.len() implies #[trigger] after[k]
                        != key@ by {
                        assert(after[k] == keys_before[k]);
                    }
                    lemma_key_position_is(after, key@, keys_before.len() as int);
                    assert(distinct_keys(after)) by {
                        assert forall|a: int, b: int| 0 <= a < b < after.len() implies after[a]
                            != after[b] by {
                            assert(after[a] == keys_before[a]);
                            if b < keys_before.len() {
                                assert(after[b] == keys_before[b]);
                            }
                        }
                    }
                    assert forall|k: Seq<char>| k != key@ implies value_under(
                        after,
                        items@.take(names@.len() as int),
                        k,
                    ) == value_under(keys_before, values_before, k) by {
                        lemma_key_position_push(keys_before, key@, k);
                        lemma_key_position(keys_before, k);
                    }
                }
            },
        }
        self.items = items;
        self.names = names;
    }

    /// Takes out the value under `key`, and gives it back where there was
    /// one. The other keys keep their order.
    pub fn remove(&mut self, key: &str) -> (r: Option<V>)
        ensures
            r == old(self).lookup(key@),
            !final(self).has(key@),
            old(self).has(key@) ==> final(self).keys() == old(self).keys().remove(
                key_position(old(self).keys(), key@),
            ) && final(self).values() == old(self).values().remove(
                key_position(old(self).keys(), key@),
            ),
            !old(self).has(key@) ==> final(self).keys() == old(self).keys() && final(self).values()
                == old(self).values(),
            forall|k: Seq<char>| k != key@ ==> #[trigger] final(self).lookup(k) == old(self).lookup(k),
    {
        proof {
            use_type_invariant(&*self);
        }
        let found = self.position(key);
        match found {
            Some(i) => {
                let ghost keys_before = self.keys();
                let ghost values_before = self.values();
                let mut names: Vec<String> = Vec::new();
                let mut items: Vec<V> = Vec::new();
                proof {
                    assert(key_texts(names@) =~= Seq::<Seq<char>>::empty());
                }
                std::mem::swap(&mut names, &mut self.names);
                std::mem::swap(&mut items, &mut self.items);
                items.truncate(names.len());
                assert(items@ =~= values_before);
                names.remove(i);
                let v = items.remove(i);
                proof {
                    let after = key_texts(names@);
                    assert(after =~= keys_before.remove(i as int));
                    assert(items@.take(names@.len() as int) =~= values_before.remove(i as int));
                    assert forall|k: int| 0 <= k < after.len() implies #[trigger] after[k]
                        != key@ by {
                        if k < i {
                            assert(after[k] == keys_before[k]);
                        } else {
                            assert(after[k] == keys_before[k + 1]);
                        }
                    }
                    lemma_key_position_is(after, key@, after.len() as int);
                    assert forall|k: Seq<char>| k != key@ implies value_under(
                        after,
                        items@.take(names@.len() as int),
                        k,
                    ) == value_under(keys_before, values_before, k) by {
                        lemma_key_position_remove(keys_before, i as int, k);
                        lemma_key_position(keys_before, k);
                    }
                    assert(distinct_keys(after)) by {
                        assert forall|a: int, b: int| 0 <= a < b < after.len() implies after[a]
                            != after[b] by {
                            let a2 = if a < i { a } else { a + 1 };
                            let b2 = if b < i { b } else { b + 1 };
                            assert(after[a] == keys_before[a2]);
                            assert(after[b] == keys_before[b2]);
                        }
                    }
                }
                self.items = items;
                self.names = names;
                Some(v)
            },
            None => None,
        }
    }

    /// The keys, in the order in which they were first inserted.
    pub fn key_list(&self) -> (r: Vec<String>)
        ensures
            key_texts(r@) == self.keys(),
    {
        let mut r: Vec<String> = Vec::new();
        let mut i: usize = 0;
        while i < self.names.len()
            invariant
                i <= self.names.len(),
                r@.len() == i,
                forall|k: int| 0 <= k < i ==> #[trigger] r@[k]@ == self.names@[k]@,
            decreases self.names.len() - i,
        {
            r.push(self.names[i].clone());
            i += 1;
        }
        assert(key_texts(r@) =~= self.keys());
        r
    }
}

} // verus!
