//! A map whose entries stay sorted by key.

use vstd::prelude::*;
use crate::ordering::{MapKey, Position, precedes, precedes_irreflexive, precedes_total, precedes_transitive};

verus! {

/// A map whose entries stay sorted by key, as a search tree would hold them.
#[derive(Clone, Debug, Eq, PartialEq)]
pub struct SortedMap<K: MapKey, V> {
    entries: Vec<(K, V)>,
}

/// Whether every key stands before the ones behind it.
pub open spec fn ascending<K: MapKey>(keys: Seq<K::V>) -> bool {
    forall|i: int, j: int|
        0 <= i < j < keys.len() ==> precedes(K::rank(#[trigger] keys[i]), K::rank(#[trigger] keys[j]))
}

/// The map that pairs each key with the value at the same place.
pub open spec fn paired<K, V>(keys: Seq<K>, values: Seq<V>) -> Map<K, V> {
    Map::new(|k: K| keys.contains(k), |k: K| values[keys.index_of(k)])
}

/// No key occurs twice in an ascending row.
pub proof fn ascending_distinct<K: MapKey>(keys: Seq<K::V>)
    requires
        ascending::<K>(keys),
    ensures
        keys.no_duplicates(),
{
    assert forall|i: int, j: int| 0 <= i < keys.len() && 0 <= j < keys.len() && i != j implies keys[i]
        != keys[j] by {
        if keys[i] == keys[j] {
            precedes_irreflexive(K::rank(keys[i]));
            if i < j {
                assert(precedes(K::rank(keys[i]), K::rank(keys[j])));
            } else {
                assert(precedes(K::rank(keys[j]), K::rank(keys[i])));
            }
        }
    }
}

/// A set of keys can be put in ascending order in one way only.
pub proof fn ascending_unique<K: MapKey>(a: Seq<K::V>, b: Seq<K::V>)
    requires
        ascending::<K>(a),
        ascending::<K>(b),
        a.to_set() == b.to_set(),
    ensures
        a == b,
    decreases a.len(),
{
    ascending_distinct::<K>(a);
    ascending_distinct::<K>(b);
    a.unique_seq_to_set();
    b.unique_seq_to_set();
    if a.len() > 0 {
        let la = a.last();
        let lb = b.last();
        assert(a.to_set().contains(la)) by {
            assert(a[a.len() - 1] == la);
        }
        assert(b.to_set().contains(lb)) by {
            assert(b[b.len() - 1] == lb);
        }
        assert(b.contains(la));
        assert(a.contains(lb));
        let i = choose|i: int| 0 <= i < b.len() && b[i] == la;
        let j = choose|j: int| 0 <= j < a.len() && a[j] == lb;
        if la != lb {
            assert(precedes(K::rank(b[i]), K::rank(b[b.len() - 1])));
            assert(precedes(K::rank(a[j]), K::rank(a[a.len() - 1])));
            precedes_transitive(K::rank(la), K::rank(lb), K::rank(la));
            precedes_irreflexive(K::rank(la));
        }
        let ra = a.drop_last();
        let rb = b.drop_last();
        assert(ascending::<K>(ra));
        assert(ascending::<K>(rb));
        assert forall|k: K::V| ra.to_set().contains(k) <==> rb.to_set().contains(k) by {
            lemma_drop_last_contains(a, k);
            lemma_drop_last_contains(b, k);
            assert(a.to_set().contains(k) == b.to_set().contains(k));
            assert(a.to_set().contains(k) == a.contains(k));
            assert(b.to_set().contains(k) == b.contains(k));
        }
        assert(ra.to_set() =~= rb.to_set());
        ascending_unique::<K>(ra, rb);
        assert(a =~= ra.push(la));
        assert(b =~= rb.push(lb));
    } else {
        assert(a =~= b);
    }
}

/// The keys of a set in ascending order.
pub open spec fn ascending_keys<K: MapKey>(set: Set<K::V>) -> Seq<K::V> {
    choose|s: Seq<K::V>| ascending::<K>(s) && s.to_set() == set
}

/// A row with one more key in its place.
proof fn lemma_ascending_with<K: MapKey>(s: Seq<K::V>, k: K::V) -> (r: Seq<K::V>)
    requires
        ascending::<K>(s),
        !s.contains(k),
    ensures
        ascending::<K>(r),
        r.to_set() == s.to_set().insert(k),
    decreases s.len(),
{
    if s.len() == 0 {
        let r = seq![k];
        assert(r[0] == k);
        assert(r.to_set() =~= s.to_set().insert(k));
        r
    } else {
        let last = s.last();
        assert(s[s.len() - 1] == last);
        if precedes(K::rank(last), K::rank(k)) {
            let r = s.push(k);
            assert forall|i: int, j: int| 0 <= i < j < r.len() implies precedes(
                K::rank(#[trigger] r[i]),
                K::rank(#[trigger] r[j]),
            ) by {
                if j == s.len() && i < s.len() - 1 {
                    assert(precedes(K::rank(s[i]), K::rank(s[s.len() - 1])));
                    precedes_transitive(K::rank(s[i]), K::rank(last), K::rank(k));
                }
            }
            assert forall|x: K::V| r.contains(x) <==> s.contains(x) || x == k by {
                if s.contains(x) {
                    assert(r[s.index_of(x)] == x);
                }
                assert(r[s.len() as int] == k);
            }
            assert(r.to_set() =~= s.to_set().insert(k));
            r
        } else {
            let front = s.drop_last();
            assert(ascending::<K>(front));
            ascending_distinct::<K>(s);
            assert forall|x: K::V| front.contains(x) <==> s.contains(x) && x != last by {
                lemma_drop_last_contains(s, x);
            }
            let inner = lemma_ascending_with::<K>(front, k);
            let r = inner.push(last);
            if K::rank(last) == K::rank(k) {
                K::rank_injective(last, k);
            }
            precedes_total(K::rank(last), K::rank(k));
            assert forall|i: int, j: int| 0 <= i < j < r.len() implies precedes(
                K::rank(#[trigger] r[i]),
                K::rank(#[trigger] r[j]),
            ) by {
                if j == inner.len() {
                    assert(inner.to_set().contains(inner[i]));
                    if inner[i] != k {
                        assert(front.to_set().contains(inner[i]));
                        assert(front.contains(inner[i]));
                        let at = front.index_of(inner[i]);
                        assert(precedes(K::rank(s[at]), K::rank(s[s.len() - 1])));
                    }
                }
            }
            assert forall|x: K::V| r.contains(x) <==> s.contains(x) || x == k by {
                assert(inner.to_set().contains(x) == (front.to_set().contains(x) || x == k));
                assert(inner.to_set().contains(x) == inner.contains(x));
                assert(front.to_set().contains(x) == front.contains(x));
                if inner.contains(x) {
                    assert(r[inner.index_of(x)] == x);
                }
                assert(r[inner.len() as int] == last);
            }
            assert(r.to_set() =~= s.to_set().insert(k));
            r
        }
    }
}

/// Every finite set of keys can be put in ascending order.
pub proof fn ascending_keys_exist<K: MapKey>(set: Set<K::V>)
    requires
        set.finite(),
    ensures
        ascending::<K>(ascending_keys::<K>(set)),
        ascending_keys::<K>(set).to_set() == set,
        ascending_keys::<K>(set).no_duplicates(),
    decreases set.len(),
{
    if set.len() == 0 {
        let row = Seq::<K::V>::empty();
        assert(row.to_set() =~= set);
        assert(ascending::<K>(row));
    } else {
        let k = set.choose();
        ascending_keys_exist::<K>(set.remove(k));
        let rest = ascending_keys::<K>(set.remove(k));
        assert(rest.contains(k) == rest.to_set().contains(k));
        let row = lemma_ascending_with::<K>(rest, k);
        assert(row.to_set() =~= set);
    }
    ascending_distinct::<K>(ascending_keys::<K>(set));
}

proof fn lemma_drop_last_contains<A>(s: Seq<A>, k: A)
    requires
        s.no_duplicates(),
        s.len() > 0,
    ensures
        s.drop_last().contains(k) <==> s.contains(k) && k != s.last(),
{
    if s.contains(k) && k != s.last() {
        let i = choose|i: int| 0 <= i < s.len() && s[i] == k;
        assert(s.drop_last()[i] == k);
    }
    if s.drop_last().contains(k) {
        let i = choose|i: int| 0 <= i < s.drop_last().len() && s.drop_last()[i] == k;
        assert(s[i] == k);
    }
}

proof fn lemma_paired_at<K, V>(keys: Seq<K>, values: Seq<V>, i: int)
    requires
        keys.no_duplicates(),
        keys.len() == values.len(),
        0 <= i < keys.len(),
    ensures
        paired(keys, values).contains_key(keys[i]),
        paired(keys, values)[keys[i]] == values[i],
{
    assert(keys[i] == keys[i]);
    assert(keys.contains(keys[i]));
    let at = keys.index_of(keys[i]);
    assert(keys[at] == keys[i]);
}

proof fn lemma_paired_update<K, V>(keys: Seq<K>, values: Seq<V>, i: int, v: V)
    requires
        keys.no_duplicates(),
        keys.len() == values.len(),
        0 <= i < keys.len(),
    ensures
        paired(keys, values.update(i, v)) == paired(keys, values).insert(keys[i], v),
{
    let a = paired(keys, values.update(i, v));
    let b = paired(keys, values).insert(keys[i], v);
    assert(keys.contains(keys[i]));
    assert forall|k: K| a.contains_key(k) implies a[k] == b[k] by {
        let at = keys.index_of(k);
        assert(0 <= at < keys.len() && keys[at] == k);
    }
    assert(a =~= b);
}

proof fn lemma_paired_insert<K, V>(keys: Seq<K>, values: Seq<V>, i: int, k: K, v: V)
    requires
        keys.no_duplicates(),
        keys.len() == values.len(),
        0 <= i <= keys.len(),
        !keys.contains(k),
    ensures
        paired(keys.insert(i, k), values.insert(i, v)) == paired(keys, values).insert(k, v),
        keys.insert(i, k).no_duplicates(),
{
    let nk = keys.insert(i, k);
    let nv = values.insert(i, v);
    assert forall|x: int, y: int| 0 <= x < nk.len() && 0 <= y < nk.len() && x != y implies nk[x] != nk[y] by {
        let ox = if x < i { x } else { x - 1 };
        let oy = if y < i { y } else { y - 1 };
        if x == i {
            assert(nk[y] == keys[oy]);
        } else if y == i {
            assert(nk[x] == keys[ox]);
        } else {
            assert(nk[x] == keys[ox]);
            assert(nk[y] == keys[oy]);
        }
    }
    let a = paired(nk, nv);
    let b = paired(keys, values).insert(k, v);
    assert(nk[i] == k);
    assert forall|q: K| nk.contains(q) <==> keys.contains(q) || q == k by {
        if keys.contains(q) {
            let at = keys.index_of(q);
            if at < i {
                assert(nk[at] == q);
            } else {
                assert(nk[at + 1] == q);
            }
        }
        if nk.contains(q) && q != k {
            let at = nk.index_of(q);
            if at < i {
                assert(keys[at] == q);
            } else {
                assert(keys[at - 1] == q);
            }
        }
    }
    assert forall|q: K| a.contains_key(q) implies a[q] == b[q] by {
        let at = nk.index_of(q);
        assert(nk[at] == q);
        if q == k {
            assert(at == i);
        } else {
            let was = if at < i { at } else { at - 1 };
            assert(keys[was] == q);
            lemma_paired_at(keys, values, was);
        }
    }
    assert(a =~= b);
}

proof fn lemma_paired_remove<K, V>(keys: Seq<K>, values: Seq<V>, i: int)
    requires
        keys.no_duplicates(),
        keys.len() == values.len(),
        0 <= i < keys.len(),
    ensures
        paired(keys.remove(i), values.remove(i)) == paired(keys, values).remove(keys[i]),
        keys.remove(i).no_duplicates(),
{
    let nk = keys.remove(i);
    let nv = values.remove(i);
    assert(nk.no_duplicates());
    let a = paired(nk, nv);
    let b = paired(keys, values).remove(keys[i]);
    assert forall|q: K| nk.contains(q) <==> keys.contains(q) && q != keys[i] by {
        if nk.contains(q) {
            let at = nk.index_of(q);
            if at < i {
                assert(keys[at] == q);
            } else {
                assert(keys[at + 1] == q);
            }
        }
        if keys.contains(q) && q != keys[i] {
            let at = keys.index_of(q);
            if at < i {
                assert(nk[at] == q);
            } else {
                assert(nk[at - 1] == q);
            }
        }
    }
    assert forall|q: K| a.contains_key(q) implies a[q] == b[q] by {
        let at = nk.index_of(q);
        assert(nk[at] == q);
        let was = if at < i { at } else { at + 1 };
        assert(keys[was] == q);
        lemma_paired_at(keys, values, was);
    }
    assert(a =~= b);
}

impl<K: MapKey, V> SortedMap<K, V> {
    /// The keys, in ascending order.
    pub closed spec fn keys(&self) -> Seq<K::V> {
        self.entries@.map_values(|e: (K, V)| e.0@)
    }

    /// The values, in the order of their keys.
    pub closed spec fn values(&self) -> Seq<V> {
        self.entries@.map_values(|e: (K, V)| e.1)
    }

    /// Whether the entries are sorted by key.
    pub closed spec fn wf(&self) -> bool {
        ascending::<K>(self.keys())
    }

    /// What a well-formed map knows of its keys and values.
    pub proof fn lemma_entries(&self)
        requires
            self.wf(),
        ensures
            ascending::<K>(self.keys()),
            self.keys().no_duplicates(),
            self.keys().len() == self.values().len(),
            self@ == paired(self.keys(), self.values()),
            self@.dom() == self.keys().to_set(),
            self@.dom().finite(),
            self@.dom().len() == self.keys().len(),
            forall|i: int|
                0 <= i < self.keys().len() ==> self@.contains_key(#[trigger] self.keys()[i])
                    && self@[self.keys()[i]] == self.values()[i],
    {
        ascending_distinct::<K>(self.keys());
        self.keys().unique_seq_to_set();
        assert(self@.dom() =~= self.keys().to_set());
        assert forall|i: int| 0 <= i < self.keys().len() implies self@.contains_key(
            #[trigger] self.keys()[i],
        ) && self@[self.keys()[i]] == self.values()[i] by {
            lemma_paired_at(self.keys(), self.values(), i);
        }
    }

    /// The keys are those of the map in ascending order.
    pub proof fn lemma_ascending_keys(&self)
        requires
            self.wf(),
        ensures
            self.keys() == ascending_keys::<K>(self@.dom()),
    {
        self.lemma_entries();
        let s = ascending_keys::<K>(self@.dom());
        assert(ascending::<K>(s) && s.to_set() == self@.dom());
        ascending_unique::<K>(self.keys(), s);
    }

    /// An empty map.
    pub fn new() -> (map: Self)
        ensures
            map.wf(),
            map@ == Map::<K::V, V>::empty(),
            map.keys() == Seq::<K::V>::empty(),
            map.values() == Seq::<V>::empty(),
    {
        let map = SortedMap { entries: Vec::new() };
        assert(map@ =~= Map::<K::V, V>::empty());
        map
    }

    /// How many entries the map has.
    pub fn len(&self) -> (n: usize)
        requires
            self.wf(),
        ensures
            n == self@.dom().len(),
            n == self.keys().len(),
            n == self.values().len(),
    {
        proof {
            self.lemma_entries();
        }
        self.entries.len()
    }

    /// Whether the map has no entry.
    pub fn is_empty(&self) -> (empty: bool)
        requires
            self.wf(),
        ensures
            empty == (self@ == Map::<K::V, V>::empty()),
            empty == (self.keys().len() == 0),
    {
        proof {
            self.lemma_entries();
            if self.keys().len() == 0 {
                assert(self@ =~= Map::<K::V, V>::empty());
            } else {
                assert(self@.contains_key(self.keys()[0]));
            }
        }
        self.entries.len() == 0
    }

    /// Where `key` stands, or where it would have to be put.
    fn search(&self, key: &K) -> (found: Result<usize, usize>)
        requires
            self.wf(),
        ensures
            match found {
                Ok(i) => i < self.keys().len() && self.keys()[i as int] == key@,
                Err(i) => {
                    &&& i <= self.keys().len()
                    &&& !self.keys().contains(key@)
                    &&& forall|j: int|
                        0 <= j < i ==> precedes(K::rank(#[trigger] self.keys()[j]), K::rank(key@))
                    &&& forall|j: int|
                        i <= j < self.keys().len() ==> precedes(K::rank(key@), K::rank(#[trigger] self.keys()[j]))
                },
            },
    {
        let mut i: usize = 0;
        while i < self.entries.len()
            invariant
                self.wf(),
                i <= self.entries@.len(),
                forall|j: int|
                    0 <= j < i ==> precedes(K::rank(#[trigger] self.keys()[j]), K::rank(key@)),
            decreases self.entries@.len() - i,
        {
            proof {
                assert(self.keys()[i as int] == self.entries@[i as int].0@);
            }
            match self.entries[i].0.position(key) {
                Position::Before => {
                    i = i + 1;
                },
                Position::Same => {
                    proof {
                        K::rank_injective(self.keys()[i as int], key@);
                    }
                    return Ok(i);
                },
                Position::After => {
                    proof {
                        let at = K::rank(self.keys()[i as int]);
                        precedes_total(at, K::rank(key@));
                        assert forall|j: int| i <= j < self.keys().len() implies precedes(
                            K::rank(key@),
                            K::rank(#[trigger] self.keys()[j]),
                        ) by {
                            if j > i {
                                assert(precedes(at, K::rank(self.keys()[j])));
                                precedes_transitive(K::rank(key@), at, K::rank(self.keys()[j]));
                            }
                        }
                        self.lemma_absent(key@, i as int);
                    }
                    return Err(i);
                },
            }
        }
        proof {
            self.lemma_absent(key@, i as int);
        }
        Err(i)
    }

    proof fn lemma_absent(&self, key: K::V, i: int)
        requires
            0 <= i <= self.keys().len(),
            forall|j: int| 0 <= j < i ==> precedes(K::rank(#[trigger] self.keys()[j]), K::rank(key)),
            forall|j: int|
                i <= j < self.keys().len() ==> precedes(K::rank(key), K::rank(#[trigger] self.keys()[j])),
        ensures
            !self.keys().contains(key),
    {
        precedes_irreflexive(K::rank(key));
        if self.keys().contains(key) {
            let j = choose|j: int| 0 <= j < self.keys().len() && self.keys()[j] == key;
            assert(self.keys()[j] == key);
        }
    }

    /// Whether `key` has an entry.
    pub fn contains_key(&self, key: &K) -> (present: bool)
        requires
            self.wf(),
        ensures
            present == self@.contains_key(key@),
    {
        match self.search(key) {
            Ok(i) => {
                proof {
                    self.lemma_entries();
                    assert(self@.contains_key(self.keys()[i as int]));
                }
                true
            },
            Err(_) => false,
        }
    }

    /// The value of `key`.
    pub fn get(&self, key: &K) -> (value: Option<&V>)
        requires
            self.wf(),
        ensures
            match value {
                Some(v) => self@.contains_key(key@) && *v == self@[key@],
                None => !self@.contains_key(key@),
            },
    {
        match self.search(key) {
            Ok(i) => {
                proof {
                    self.lemma_entries();
                    assert(self@.contains_key(self.keys()[i as int]));
                    assert(self.values()[i as int] == self.entries@[i as int].1);
                }
                Some(&self.entries[i].1)
            },
            Err(_) => None,
        }
    }

    /// The value of `key`, to be changed in place.
    pub fn get_mut(&mut self, key: &K) -> (value: Option<&mut V>)
        requires
            old(self).wf(),
        ensures
            final(self).wf(),
            final(self).keys() == old(self).keys(),
            match value {
                Some(v) => {
                    &&& old(self)@.contains_key(key@)
                    &&& *v == old(self)@[key@]
                    &&& final(self)@ == old(self)@.insert(key@, *final(v))
                },
                None => !old(self)@.contains_key(key@) && final(self)@ == old(self)@,
            },
    {
        match self.search(key) {
            Ok(i) => Some(self.value_mut(i)),
            Err(_) => None,
        }
    }

    /// The value at place `i` of the ascending order, to be changed in place.
    pub fn value_mut(&mut self, i: usize) -> (value: &mut V)
        requires
            old(self).wf(),
            i < old(self).keys().len(),
        ensures
            final(self).wf(),
            final(self).keys() == old(self).keys(),
            *value == old(self).values()[i as int],
            *value == old(self)@[old(self).keys()[i as int]],
            old(self)@.contains_key(old(self).keys()[i as int]),
            final(self).values() == old(self).values().update(i as int, *final(value)),
            final(self)@ == old(self)@.insert(old(self).keys()[i as int], *final(value)),
    {
        proof {
            self.lemma_entries();
        }
        proof {
            let before = *self;
            assert forall|t: (K, V)|
                #![trigger before.entries@.update(i as int, t)]
                t.0 == before.entries@[i as int].0 implies {
                let after = before.entries@.update(i as int, t);
                &&& after.map_values(|e: (K, V)| e.0@) == before.keys()
                &&& after.map_values(|e: (K, V)| e.1) == before.values().update(i as int, t.1)
                &&& paired(before.keys(), before.values().update(i as int, t.1)) == before@.insert(
                    before.keys()[i as int],
                    t.1,
                )
            } by {
                let after = before.entries@.update(i as int, t);
                assert(after.map_values(|e: (K, V)| e.0@) =~= before.keys());
                assert(after.map_values(|e: (K, V)| e.1) =~= before.values().update(i as int, t.1));
                lemma_paired_update(before.keys(), before.values(), i as int, t.1);
            }
        }
        &mut self.entries[i].1
    }

    /// The key at place `i` of the ascending order.
    pub fn key_at(&self, i: usize) -> (key: &K)
        requires
            i < self.keys().len(),
        ensures
            key@ == self.keys()[i as int],
    {
        &self.entries[i].0
    }

    /// The value at place `i` of the ascending order.
    pub fn value_at(&self, i: usize) -> (value: &V)
        requires
            self.wf(),
            i < self.keys().len(),
        ensures
            *value == self.values()[i as int],
            *value == self@[self.keys()[i as int]],
    {
        proof {
            self.lemma_entries();
            assert(self@.contains_key(self.keys()[i as int]));
        }
        &self.entries[i].1
    }

    /// Sets the value of `key` and hands back the one that it replaced.
    pub fn insert(&mut self, key: K, value: V) -> (replaced: Option<V>)
        requires
            old(self).wf(),
        ensures
            final(self).wf(),
            final(self)@ == old(self)@.insert(key@, value),
            old(self)@.contains_key(key@) ==> final(self).keys() == old(self).keys(),
            match replaced {
                Some(v) => old(self)@.contains_key(key@) && v == old(self)@[key@],
                None => !old(self)@.contains_key(key@),
            },
    {
        proof {
            self.lemma_entries();
        }
        let ghost before = *self;
        match self.search(&key) {
            Ok(i) => {
                proof {
                    assert(self@.contains_key(self.keys()[i as int]));
                }
                let (old_key, old_value) = self.entries.remove(i);
                self.entries.insert(i, (key, value));
                proof {
                    assert(self.keys() =~= before.keys());
                    assert(self.values() =~= before.values().update(i as int, value));
                    lemma_paired_update(before.keys(), before.values(), i as int, value);
                    assert(before.values()[i as int] == before.entries@[i as int].1);
                }
                Some(old_value)
            },
            Err(i) => {
                self.entries.insert(i, (key, value));
                proof {
                    assert(self.keys() =~= before.keys().insert(i as int, key@));
                    assert(self.values() =~= before.values().insert(i as int, value));
                    lemma_paired_insert(before.keys(), before.values(), i as int, key@, value);
                    assert forall|x: int, y: int| 0 <= x < y < self.keys().len() implies precedes(
                        K::rank(#[trigger] self.keys()[x]),
                        K::rank(#[trigger] self.keys()[y]),
                    ) by {
                        let ox = if x < i { x } else { x - 1 };
                        let oy = if y < i { y } else { y - 1 };
                        if x != i {
                            assert(self.keys()[x] == before.keys()[ox]);
                        }
                        if y != i {
                            assert(self.keys()[y] == before.keys()[oy]);
                        }
                    }
                }
                None
            },
        }
    }

    /// Takes the entry of `key` out.
    pub fn remove(&mut self, key: &K) -> (removed: Option<V>)
        requires
            old(self).wf(),
        ensures
            final(self).wf(),
            final(self)@ == old(self)@.remove(key@),
            match removed {
                Some(v) => old(self)@.contains_key(key@) && v == old(self)@[key@],
                None => !old(self)@.contains_key(key@) && final(self).keys() == old(self).keys(),
            },
    {
        match self.search(key) {
            Ok(i) => {
                let (old_key, old_value) = self.remove_at(i);
                Some(old_value)
            },
            Err(_) => {
                proof {
                    assert(self@.remove(key@) =~= self@);
                }
                None
            },
        }
    }

    /// Takes the entry at place `i` of the ascending order out.
    pub fn remove_at(&mut self, i: usize) -> (entry: (K, V))
        requires
            old(self).wf(),
            i < old(self).keys().len(),
        ensures
            final(self).wf(),
            entry.0@ == old(self).keys()[i as int],
            entry.1 == old(self).values()[i as int],
            entry.1 == old(self)@[old(self).keys()[i as int]],
            old(self)@.contains_key(old(self).keys()[i as int]),
            final(self)@ == old(self)@.remove(old(self).keys()[i as int]),
            final(self).keys() == old(self).keys().remove(i as int),
            final(self).values() == old(self).values().remove(i as int),
    {
        proof {
            self.lemma_entries();
            assert(self@.contains_key(self.keys()[i as int]));
            assert(self.values()[i as int] == self.entries@[i as int].1);
        }
        let ghost before = *self;
        let entry = self.entries.remove(i);
        proof {
            assert(self.keys() =~= before.keys().remove(i as int));
            assert(self.values() =~= before.values().remove(i as int));
            lemma_paired_remove(before.keys(), before.values(), i as int);
            assert forall|x: int, y: int| 0 <= x < y < self.keys().len() implies precedes(
                K::rank(#[trigger] self.keys()[x]),
                K::rank(#[trigger] self.keys()[y]),
            ) by {
                let ox = if x < i { x } else { x + 1 };
                let oy = if y < i { y } else { y + 1 };
                assert(self.keys()[x] == before.keys()[ox]);
                assert(self.keys()[y] == before.keys()[oy]);
            }
        }
        entry
    }

    /// Takes every entry out.
    pub fn clear(&mut self)
        ensures
            final(self).wf(),
            final(self)@ == Map::<K::V, V>::empty(),
            final(self).keys() == Seq::<K::V>::empty(),
            final(self).values() == Seq::<V>::empty(),
    {
        self.entries.clear();
        assert(self@ =~= Map::<K::V, V>::empty());
    }
}

impl<K: MapKey + Copy, V: Copy> SortedMap<K, V> {
    /// A copy of the map.
    pub fn duplicate(&self) -> (copy: Self)
        requires
            self.wf(),
        ensures
            copy.wf(),
            copy@ == self@,
            copy.keys() == self.keys(),
            copy.values() == self.values(),
    {
        let mut entries: Vec<(K, V)> = Vec::new();
        let mut i: usize = 0;
        while i < self.entries.len()
            invariant
                i <= self.entries@.len(),
                entries@ == self.entries@.subrange(0, i as int),
            decreases self.entries@.len() - i,
        {
            entries.push((self.entries[i].0, self.entries[i].1));
            assert(entries@ =~= self.entries@.subrange(0, i + 1));
            i = i + 1;
        }
        assert(entries@ =~= self.entries@);
        SortedMap { entries }
    }
}

impl<K: MapKey, V> View for SortedMap<K, V> {
    type V = Map<K::V, V>;

    open spec fn view(&self) -> Map<K::V, V> {
        paired(self.keys(), self.values())
    }
}

} // verus!
