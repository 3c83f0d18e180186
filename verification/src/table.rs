//! A small map: pairs in the order in which their keys came.

use crate::text::same;
use vstd::prelude::*;

verus! {

/// What can be a key: a value whose view decides whether two are the same.
pub trait Key: View + Sized {
    /// Whether two keys are the same.
    fn same_key(&self, other: &Self) -> (r: bool)
        ensures
            r == (self@ == other@),
    ;

    /// The same key again.
    fn again(&self) -> (r: Self)
        ensures
            r@ == self@,
    ;
}

impl Key for String {
    fn same_key(&self, other: &String) -> (r: bool) {
        same(self.as_str(), other.as_str())
    }

    fn again(&self) -> (r: String) {
        self.clone()
    }
}

impl Key for i64 {
    fn same_key(&self, other: &i64) -> (r: bool) {
        *self == *other
    }

    fn again(&self) -> (r: i64) {
        *self
    }
}

/// A map from keys to values: no key twice, and a value for each.
#[derive(Debug)]
pub struct Table<K: Key, V> {
    keys: Vec<K>,
    values: Vec<V>,
}

/// The views of a row of keys.
spec fn key_views<K: Key>(keys: Seq<K>) -> Seq<K::V> {
    keys.map_values(|key: K| key@)
}

/// The map that a row of keys and a row of values stand for.
spec fn as_map<K: Key, V>(keys: Seq<K>, values: Seq<V>) -> Map<K::V, V> {
    Map::new(
        |key: K::V| key_views(keys).contains(key),
        |key: K::V| values[key_views(keys).index_of(key)],
    )
}

/// Whether a row of keys and a row of values belong together.
spec fn paired<K: Key, V>(keys: Seq<K>, values: Seq<V>) -> bool {
    &&& keys.len() == values.len()
    &&& key_views(keys).no_duplicates()
}

proof fn lemma_pair<K: Key, V>(keys: Seq<K>, values: Seq<V>, at: int)
    requires
        paired(keys, values),
        0 <= at < keys.len(),
    ensures
        as_map(keys, values).contains_key(keys[at]@),
        as_map(keys, values)[keys[at]@] == values[at],
{
    let views = key_views(keys);
    assert(views[at] == keys[at]@);
    let found = views.index_of(views[at]);
    assert(0 <= found < views.len() && views[found] == views[at]);
}

proof fn lemma_holds<K: Key, V>(keys: Seq<K>, values: Seq<V>, key: K::V) -> (at: int)
    requires
        paired(keys, values),
        as_map(keys, values).contains_key(key),
    ensures
        0 <= at < keys.len(),
        keys[at]@ == key,
        as_map(keys, values)[key] == values[at],
{
    let at = choose|at: int| 0 <= at < key_views(keys).len() && key_views(keys)[at] == key;
    lemma_pair(keys, values, at);
    at
}

proof fn lemma_push<K: Key, V>(keys: Seq<K>, values: Seq<V>, key: K, value: V)
    requires
        paired(keys, values),
        !key_views(keys).contains(key@),
    ensures
        paired(keys.push(key), values.push(value)),
        as_map(keys.push(key), values.push(value)) == as_map(keys, values).insert(key@, value),
{
    let longer = keys.push(key);
    let more = values.push(value);
    let before = as_map(keys, values);
    let after = as_map(longer, more);
    assert(key_views(longer) =~= key_views(keys).push(key@));
    assert(paired(longer, more));
    lemma_pair(longer, more, keys.len() as int);
    assert forall|k: K::V| #[trigger] after.contains_key(k) <==> before.insert(
        key@,
        value,
    ).contains_key(k) by {
        if after.contains_key(k) && k != key@ {
            let at = lemma_holds(longer, more, k);
            lemma_pair(keys, values, at);
        }
        if before.contains_key(k) {
            let at = lemma_holds(keys, values, k);
            lemma_pair(longer, more, at);
        }
    }
    assert forall|k: K::V| #[trigger] after.contains_key(k) implies after[k] == before.insert(
        key@,
        value,
    )[k] by {
        if k != key@ {
            let at = lemma_holds(longer, more, k);
            lemma_pair(keys, values, at);
        }
    }
    assert(after =~= before.insert(key@, value));
}

proof fn lemma_update<K: Key, V>(keys: Seq<K>, values: Seq<V>, at: int, value: V)
    requires
        paired(keys, values),
        0 <= at < keys.len(),
    ensures
        paired(keys, values.update(at, value)),
        as_map(keys, values.update(at, value)) == as_map(keys, values).insert(keys[at]@, value),
{
    let before = as_map(keys, values);
    let after = as_map(keys, values.update(at, value));
    lemma_pair(keys, values, at);
    lemma_pair(keys, values.update(at, value), at);
    assert forall|k: K::V| #[trigger] after.contains_key(k) implies after[k] == before.insert(
        keys[at]@,
        value,
    )[k] by {
        let i = lemma_holds(keys, values.update(at, value), k);
        lemma_pair(keys, values, i);
    }
    assert(after =~= before.insert(keys[at]@, value));
}

proof fn lemma_remove<K: Key, V>(keys: Seq<K>, values: Seq<V>, at: int)
    requires
        paired(keys, values),
        0 <= at < keys.len(),
    ensures
        paired(keys.remove(at), values.remove(at)),
        as_map(keys.remove(at), values.remove(at)) == as_map(keys, values).remove(keys[at]@),
{
    let shorter = keys.remove(at);
    let fewer = values.remove(at);
    let before = as_map(keys, values);
    let after = as_map(shorter, fewer);
    let views = key_views(keys);
    let left = key_views(shorter);
    assert forall|i: int, j: int| 0 <= i < j < left.len() implies left[i] != left[j] by {
        let from_i = if i < at { i } else { i + 1 };
        let from_j = if j < at { j } else { j + 1 };
        assert(left[i] == views[from_i] && left[j] == views[from_j]);
    }
    assert(paired(shorter, fewer));
    assert forall|k: K::V| #[trigger] after.contains_key(k) <==> before.remove(
        keys[at]@,
    ).contains_key(k) by {
        if after.contains_key(k) {
            let i = lemma_holds(shorter, fewer, k);
            let from = if i < at { i } else { i + 1 };
            lemma_pair(keys, values, from);
            assert(views[from] == k && views[at] == keys[at]@);
        }
        if before.contains_key(k) && k != keys[at]@ {
            let i = lemma_holds(keys, values, k);
            let to = if i < at { i } else { i - 1 };
            assert(shorter[to] == keys[i]);
            lemma_pair(shorter, fewer, to);
        }
    }
    assert forall|k: K::V| #[trigger] after.contains_key(k) implies after[k] == before.remove(
        keys[at]@,
    )[k] by {
        let i = lemma_holds(shorter, fewer, k);
        let from = if i < at { i } else { i + 1 };
        lemma_pair(keys, values, from);
        assert(views[from] == k && views[at] == keys[at]@);
    }
    assert(after =~= before.remove(keys[at]@));
}

impl<K: Key, V> View for Table<K, V> {
    type V = Map<K::V, V>;

    closed spec fn view(&self) -> Map<K::V, V> {
        as_map(self.keys@, self.values@)
    }
}

impl<K: Key, V> Table<K, V> {
    #[verifier::type_invariant]
    spec fn type_inv(self) -> bool {
        paired(self.keys@, self.values@)
    }

    /// The keys in the order in which they came.
    pub closed spec fn key_seq(&self) -> Seq<K::V> {
        key_views(self.keys@)
    }

    /// The keys in order are the keys of the map.
    pub proof fn lemma_keys(&self)
        ensures
            forall|key: K::V| #[trigger]
                self.key_seq().contains(key) <==> self@.contains_key(key),
    {
    }

    /// The empty map.
    pub fn new() -> (r: Table<K, V>)
        ensures
            r@ == Map::<K::V, V>::empty(),
            r.key_seq() == Seq::<K::V>::empty(),
    {
        let r = Table { keys: Vec::new(), values: Vec::new() };
        assert(r@ =~= Map::<K::V, V>::empty());
        assert(r.key_seq() =~= Seq::<K::V>::empty());
        r
    }

    /// The position of `key`.
    fn find(&self, key: &K) -> (r: Option<usize>)
        ensures
            match r {
                Some(at) => at < self.keys@.len() && self.keys@[at as int]@ == key@,
                None => !key_views(self.keys@).contains(key@),
            },
    {
        let mut at: usize = 0;
        while at < self.keys.len()
            invariant
                at <= self.keys@.len(),
                forall|j: int| 0 <= j < at ==> #[trigger] key_views(self.keys@)[j] != key@,
            decreases self.keys@.len() - at,
        {
            if self.keys[at].same_key(key) {
                return Some(at);
            }
            assert(key_views(self.keys@)[at as int] == self.keys@[at as int]@);
            at += 1;
        }
        None
    }

    /// The value under `key`.
    pub fn get(&self, key: &K) -> (r: Option<&V>)
        ensures
            match r {
                Some(v) => self@.contains_key(key@) && *v == self@[key@],
                None => !self@.contains_key(key@),
            },
    {
        proof {
            use_type_invariant(self);
        }
        match self.find(key) {
            Some(at) => {
                proof {
                    lemma_pair(self.keys@, self.values@, at as int);
                }
                Some(&self.values[at])
            },
            None => None,
        }
    }

    /// Whether there is a value under `key`.
    pub fn contains_key(&self, key: &K) -> (r: bool)
        ensures
            r == self@.contains_key(key@),
    {
        self.get(key).is_some()
    }

    /// Puts `value` under `key`, in the place of what was there.
    pub fn insert(&mut self, key: K, value: V)
        ensures
            final(self)@ == old(self)@.insert(key@, value),
            final(self).key_seq() == (if old(self)@.contains_key(key@) {
                old(self).key_seq()
            } else {
                old(self).key_seq().push(key@)
            }),
    {
        proof {
            use_type_invariant(&*self);
        }
        match self.find(&key) {
            Some(at) => {
                proof {
                    lemma_pair(self.keys@, self.values@, at as int);
                    lemma_update(self.keys@, self.values@, at as int, value);
                }
                self.values[at] = value;
            },
            None => {
                let mut whole = Table::new();
                std::mem::swap(&mut whole, self);
                let Table { mut keys, mut values } = whole;
                proof {
                    lemma_push(keys@, values@, key, value);
                    assert(key_views(keys@.push(key)) =~= key_views(keys@).push(key@));
                }
                keys.push(key);
                values.push(value);
                *self = Table { keys, values };
            },
        }
    }

    /// Takes the value under `key` out.
    pub fn remove(&mut self, key: &K) -> (r: Option<V>)
        ensures
            final(self)@ == old(self)@.remove(key@),
            match r {
                Some(v) => old(self)@.contains_key(key@) && v == old(self)@[key@],
                None => !old(self)@.contains_key(key@),
            },
    {
        proof {
            use_type_invariant(&*self);
        }
        let at: usize = match self.find(key) {
            Some(at) => at,
            None => {
                assert(self@.remove(key@) =~= self@);
                return None;
            },
        };
        let mut whole = Table::new();
        std::mem::swap(&mut whole, self);
        let Table { mut keys, mut values } = whole;
        proof {
            lemma_pair(keys@, values@, at as int);
            lemma_remove(keys@, values@, at as int);
        }
        keys.remove(at);
        let value = values.remove(at);
        *self = Table { keys, values };
        Some(value)
    }

    /// The value under `key`, to be changed in place.
    pub fn get_mut(&mut self, key: &K) -> (r: &mut V)
        requires
            old(self)@.contains_key(key@),
        ensures
            *r == old(self)@[key@],
            final(self)@ == old(self)@.insert(key@, *final(r)),
    {
        proof {
            use_type_invariant(&*self);
        }
        let at: usize = match self.find(key) {
            Some(at) => at,
            None => 0,
        };
        proof {
            lemma_pair(self.keys@, self.values@, at as int);
            assert forall|v: V|
                #![trigger self.values@.update(at as int, v)]
                as_map(self.keys@, self.values@.update(at as int, v)) == self@.insert(
                    key@,
                    v,
                ) by {
                lemma_update(self.keys@, self.values@, at as int, v);
            }
        }
        &mut self.values[at]
    }

    /// How many keys there are, each of them once.
    pub fn len(&self) -> (r: usize)
        ensures
            r == self.key_seq().len(),
            self.key_seq().no_duplicates(),
    {
        proof {
            use_type_invariant(self);
        }
        self.keys.len()
    }

    /// The key at a position.
    pub fn key_at(&self, at: usize) -> (r: &K)
        requires
            at < self.key_seq().len(),
        ensures
            r@ == self.key_seq()[at as int],
            self@.contains_key(r@),
    {
        proof {
            use_type_invariant(self);
            lemma_pair(self.keys@, self.values@, at as int);
        }
        &self.keys[at]
    }
}

impl<K: Key, V: Clone> Clone for Table<K, V> {
    /// The same keys in the same order, with a clone of each value.
    fn clone(&self) -> (r: Table<K, V>)
        ensures
            r.key_seq() == self.key_seq(),
            r@.dom() == self@.dom(),
            forall|key: K::V| #[trigger] self@.contains_key(key) ==> cloned(self@[key], r@[key]),
    {
        proof {
            use_type_invariant(self);
        }
        let mut keys: Vec<K> = Vec::new();
        let mut values: Vec<V> = Vec::new();
        let mut i: usize = 0;
        while i < self.keys.len()
            invariant
                self.keys@.len() == self.values@.len(),
                i <= self.keys@.len(),
                keys@.len() == i,
                values@.len() == i,
                forall|j: int| 0 <= j < i ==> (#[trigger] keys@[j])@ == self.keys@[j]@,
                forall|j: int| 0 <= j < i ==> cloned(self.values@[j], #[trigger] values@[j]),
            decreases self.keys@.len() - i,
        {
            keys.push(self.keys[i].again());
            values.push(self.values[i].clone());
            i += 1;
        }
        proof {
            assert(key_views(keys@) =~= key_views(self.keys@));
            assert forall|key: K::V| #[trigger] self@.contains_key(key) implies cloned(
                self@[key],
                as_map(keys@, values@)[key],
            ) by {
                let at = lemma_holds(self.keys@, self.values@, key);
                lemma_pair(keys@, values@, at);
                assert(cloned(self.values@[at], values@[at]));
            }
            assert(as_map(keys@, values@).dom() =~= self@.dom());
        }
        Table { keys, values }
    }
}

} // verus!
