//! An association map from `u128` keys to values, backed by a vector of
//! key-value pairs with pairwise-distinct keys. It plays the role of the
//! persistent key-value collections of the deployment environment, which are
//! out of scope here: the marketplace state holds one such map per record
//! kind.

use vstd::prelude::*;
use vstd::pervasive::VecAdditionalExecFns;

verus! {

/// Pairwise-distinct keys in a sequence of key-value pairs.
pub open spec fn unique_keys<V>(s: Seq<(u128, V)>) -> bool {
    forall|i: int, j: int|
        #![trigger s[i], s[j]]
        0 <= i < j < s.len() ==> s[i].0 != s[j].0
}

/// The map described by a sequence of key-value pairs; later pairs win.
pub open spec fn map_of<V>(s: Seq<(u128, V)>) -> Map<u128, V>
    decreases s.len(),
{
    if s.len() == 0 {
        Map::empty()
    } else {
        map_of(s.drop_last()).insert(s.last().0, s.last().1)
    }
}

/// With pairwise-distinct keys, `map_of` contains exactly the listed keys and
/// maps each one to the value paired with it.
pub proof fn lemma_map_of_props<V>(s: Seq<(u128, V)>)
    requires
        unique_keys(s),
    ensures
        forall|k: u128|
            #[trigger] map_of(s).contains_key(k) <==> exists|i: int| 0 <= i < s.len() && s[i].0 == k,
        forall|i: int| 0 <= i < s.len() ==> map_of(s).contains_key(#[trigger] s[i].0),
        forall|i: int| 0 <= i < s.len() ==> map_of(s)[#[trigger] s[i].0] == s[i].1,
    decreases s.len(),
{
    if s.len() > 0 {
        let s0 = s.drop_last();
        lemma_map_of_props(s0);
        assert forall|k: u128| #[trigger]
            map_of(s).contains_key(k) implies exists|i: int| 0 <= i < s.len() && s[i].0 == k by {
            if k == s.last().0 {
                assert(s[s.len() - 1].0 == k);
            } else {
                assert(map_of(s0).contains_key(k));
                let i = choose|i: int| 0 <= i < s0.len() && s0[i].0 == k;
                assert(s0[i] == s[i]);
                assert(s[i].0 == k);
            }
        }
        assert forall|k: u128| (exists|i: int| 0 <= i < s.len() && s[i].0 == k) implies #[trigger]
            map_of(s).contains_key(k) by {
            let i = choose|i: int| 0 <= i < s.len() && s[i].0 == k;
            if i < s.len() - 1 {
                assert(s0[i].0 == k);
            }
        }
        assert forall|i: int| 0 <= i < s.len() implies map_of(s)[#[trigger] s[i].0] == s[i].1 by {
            if i < s.len() - 1 {
                assert(s[i].0 != s.last().0);
                assert(s0[i] == s[i]);
            }
        }
    }
}

/// Appending a pair with a fresh key inserts it into the described map.
pub proof fn lemma_map_of_push<V>(s: Seq<(u128, V)>, k: u128, v: V)
    ensures
        map_of(s.push((k, v))) == map_of(s).insert(k, v),
{
    assert(s.push((k, v)).drop_last() =~= s);
    assert(s.push((k, v)).last() == (k, v));
}

/// Overwriting the value at an existing key's position updates the described
/// map at that key.
pub proof fn lemma_map_of_update<V>(s: Seq<(u128, V)>, i: int, v: V)
    requires
        unique_keys(s),
        0 <= i < s.len(),
    ensures
        map_of(s.update(i, (s[i].0, v))) == map_of(s).insert(s[i].0, v),
    decreases s.len(),
{
    let k = s[i].0;
    let t = s.update(i, (k, v));
    if i == s.len() - 1 {
        assert(t.drop_last() =~= s.drop_last());
        assert(map_of(s).insert(s.last().0, s.last().1).insert(k, v) =~= map_of(s).insert(k, v))
            by {
            assert(map_of(s) == map_of(s.drop_last()).insert(s.last().0, s.last().1));
        }
        assert(map_of(s.drop_last()).insert(s.last().0, s.last().1).insert(k, v) =~= map_of(
            s.drop_last(),
        ).insert(k, v));
    } else {
        let s0 = s.drop_last();
        lemma_map_of_update(s0, i, v);
        assert(t.drop_last() =~= s0.update(i, (k, v)));
        assert(t.last() == s.last());
        assert(k != s.last().0);
        assert(map_of(s0).insert(k, v).insert(s.last().0, s.last().1) =~= map_of(s0).insert(
            s.last().0,
            s.last().1,
        ).insert(k, v));
    }
}

/// Removing a pair removes its key from the described map.
pub proof fn lemma_map_of_remove<V>(s: Seq<(u128, V)>, i: int)
    requires
        unique_keys(s),
        0 <= i < s.len(),
    ensures
        map_of(s.remove(i)) == map_of(s).remove(s[i].0),
    decreases s.len(),
{
    let k = s[i].0;
    let t = s.remove(i);
    lemma_map_of_props(s);
    if i == s.len() - 1 {
        assert(t =~= s.drop_last());
        assert(!map_of(s.drop_last()).contains_key(k)) by {
            lemma_map_of_props(s.drop_last());
            if map_of(s.drop_last()).contains_key(k) {
                let j = choose|j: int|
                    0 <= j < s.drop_last().len() && s.drop_last()[j].0 == k;
                assert(s[j].0 == k);
            }
        }
        assert(map_of(s.drop_last()).insert(k, s.last().1).remove(k) =~= map_of(s.drop_last()));
    } else {
        let s0 = s.drop_last();
        lemma_map_of_remove(s0, i);
        assert(t.drop_last() =~= s0.remove(i));
        assert(t.last() == s.last());
        assert(k != s.last().0);
        assert(map_of(s0).remove(k).insert(s.last().0, s.last().1) =~= map_of(s0).insert(
            s.last().0,
            s.last().1,
        ).remove(k));
    }
}

/// An association map from `u128` keys to values with pairwise-distinct keys.
pub struct KvMap<V> {
    entries: Vec<(u128, V)>,
}

impl<V> View for KvMap<V> {
    type V = Map<u128, V>;

    closed spec fn view(&self) -> Map<u128, V> {
        map_of(self.entries@)
    }
}

impl<V> KvMap<V> {
    /// The keys, in insertion order.
    pub closed spec fn keys(&self) -> Seq<u128> {
        Seq::new(self.entries@.len(), |i: int| self.entries@[i].0)
    }

    /// Pairwise-distinct keys; constructors establish it and methods keep it.
    pub closed spec fn wf(&self) -> bool {
        unique_keys(self.entries@)
    }

    /// A well-formed map contains exactly the keys that `keys()` lists, each
    /// one once.
    pub proof fn lemma_keys(&self)
        requires
            self.wf(),
        ensures
            self.keys().no_duplicates(),
            forall|k: u128| #[trigger] self@.contains_key(k) <==> self.keys().contains(k),
            forall|i: int|
                0 <= i < self.keys().len() ==> self@.contains_key(#[trigger] self.keys()[i]),
    {
        lemma_map_of_props(self.entries@);
        assert forall|k: u128| #[trigger] self@.contains_key(k) implies self.keys().contains(k) by {
            let i = choose|i: int| 0 <= i < self.entries@.len() && self.entries@[i].0 == k;
            assert(self.keys()[i] == k);
        }
        assert forall|k: u128| self.keys().contains(k) implies #[trigger] self@.contains_key(k) by {
            let i = choose|i: int| 0 <= i < self.keys().len() && self.keys()[i] == k;
            assert(self.entries@[i].0 == k);
        }
    }

    pub fn new() -> (r: Self)
        ensures
            r.wf(),
            r@ == Map::<u128, V>::empty(),
            r.keys() == Seq::<u128>::empty(),
    {
        let r = KvMap { entries: Vec::new() };
        proof {
            assert(r.keys() =~= Seq::<u128>::empty());
        }
        r
    }

    pub fn len(&self) -> (n: usize)
        ensures
            n == self.keys().len(),
    {
        self.entries.len()
    }

    /// The value stored under the key at position `i`.
    pub fn value_at(&self, i: usize) -> (v: &V)
        requires
            self.wf(),
            i < self.keys().len(),
        ensures
            self@.contains_key(self.keys()[i as int]),
            *v == self@[self.keys()[i as int]],
    {
        proof {
            lemma_map_of_props(self.entries@);
        }
        &self.entries[i].1
    }

    #[verifier::loop_isolation(false)]
    pub fn get(&self, key: u128) -> (r: Option<&V>)
        requires
            self.wf(),
        ensures
            match r {
                Some(v) => self@.contains_key(key) && *v == self@[key],
                None => !self@.contains_key(key),
            },
    {
        proof {
            lemma_map_of_props(self.entries@);
        }
        let n = self.entries.len();
        let mut i: usize = 0;
        while i < n
            invariant
                i <= n,
                forall|j: int| 0 <= j < i ==> (#[trigger] self.entries@[j]).0 != key,
            decreases n - i,
        {
            if self.entries[i].0 == key {
                return Some(&self.entries[i].1);
            }
            i = i + 1;
        }
        None
    }

    pub fn contains_key(&self, key: u128) -> (r: bool)
        requires
            self.wf(),
        ensures
            r == self@.contains_key(key),
    {
        self.get(key).is_some()
    }

    /// Removes and returns the value stored under `key`, if any.
    #[verifier::loop_isolation(false)]
    pub fn take(&mut self, key: u128) -> (r: Option<V>)
        requires
            old(self).wf(),
        ensures
            final(self).wf(),
            match r {
                Some(v) => old(self)@.contains_key(key) && v == old(self)@[key] && final(self)@
                    == old(self)@.remove(key),
                None => !old(self)@.contains_key(key) && *final(self) == *old(self),
            },
    {
        proof {
            lemma_map_of_props(self.entries@);
        }
        let n = self.entries.len();
        let mut i: usize = 0;
        while i < n
            invariant
                i <= n,
                *self == *old(self),
                forall|j: int| 0 <= j < i ==> (#[trigger] self.entries@[j]).0 != key,
            decreases n - i,
        {
            if self.entries[i].0 == key {
                proof {
                    lemma_map_of_remove(self.entries@, i as int);
                }
                let pair = self.entries.remove(i);
                proof {
                    assert forall|a: int, b: int|
                        0 <= a < b < self.entries@.len() implies (#[trigger] self.entries@[a]).0
                        != (#[trigger] self.entries@[b]).0 by {
                        let a0: int = if a < i { a } else { a + 1 };
                        let b0: int = if b < i { b } else { b + 1 };
                        assert(self.entries@[a] == old(self).entries@[a0]);
                        assert(self.entries@[b] == old(self).entries@[b0]);
                    }
                }
                return Some(pair.1);
            }
            i = i + 1;
        }
        None
    }

    /// Stores `value` under `key`, replacing any previous value.
    #[verifier::loop_isolation(false)]
    pub fn insert(&mut self, key: u128, value: V)
        requires
            old(self).wf(),
        ensures
            final(self).wf(),
            final(self)@ == old(self)@.insert(key, value),
    {
        let n = self.entries.len();
        let mut i: usize = 0;
        while i < n
            invariant
                i <= n,
                *self == *old(self),
                forall|j: int| 0 <= j < i ==> (#[trigger] self.entries@[j]).0 != key,
            decreases n - i,
        {
            if self.entries[i].0 == key {
                proof {
                    lemma_map_of_update(self.entries@, i as int, value);
                }
                self.entries.set(i, (key, value));
                proof {
                    assert(unique_keys(self.entries@)) by {
                        assert(forall|j: int|
                            0 <= j < self.entries@.len() && j != i ==> #[trigger] self.entries@[j]
                                == old(self).entries@[j]);
                    }
                }
                return ;
            }
            i = i + 1;
        }
        proof {
            lemma_map_of_push(self.entries@, key, value);
        }
        self.entries.push((key, value));
        proof {
            assert(unique_keys(self.entries@)) by {
                assert(forall|j: int|
                    0 <= j < old(self).entries@.len() ==> #[trigger] self.entries@[j] == old(
                        self,
                    ).entries@[j]);
            }
        }
    }
}

} // verus!
