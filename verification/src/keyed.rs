//! A map kept as a list of entries, each key once, in the order of arrival.

use vstd::prelude::*;

verus! {

/// A key that is compared and copied by its view.
pub trait Key: View + Sized {
    fn same(&self, other: &Self) -> (r: bool)
        ensures
            r == (self@ == other@),
    ;

    fn duplicate(&self) -> (r: Self)
        ensures
            r@ == self@,
    ;
}

impl Key for String {
    fn same(&self, other: &Self) -> (r: bool) {
        *self == *other
    }

    fn duplicate(&self) -> (r: Self) {
        self.clone()
    }
}

impl Key for u128 {
    fn same(&self, other: &Self) -> (r: bool) {
        *self == *other
    }

    fn duplicate(&self) -> (r: Self) {
        *self
    }
}

#[derive(Debug)]
pub struct KeyedMap<K: Key, V> {
    entries: Vec<(K, V)>,
}

/// Whether no two entries carry the same key.
pub open spec fn keys_once<K: Key, V>(entries: Seq<(K, V)>) -> bool {
    forall|i: int, j: int|
        #![trigger entries[i], entries[j]]
        0 <= i < j < entries.len() ==> entries[i].0@ != entries[j].0@
}

/// The position of `key`, or the length where no entry carries it.
pub open spec fn position<K: Key, V>(entries: Seq<(K, V)>, key: K::V) -> int
    decreases entries.len(),
{
    if entries.len() == 0 {
        0
    } else if entries[0].0@ == key {
        0
    } else {
        1 + position(entries.drop_first(), key)
    }
}

/// The entries as a map.
pub open spec fn entry_map<K: Key, V>(entries: Seq<(K, V)>) -> Map<K::V, V> {
    Map::new(
        |key: K::V| position(entries, key) < entries.len(),
        |key: K::V| entries[position(entries, key)].1,
    )
}

pub proof fn lemma_position<K: Key, V>(entries: Seq<(K, V)>, key: K::V, at: int)
    requires
        0 <= at <= entries.len(),
        forall|k: int| 0 <= k < at ==> (#[trigger] entries[k]).0@ != key,
        at < entries.len() ==> entries[at].0@ == key,
    ensures
        position(entries, key) == at,
    decreases entries.len(),
{
    if entries.len() > 0 && at > 0 {
        assert(entries[0].0@ != key);
        let rest = entries.drop_first();
        assert forall|k: int| 0 <= k < at - 1 implies (#[trigger] rest[k]).0@ != key by {
            assert(rest[k] == entries[k + 1]);
        }
        lemma_position(rest, key, at - 1);
    }
}

pub proof fn lemma_position_bounds<K: Key, V>(entries: Seq<(K, V)>, key: K::V)
    ensures
        0 <= position(entries, key) <= entries.len(),
        position(entries, key) < entries.len() ==> entries[position(entries, key)].0@ == key,
        forall|k: int| 0 <= k < position(entries, key) ==> (#[trigger] entries[k]).0@ != key,
    decreases entries.len(),
{
    if entries.len() > 0 && entries[0].0@ != key {
        let rest = entries.drop_first();
        lemma_position_bounds(rest, key);
        assert forall|k: int| 0 <= k < position(entries, key) implies (#[trigger] entries[k]).0@
            != key by {
            if k > 0 {
                assert(rest[k - 1] == entries[k]);
            }
        }
    }
}

/// What `push` does to the map where the key is new.
pub proof fn lemma_pushed<K: Key, V>(entries: Seq<(K, V)>, key: K, value: V)
    requires
        keys_once(entries),
        position(entries, key@) == entries.len(),
    ensures
        keys_once(entries.push((key, value))),
        entry_map(entries.push((key, value))) == entry_map(entries).insert(key@, value),
{
    let pushed = entries.push((key, value));
    lemma_position_bounds(entries, key@);
    assert forall|k: K::V| #[trigger] position(pushed, k) == if k == key@ {
        entries.len() as int
    } else if position(entries, k) < entries.len() {
        position(entries, k)
    } else {
        entries.len() as int + 1
    } by {
        lemma_position_bounds(entries, k);
        if k == key@ {
            lemma_position(pushed, k, entries.len() as int);
        } else if position(entries, k) < entries.len() {
            lemma_position(pushed, k, position(entries, k));
        } else {
            lemma_position(pushed, k, entries.len() as int + 1);
        }
    }
    assert(entry_map(pushed) =~= entry_map(entries).insert(key@, value)) by {
        assert forall|k: K::V| entry_map(pushed).contains_key(k) == entry_map(entries).insert(
            key@,
            value,
        ).contains_key(k) by {
            lemma_position_bounds(entries, k);
        }
        assert forall|k: K::V| entry_map(pushed).contains_key(k) implies entry_map(pushed)[k]
            == entry_map(entries).insert(key@, value)[k] by {
            lemma_position_bounds(entries, k);
        }
    }
}

/// What writing over the value at a position does to the map.
pub proof fn lemma_written<K: Key, V>(entries: Seq<(K, V)>, at: int, key: K, value: V)
    requires
        keys_once(entries),
        0 <= at < entries.len(),
        entries[at].0@ == key@,
    ensures
        keys_once(entries.update(at, (key, value))),
        entry_map(entries.update(at, (key, value))) == entry_map(entries).insert(key@, value),
{
    let written = entries.update(at, (key, value));
    assert forall|k: K::V| #[trigger] position(written, k) == position(entries, k) by {
        lemma_position_bounds(entries, k);
        lemma_position(written, k, position(entries, k));
    }
    lemma_position(entries, key@, at);
    assert(entry_map(written) =~= entry_map(entries).insert(key@, value)) by {
        assert forall|k: K::V| entry_map(written).contains_key(k) implies entry_map(written)[k]
            == entry_map(entries).insert(key@, value)[k] by {
            lemma_position_bounds(entries, k);
        }
    }
}

/// What taking an entry out does to the map.
pub proof fn lemma_removed<K: Key, V>(entries: Seq<(K, V)>, at: int)
    requires
        keys_once(entries),
        0 <= at < entries.len(),
    ensures
        keys_once(entries.remove(at)),
        entry_map(entries.remove(at)) == entry_map(entries).remove(entries[at].0@),
{
    let left = entries.remove(at);
    let key = entries[at].0@;
    assert forall|i: int, j: int|
        #![trigger left[i], left[j]]
        0 <= i < j < left.len() implies left[i].0@ != left[j].0@ by {
        let a = if i < at { i } else { i + 1 };
        let b = if j < at { j } else { j + 1 };
        assert(left[i] == entries[a]);
        assert(left[j] == entries[b]);
    }
    assert forall|k: K::V| #[trigger] position(left, k) == if k == key {
        left.len() as int
    } else if position(entries, k) < at {
        position(entries, k)
    } else {
        position(entries, k) - 1
    } by {
        lemma_position_bounds(entries, k);
        let p = position(entries, k);
        if k == key {
            lemma_position(entries, k, at);
            assert forall|i: int| 0 <= i < left.len() implies (#[trigger] left[i]).0@ != k by {
                let a = if i < at { i } else { i + 1 };
                assert(left[i] == entries[a]);
            }
            lemma_position(left, k, left.len() as int);
        } else if p < at {
            lemma_position(left, k, p);
        } else {
            assert(p != at);
            assert forall|i: int| 0 <= i < p - 1 implies (#[trigger] left[i]).0@ != k by {
                let a = if i < at { i } else { i + 1 };
                assert(left[i] == entries[a]);
            }
            lemma_position(left, k, p - 1);
        }
    }
    assert(entry_map(left) =~= entry_map(entries).remove(key)) by {
        assert forall|k: K::V| entry_map(left).contains_key(k) == entry_map(entries).remove(
            key,
        ).contains_key(k) by {
            lemma_position_bounds(entries, k);
        }
        assert forall|k: K::V| entry_map(left).contains_key(k) implies entry_map(left)[k]
            == entry_map(entries).remove(key)[k] by {
            lemma_position_bounds(entries, k);
        }
    }
}

/// The map has as many keys as there are entries.
pub proof fn lemma_size<K: Key, V>(entries: Seq<(K, V)>)
    requires
        keys_once(entries),
    ensures
        entry_map(entries).dom().finite(),
        entry_map(entries).dom().len() == entries.len(),
    decreases entries.len(),
{
    if entries.len() == 0 {
        assert(entry_map(entries).dom() =~= Set::<K::V>::empty());
    } else {
        let rest = entries.drop_last();
        let (key, value) = entries.last();
        lemma_size(rest);
        assert forall|k: int| 0 <= k < rest.len() implies (#[trigger] rest[k]).0@ != key@ by {
            assert(rest[k] == entries[k]);
        }
        lemma_position(rest, key@, rest.len() as int);
        lemma_pushed(rest, key, value);
        assert(rest.push((key, value)) =~= entries);
        assert(!entry_map(rest).dom().contains(key@));
        assert(entry_map(entries).dom() =~= entry_map(rest).dom().insert(key@));
    }
}

impl<K: Key, V> View for KeyedMap<K, V> {
    type V = Map<K::V, V>;

    closed spec fn view(&self) -> Map<K::V, V> {
        entry_map(self.entries@)
    }
}

impl<K: Key, V> KeyedMap<K, V> {
    #[verifier::type_invariant]
    closed spec fn inv(self) -> bool {
        keys_once(self.entries@)
    }

    /// The entries in the order in which their keys came.
    pub closed spec fn listed(self) -> Seq<(K, V)> {
        self.entries@
    }

    pub fn new() -> (r: Self)
        ensures
            r@ == Map::<K::V, V>::empty(),
            r.listed() == Seq::<(K, V)>::empty(),
    {
        let r = KeyedMap { entries: Vec::new() };
        assert(entry_map(r.entries@) =~= Map::<K::V, V>::empty());
        r
    }

    /// The list of entries holds the map, each key once.
    pub proof fn lemma_listed(&self)
        requires
            keys_once(self.listed()),
        ensures
            self@ == entry_map(self.listed()),
            forall|i: int|
                0 <= i < self.listed().len() ==> {
                    let (k, v) = #[trigger] self.listed()[i];
                    self@.contains_key(k@) && self@[k@] == v
                },
    {
        assert forall|i: int| 0 <= i < self.listed().len() implies {
            let (k, v) = #[trigger] self.listed()[i];
            self@.contains_key(k@) && self@[k@] == v
        } by {
            lemma_position(self.entries@, self.entries@[i].0@, i);
        }
    }

    /// The map has as many keys as entries are listed, which a machine word can count.
    pub proof fn lemma_listed_size(&self)
        requires
            keys_once(self.listed()),
        ensures
            self@.dom().finite(),
            self@.dom().len() == self.listed().len(),
            self.listed().len() <= usize::MAX,
    {
        lemma_size(self.entries@);
        assert(self.entries.len() == self.entries@.len());
    }

    /// A key is in the map where an entry lists it, with the value listed.
    pub proof fn lemma_listed_key(&self, key: K::V)
        requires
            keys_once(self.listed()),
        ensures
            self@.dom().contains(key) <==> exists|i: int|
                0 <= i < self.listed().len() && (#[trigger] self.listed()[i]).0@ == key,
            forall|i: int|
                0 <= i < self.listed().len() && (#[trigger] self.listed()[i]).0@ == key
                    ==> self@[key] == self.listed()[i].1,
    {
        self.lemma_listed();
        lemma_position_bounds(self.listed(), key);
    }

    fn find(&self, key: &K) -> (at: usize)
        ensures
            at as int == position(self.entries@, key@),
            at <= self.entries@.len(),
            at < self.entries@.len() ==> self.entries@[at as int].0@ == key@,
    {
        let mut i: usize = 0;
        while i < self.entries.len()
            invariant
                i <= self.entries.len(),
                forall|k: int| 0 <= k < i ==> (#[trigger] self.entries@[k]).0@ != key@,
            decreases self.entries.len() - i,
        {
            if self.entries[i].0.same(key) {
                proof {
                    lemma_position(self.entries@, key@, i as int);
                }
                return i;
            }
            i = i + 1;
        }
        proof {
            lemma_position(self.entries@, key@, i as int);
        }
        i
    }

    pub fn contains_key(&self, key: &K) -> (r: bool)
        ensures
            r == self@.contains_key(key@),
    {
        self.find(key) < self.entries.len()
    }

    pub fn get(&self, key: &K) -> (r: Option<&V>)
        ensures
            match r {
                Some(v) => self@.contains_key(key@) && self@[key@] == *v,
                None => !self@.contains_key(key@),
            },
    {
        let at: usize = self.find(key);
        if at < self.entries.len() {
            Some(&self.entries[at].1)
        } else {
            None
        }
    }

    pub fn insert(&mut self, key: K, value: V)
        ensures
            final(self)@ == old(self)@.insert(key@, value),
    {
        proof {
            use_type_invariant(&*self);
        }
        let at: usize = self.find(&key);
        let mut entries: Vec<(K, V)> = Vec::new();
        core::mem::swap(&mut self.entries, &mut entries);
        if at < entries.len() {
            proof {
                lemma_written(entries@, at as int, key, value);
            }
            entries.set(at, (key, value));
        } else {
            proof {
                lemma_pushed(entries@, key, value);
            }
            entries.push((key, value));
        }
        self.entries = entries;
    }

    /// Takes the entry of `key` out and gives its value back.
    pub fn remove(&mut self, key: &K) -> (r: Option<V>)
        ensures
            final(self)@ == old(self)@.remove(key@),
            match r {
                Some(v) => old(self)@.contains_key(key@) && old(self)@[key@] == v,
                None => !old(self)@.contains_key(key@),
            },
    {
        proof {
            use_type_invariant(&*self);
        }
        let at: usize = self.find(key);
        if at < self.entries.len() {
            let mut entries: Vec<(K, V)> = Vec::new();
            core::mem::swap(&mut self.entries, &mut entries);
            proof {
                lemma_removed(entries@, at as int);
            }
            let (_, value) = entries.remove(at);
            self.entries = entries;
            Some(value)
        } else {
            assert(self@.remove(key@) =~= self@);
            None
        }
    }

    pub fn clear(&mut self)
        ensures
            final(self)@ == Map::<K::V, V>::empty(),
    {
        self.entries = Vec::new();
        assert(entry_map(self.entries@) =~= Map::<K::V, V>::empty());
    }

    pub fn is_empty(&self) -> (r: bool)
        ensures
            r == (self@ == Map::<K::V, V>::empty()),
    {
        if self.entries.len() == 0 {
            assert(self@ =~= Map::<K::V, V>::empty());
            true
        } else {
            proof {
                let key = self.entries@[0].0@;
                assert(self@.contains_key(key));
            }
            false
        }
    }

    /// The number of entries.
    pub fn count(&self) -> (n: usize)
        ensures
            n == self.listed().len(),
            keys_once(self.listed()),
            self@.dom().finite(),
            n == self@.dom().len(),
    {
        proof {
            use_type_invariant(self);
            lemma_size(self.entries@);
        }
        self.entries.len()
    }

    /// The entry at a position of the list.
    pub fn entry(&self, at: usize) -> (r: (&K, &V))
        requires
            at < self.listed().len(),
        ensures
            *r.0 == self.listed()[at as int].0,
            *r.1 == self.listed()[at as int].1,
            self@.contains_key(r.0@),
            self@[r.0@] == *r.1,
    {
        proof {
            use_type_invariant(self);
            lemma_position(self.entries@, self.entries@[at as int].0@, at as int);
        }
        (&self.entries[at].0, &self.entries[at].1)
    }
}

} // verus!
