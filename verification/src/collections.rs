//! Small keyed collections for the session: a map and a set whose keys are a
//! connection address, an address with a database name, or an address with a
//! database and a collection name.
//!
//! A [`KeyMap`] is viewed as a `Map` from the keys' models to the values, a
//! [`KeySet`] as a `Set` of the keys' models. Every key lies under one
//! connection address, its root, and a collection can drop at once all that
//! lies under one root.

use vstd::prelude::*;
use crate::text::same_text;

verus! {

/// A key of a session collection.
pub trait Key: Sized {
    /// The mathematical value that the key stands for.
    type Model;

    spec fn model(&self) -> Self::Model;

    /// The connection address that a key lies under.
    spec fn root(m: Self::Model) -> Seq<char>;

    /// Whether two keys stand for the same value.
    fn same_key(&self, other: &Self) -> (b: bool)
        ensures
            b == (self.model() == other.model()),
    ;

    /// Whether the key lies under the connection address `uri`.
    fn has_root(&self, uri: &str) -> (b: bool)
        ensures
            b == (Self::root(self.model()) == uri@),
    ;
}

impl Key for String {
    type Model = Seq<char>;

    open spec fn model(&self) -> Seq<char> {
        self@
    }

    open spec fn root(m: Seq<char>) -> Seq<char> {
        m
    }

    fn same_key(&self, other: &String) -> (b: bool) {
        *self == *other
    }

    fn has_root(&self, uri: &str) -> (b: bool) {
        same_text(self.as_str(), uri)
    }
}

impl Key for (String, String) {
    type Model = (Seq<char>, Seq<char>);

    open spec fn model(&self) -> (Seq<char>, Seq<char>) {
        (self.0@, self.1@)
    }

    open spec fn root(m: (Seq<char>, Seq<char>)) -> Seq<char> {
        m.0
    }

    fn same_key(&self, other: &(String, String)) -> (b: bool) {
        self.0 == other.0 && self.1 == other.1
    }

    fn has_root(&self, uri: &str) -> (b: bool) {
        same_text(self.0.as_str(), uri)
    }
}

impl Key for (String, String, String) {
    type Model = (Seq<char>, Seq<char>, Seq<char>);

    open spec fn model(&self) -> (Seq<char>, Seq<char>, Seq<char>) {
        (self.0@, self.1@, self.2@)
    }

    open spec fn root(m: (Seq<char>, Seq<char>, Seq<char>)) -> Seq<char> {
        m.0
    }

    fn same_key(&self, other: &(String, String, String)) -> (b: bool) {
        self.0 == other.0 && self.1 == other.1 && self.2 == other.2
    }

    fn has_root(&self, uri: &str) -> (b: bool) {
        same_text(self.0.as_str(), uri)
    }
}

/// The first position at or after `from` whose key stands for `m`, or the
/// length of `entries` where there is none.
pub open spec fn entry_position<K: Key, V>(entries: Seq<(K, V)>, m: K::Model, from: int) -> int
    decreases entries.len() - from,
{
    if 0 <= from < entries.len() && entries[from].0.model() != m {
        entry_position(entries, m, from + 1)
    } else {
        from
    }
}

/// The map that a list of entries stands for: each key with the value of its
/// first entry.
pub open spec fn entries_map<K: Key, V>(entries: Seq<(K, V)>) -> Map<K::Model, V> {
    Map::new(
        |m: K::Model| entry_position(entries, m, 0) < entries.len(),
        |m: K::Model| entries[entry_position(entries, m, 0)].1,
    )
}

proof fn lemma_entry_position<K: Key, V>(entries: Seq<(K, V)>, m: K::Model, from: int)
    requires
        0 <= from <= entries.len(),
    ensures
        from <= entry_position(entries, m, from) <= entries.len(),
        entry_position(entries, m, from) < entries.len() ==> entries[entry_position(
            entries,
            m,
            from,
        )].0.model() == m,
        forall|j: int|
            from <= j < entry_position(entries, m, from) ==> (#[trigger] entries[j]).0.model() != m,
    decreases entries.len() - from,
{
    if from < entries.len() && entries[from].0.model() != m {
        lemma_entry_position(entries, m, from + 1);
    }
}

/// A position that holds the first entry for `m`, or the length where no entry
/// is for `m`, is the one that `entry_position` finds.
proof fn lemma_entry_position_is<K: Key, V>(entries: Seq<(K, V)>, m: K::Model, r: int)
    requires
        0 <= r <= entries.len(),
        r < entries.len() ==> entries[r].0.model() == m,
        forall|j: int| 0 <= j < r ==> (#[trigger] entries[j]).0.model() != m,
    ensures
        entry_position(entries, m, 0) == r,
{
    lemma_entry_position(entries, m, 0);
    let p = entry_position(entries, m, 0);
    if p < r {
        assert(entries[p].0.model() != m);
    } else if p > r {
        assert(entries[r].0.model() != m);
    }
}

/// What is dropped from a collection: one key, or all that lies under one
/// connection address.
pub enum Dropped<K: Key> {
    Key(K::Model),
    Root(Seq<char>),
}

impl<K: Key> Dropped<K> {
    /// Whether the key that stands for `m` is dropped.
    pub open spec fn hits(self, m: K::Model) -> bool {
        match self {
            Dropped::Key(k) => m == k,
            Dropped::Root(uri) => K::root(m) == uri,
        }
    }
}

/// `map` without the keys that `dropped` hits.
pub open spec fn map_without<K: Key, V>(map: Map<K::Model, V>, dropped: Dropped<K>) -> Map<
    K::Model,
    V,
> {
    Map::new(|m: K::Model| map.dom().contains(m) && !dropped.hits(m), |m: K::Model| map[m])
}

/// `set` without the keys that `dropped` hits.
pub open spec fn set_without<K: Key>(set: Set<K::Model>, dropped: Dropped<K>) -> Set<K::Model> {
    Set::new(|m: K::Model| set.contains(m) && !dropped.hits(m))
}

/// A map from keys to values, kept as a list of entries.
pub struct KeyMap<K, V> {
    entries: Vec<(K, V)>,
}

impl<K: Key, V> View for KeyMap<K, V> {
    type V = Map<K::Model, V>;

    closed spec fn view(&self) -> Map<K::Model, V> {
        entries_map(self.entries@)
    }
}

impl<K: Key, V> KeyMap<K, V> {
    /// The empty map.
    pub fn new() -> (m: KeyMap<K, V>)
        ensures
            m@ == Map::<K::Model, V>::empty(),
    {
        let m = KeyMap { entries: Vec::new() };
        proof {
            assert(m@ =~= Map::<K::Model, V>::empty());
        }
        m
    }

    fn find(&self, key: &K) -> (i: usize)
        ensures
            i == entry_position(self.entries@, key.model(), 0),
            i <= self.entries.len(),
    {
        let mut i: usize = 0;
        while i < self.entries.len() && !self.entries[i].0.same_key(key)
            invariant
                0 <= i <= self.entries.len(),
                entry_position(self.entries@, key.model(), i as int) == entry_position(
                    self.entries@,
                    key.model(),
                    0,
                ),
            decreases self.entries.len() - i,
        {
            i += 1;
        }
        i
    }

    /// Whether the map has `key`.
    pub fn contains_key(&self, key: &K) -> (b: bool)
        ensures
            b == self@.dom().contains(key.model()),
    {
        self.find(key) < self.entries.len()
    }

    /// The value of `key`.
    pub fn get(&self, key: &K) -> (r: Option<&V>)
        ensures
            match r {
                Some(v) => self@.dom().contains(key.model()) && self@[key.model()] == *v,
                None => !self@.dom().contains(key.model()),
            },
    {
        let i = self.find(key);
        if i < self.entries.len() {
            Some(&self.entries[i].1)
        } else {
            None
        }
    }

    /// Gives `key` the value `value`.
    pub fn insert(&mut self, key: K, value: V)
        ensures
            final(self)@ == old(self)@.insert(key.model(), value),
    {
        let i = self.find(&key);
        let ghost before = self.entries@;
        let ghost k = key.model();
        proof {
            lemma_entry_position(before, k, 0);
        }
        if i < self.entries.len() {
            self.entries.set(i, (key, value));
        } else {
            self.entries.push((key, value));
        }
        proof {
            let after = self.entries@;
            assert forall|m: K::Model|
                entry_position(after, m, 0) < after.len() <==> (m == k || entry_position(
                    before,
                    m,
                    0,
                ) < before.len()) by {
                lemma_entry_position(before, m, 0);
                let p = entry_position(before, m, 0);
                if m == k {
                    lemma_entry_position_is(after, m, i as int);
                } else if p < before.len() {
                    lemma_entry_position_is(after, m, p);
                } else {
                    lemma_entry_position_is(after, m, after.len() as int);
                }
            }
            assert forall|m: K::Model| entry_position(after, m, 0) < after.len() implies after[entry_position(
                after,
                m,
                0,
            )].1 == (if m == k {
                value
            } else {
                before[entry_position(before, m, 0)].1
            }) by {
                lemma_entry_position(before, m, 0);
                let p = entry_position(before, m, 0);
                if m == k {
                    lemma_entry_position_is(after, m, i as int);
                } else if p < before.len() {
                    lemma_entry_position_is(after, m, p);
                } else {
                    lemma_entry_position_is(after, m, after.len() as int);
                }
            }
            assert(self@ =~= entries_map(before).insert(k, value));
        }
    }

    fn drop_hits(&mut self, key: Option<&K>, uri: &str, dropped: Ghost<Dropped<K>>)
        requires
            match key {
                Some(k) => dropped@ == Dropped::<K>::Key(k.model()),
                None => dropped@ == Dropped::<K>::Root(uri@),
            },
        ensures
            final(self)@ == map_without(old(self)@, dropped@),
    {
        let ghost orig = self.entries@;
        let mut i: usize = 0;
        while i < self.entries.len()
            invariant
                0 <= i <= self.entries.len(),
                match key {
                    Some(k) => dropped@ == Dropped::<K>::Key(k.model()),
                    None => dropped@ == Dropped::<K>::Root(uri@),
                },
                forall|j: int| 0 <= j < i ==> !dropped@.hits((#[trigger] self.entries@[j]).0.model()),
                forall|m: K::Model|
                    !dropped@.hits(m) ==> (#[trigger] entry_position(self.entries@, m, 0)
                        < self.entries@.len() <==> entry_position(orig, m, 0) < orig.len()),
                forall|m: K::Model|
                    !dropped@.hits(m) && #[trigger] entry_position(self.entries@, m, 0)
                        < self.entries@.len() ==> self.entries@[entry_position(
                        self.entries@,
                        m,
                        0,
                    )].1 == orig[entry_position(orig, m, 0)].1,
            decreases self.entries.len() - i,
        {
            let hit = match key {
                Some(k) => self.entries[i].0.same_key(k),
                None => self.entries[i].0.has_root(uri),
            };
            if hit {
                let ghost before = self.entries@;
                self.entries.remove(i);
                proof {
                    let after = self.entries@;
                    assert forall|m: K::Model| !dropped@.hits(m) implies (entry_position(
                        after,
                        m,
                        0,
                    ) < after.len() <==> entry_position(before, m, 0) < before.len()) && (
                    entry_position(after, m, 0) < after.len() ==> after[entry_position(
                        after,
                        m,
                        0,
                    )].1 == before[entry_position(before, m, 0)].1) by {
                        lemma_entry_position(before, m, 0);
                        let p = entry_position(before, m, 0);
                        if p < i {
                            lemma_entry_position_is(after, m, p);
                        } else {
                            assert(p != i);
                            lemma_entry_position_is(after, m, p - 1);
                        }
                    }
                }
            } else {
                i += 1;
            }
        }
        proof {
            let after = self.entries@;
            assert forall|m: K::Model| dropped@.hits(m) implies !(entry_position(after, m, 0)
                < after.len()) by {
                lemma_entry_position(after, m, 0);
            }
            assert(self@ =~= map_without(entries_map(orig), dropped@));
        }
    }

    /// Removes `key`.
    pub fn remove(&mut self, key: &K)
        ensures
            final(self)@ == old(self)@.remove(key.model()),
    {
        self.drop_hits(Some(key), "", Ghost(Dropped::Key(key.model())));
        proof {
            assert(self@ =~= old(self)@.remove(key.model()));
        }
    }

    /// Removes every key that lies under the connection address `uri`.
    pub fn remove_root(&mut self, uri: &str)
        ensures
            final(self)@ == map_without(old(self)@, Dropped::<K>::Root(uri@)),
    {
        self.drop_hits(None, uri, Ghost(Dropped::Root(uri@)));
    }
}

/// A set of keys.
pub struct KeySet<K> {
    members: KeyMap<K, ()>,
}

impl<K: Key> View for KeySet<K> {
    type V = Set<K::Model>;

    closed spec fn view(&self) -> Set<K::Model> {
        self.members@.dom()
    }
}

impl<K: Key> KeySet<K> {
    /// The empty set.
    pub fn new() -> (s: KeySet<K>)
        ensures
            s@ == Set::<K::Model>::empty(),
    {
        let s = KeySet { members: KeyMap::new() };
        proof {
            assert(s@ =~= Set::<K::Model>::empty());
        }
        s
    }

    /// Whether `key` is in the set.
    pub fn contains(&self, key: &K) -> (b: bool)
        ensures
            b == self@.contains(key.model()),
    {
        self.members.contains_key(key)
    }

    /// Puts `key` into the set.
    pub fn insert(&mut self, key: K)
        ensures
            final(self)@ == old(self)@.insert(key.model()),
    {
        self.members.insert(key, ());
        proof {
            assert(self@ =~= old(self)@.insert(key.model()));
        }
    }

    /// Takes `key` out of the set.
    pub fn remove(&mut self, key: &K)
        ensures
            final(self)@ == old(self)@.remove(key.model()),
    {
        self.members.remove(key);
        proof {
            assert(self@ =~= old(self)@.remove(key.model()));
        }
    }

    /// Takes out every key that lies under the connection address `uri`.
    pub fn remove_root(&mut self, uri: &str)
        ensures
            final(self)@ == set_without(old(self)@, Dropped::<K>::Root(uri@)),
    {
        self.members.remove_root(uri);
        proof {
            assert(self@ =~= set_without(old(self)@, Dropped::<K>::Root(uri@)));
        }
    }
}

} // verus!
