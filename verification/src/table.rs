//! Association tables and ordered collections with mathematical models.

use vstd::prelude::*;

use crate::text::same_text;

verus! {

/// A key whose values can be told apart at run time.
pub trait Key: Sized {
    /// What tells keys apart.
    type Model;

    /// The value that tells this key apart.
    spec fn key(&self) -> Self::Model;

    /// Whether two keys are the same.
    fn same(&self, other: &Self) -> (r: bool)
        ensures
            r == (self.key() == other.key()),
    ;
}

impl Key for u32 {
    type Model = u32;

    open spec fn key(&self) -> u32 {
        *self
    }

    fn same(&self, other: &Self) -> (r: bool) {
        *self == *other
    }
}

impl Key for String {
    type Model = Seq<char>;

    open spec fn key(&self) -> Seq<char> {
        self@
    }

    fn same(&self, other: &Self) -> (r: bool) {
        same_text(self.as_str(), other.as_str())
    }
}

impl<A: Key, B: Key> Key for (A, B) {
    type Model = (A::Model, B::Model);

    open spec fn key(&self) -> (A::Model, B::Model) {
        (self.0.key(), self.1.key())
    }

    fn same(&self, other: &Self) -> (r: bool) {
        self.0.same(&other.0) && self.1.same(&other.1)
    }
}

impl Key for usize {
    type Model = usize;

    open spec fn key(&self) -> usize {
        *self
    }

    fn same(&self, other: &Self) -> (r: bool) {
        *self == *other
    }
}

/// The value that the first entry with this key holds, from `from` on.
pub open spec fn lookup<K: Key, V>(entries: Seq<(K, V)>, key: K::Model, from: int) -> Option<V>
    decreases entries.len() - from,
{
    if from < 0 || from >= entries.len() {
        None
    } else if entries[from].0.key() == key {
        Some(entries[from].1)
    } else {
        lookup(entries, key, from + 1)
    }
}

/// An association list. The first entry of a key counts.
#[derive(Debug)]
pub struct Table<K, V> {
    pub entries: Vec<(K, V)>,
}

impl<K: Key, V> Table<K, V> {
    /// The keys of the table with their values.
    pub open spec fn view(&self) -> Map<K::Model, V> {
        Map::new(
            |k: K::Model| lookup(self.entries@, k, 0) is Some,
            |k: K::Model| lookup(self.entries@, k, 0)->0,
        )
    }

    /// The value under a key.
    pub open spec fn at(&self, key: K::Model) -> Option<V> {
        lookup(self.entries@, key, 0)
    }

    /// The empty table.
    pub fn new() -> (r: Self)
        ensures
            r@ == Map::<K::Model, V>::empty(),
            r.entries@.len() == 0,
    {
        let r = Table { entries: Vec::new() };
        proof {
            assert(r@ =~= Map::<K::Model, V>::empty());
        }
        r
    }

    /// The value under a key.
    pub fn get(&self, key: &K) -> (r: Option<&V>)
        ensures
            match r {
                Some(v) => self.at(key.key()) == Some(*v),
                None => self.at(key.key()) is None,
            },
            match r {
                Some(v) => self@.dom().contains(key.key()) && *v == self@[key.key()],
                None => !self@.dom().contains(key.key()),
            },
    {
        let mut i: usize = 0;
        while i < self.entries.len()
            invariant
                i <= self.entries.len(),
                lookup(self.entries@, key.key(), i as int) == lookup(self.entries@, key.key(), 0),
            decreases self.entries.len() - i,
        {
            if self.entries[i].0.same(key) {
                return Some(&self.entries[i].1);
            }
            i += 1;
        }
        None
    }

    /// Whether the key has an entry.
    pub fn has(&self, key: &K) -> (r: bool)
        ensures
            r == self@.dom().contains(key.key()),
            r == self.at(key.key()) is Some,
    {
        self.get(key).is_some()
    }

    /// Sets the value under a key, in place of an earlier one. Tells whether
    /// there was an earlier one.
    pub fn insert(&mut self, key: K, value: V) -> (r: bool)
        ensures
            final(self)@ == old(self)@.insert(key.key(), value),
            r == old(self)@.dom().contains(key.key()),
    {
        let ghost before = self.entries@;
        let ghost name = key.key();
        let mut i: usize = 0;
        while i < self.entries.len()
            invariant
                i <= self.entries.len(),
                self.entries@ == before,
                before == old(self).entries@,
                name == key.key(),
                lookup(before, name, i as int) == lookup(before, name, 0),
                forall|k: int| 0 <= k < i ==> (#[trigger] before[k]).0.key() != name,
            decreases self.entries.len() - i,
        {
            if self.entries[i].0.same(&key) {
                self.entries.set(i, (key, value));
                proof {
                    assert forall|k: K::Model| lookup(self.entries@, k, 0) == if k == name {
                        Some(value)
                    } else {
                        lookup(before, k, 0)
                    } by {
                        lemma_update(before, self.entries@, i as int, k, 0);
                    }
                    assert(self@ =~= old(self)@.insert(name, value));
                }
                return true;
            }
            i += 1;
        }
        self.entries.push((key, value));
        proof {
            assert forall|k: K::Model| lookup(self.entries@, k, 0) == if k == name {
                Some(value)
            } else {
                lookup(before, k, 0)
            } by {
                lemma_push(before, self.entries@, k, 0);
            }
            assert(self@ =~= old(self)@.insert(name, value));
        }
        false
    }
}

/// Replacing the first entry of a key changes what is found under that key only.
proof fn lemma_update<K: Key, V>(
    before: Seq<(K, V)>,
    after: Seq<(K, V)>,
    at: int,
    k: K::Model,
    from: int,
)
    requires
        0 <= from <= at < before.len(),
        after.len() == before.len(),
        after[at].0.key() == before[at].0.key(),
        forall|i: int| 0 <= i < before.len() && i != at ==> #[trigger] after[i] == before[i],
        forall|i: int| 0 <= i < at ==> (#[trigger] before[i]).0.key() != before[at].0.key(),
    ensures
        lookup(after, k, from) == if k == before[at].0.key() {
            Some(after[at].1)
        } else {
            lookup(before, k, from)
        },
    decreases at - from,
{
    if from < at {
        lemma_update(before, after, at, k, from + 1);
    } else {
        lemma_tail(before, after, k, at + 1);
    }
}

/// Equal tails give equal results.
proof fn lemma_tail<K: Key, V>(
    before: Seq<(K, V)>,
    after: Seq<(K, V)>,
    k: K::Model,
    from: int,
)
    requires
        0 <= from <= before.len(),
        after.len() == before.len(),
        forall|i: int| from <= i < before.len() ==> #[trigger] after[i] == before[i],
    ensures
        lookup(after, k, from) == lookup(before, k, from),
    decreases before.len() - from,
{
    if from < before.len() {
        lemma_tail(before, after, k, from + 1);
    }
}

/// An entry behind all others is seen only where there was none.
proof fn lemma_push<K: Key, V>(
    before: Seq<(K, V)>,
    after: Seq<(K, V)>,
    k: K::Model,
    from: int,
)
    requires
        0 <= from <= before.len(),
        after.len() == before.len() + 1,
        forall|i: int| 0 <= i < before.len() ==> #[trigger] after[i] == before[i],
        forall|i: int|
            0 <= i < before.len() ==> (#[trigger] before[i]).0.key()
                != after[before.len() as int].0.key(),
    ensures
        lookup(after, k, from) == if k == after[before.len() as int].0.key() {
            Some(after[before.len() as int].1)
        } else {
            lookup(before, k, from)
        },
    decreases before.len() - from,
{
    if from < before.len() {
        lemma_push(before, after, k, from + 1);
    } else {
        assert(lookup(after, k, from + 1) == None::<V>);
    }
}

/// Inserting is seen at the inserted key and nowhere else.
pub proof fn lemma_insert_at<K: Key, V>(before: Table<K, V>, after: Table<K, V>, key: K::Model, value: V)
    requires
        after@ == before@.insert(key, value),
    ensures
        forall|k: K::Model| #[trigger]
            after.at(k) == if k == key {
                Some(value)
            } else {
                before.at(k)
            },
{
    assert forall|k: K::Model| #[trigger] after.at(k) == if k == key {
        Some(value)
    } else {
        before.at(k)
    } by {
        assert(after@.dom().contains(k) <==> after.at(k) is Some);
        assert(before@.dom().contains(k) <==> before.at(k) is Some);
        if after.at(k) is Some {
            assert(after@[k] == after.at(k)->0);
        }
        if before.at(k) is Some {
            assert(before@[k] == before.at(k)->0);
        }
        assert(before@.insert(key, value).dom().contains(k) <==> k == key || before@.dom().contains(k));
    }
}

/// A set of texts in the order of their first insertion.
#[derive(Debug)]
pub struct TextSet {
    pub items: Vec<String>,
}

/// The texts with one more, unless it is there already.
pub open spec fn with_text(set: Seq<Seq<char>>, text: Seq<char>) -> Seq<Seq<char>> {
    if set.contains(text) {
        set
    } else {
        set.push(text)
    }
}

impl TextSet {
    /// The texts in the order of their first insertion.
    pub open spec fn view(&self) -> Seq<Seq<char>> {
        crate::text::texts(self.items@)
    }

    /// The empty set.
    pub fn new() -> (r: Self)
        ensures
            r@ == Seq::<Seq<char>>::empty(),
    {
        let r = TextSet { items: Vec::new() };
        proof {
            assert(r@ =~= Seq::<Seq<char>>::empty());
        }
        r
    }

    /// Whether the text is in the set.
    pub fn has(&self, text: &str) -> (r: bool)
        ensures
            r == self@.contains(text@),
    {
        let mut i: usize = 0;
        while i < self.items.len()
            invariant
                i <= self.items.len(),
                forall|k: int| 0 <= k < i ==> #[trigger] self@[k] != text@,
            decreases self.items.len() - i,
        {
            if same_text(self.items[i].as_str(), text) {
                proof {
                    assert(self@[i as int] == text@);
                }
                return true;
            }
            i += 1;
        }
        false
    }

    /// Adds a text. Tells whether it is new.
    pub fn insert(&mut self, text: String) -> (r: bool)
        ensures
            final(self)@ == with_text(old(self)@, text@),
            r == !old(self)@.contains(text@),
    {
        if self.has(text.as_str()) {
            return false;
        }
        self.items.push(text);
        proof {
            assert(self@ =~= old(self)@.push(text@));
        }
        true
    }

    /// The number of texts.
    pub fn len(&self) -> (r: usize)
        ensures
            r == self@.len(),
    {
        self.items.len()
    }
}

/// A set of plain keys.
#[derive(Debug)]
pub struct KeySet<K> {
    pub items: Vec<K>,
}

impl<K: Key> KeySet<K> {
    /// The keys in the set.
    pub open spec fn view(&self) -> Set<K::Model> {
        Set::new(|m: K::Model| exists|i: int| 0 <= i < self.items@.len() && (#[trigger] self.items@[i]).key() == m)
    }

    /// The empty set.
    pub fn new() -> (r: Self)
        ensures
            r@ == Set::<K::Model>::empty(),
            r.items@.len() == 0,
    {
        let r = KeySet { items: Vec::new() };
        proof {
            assert(r@ =~= Set::<K::Model>::empty());
        }
        r
    }

    /// Whether the key is in the set.
    pub fn has(&self, key: &K) -> (r: bool)
        ensures
            r == self@.contains(key.key()),
    {
        let mut i: usize = 0;
        while i < self.items.len()
            invariant
                i <= self.items.len(),
                forall|k: int| 0 <= k < i ==> (#[trigger] self.items@[k]).key() != key.key(),
            decreases self.items.len() - i,
        {
            if self.items[i].same(key) {
                proof {
                    assert(self.items@[i as int].key() == key.key());
                }
                return true;
            }
            i += 1;
        }
        false
    }

    /// Adds a key. Tells whether it is new.
    pub fn insert(&mut self, key: K) -> (r: bool)
        ensures
            final(self)@ == old(self)@.insert(key.key()),
            r == !old(self)@.contains(key.key()),
    {
        if self.has(&key) {
            proof {
                assert(self@ =~= old(self)@.insert(key.key()));
            }
            return false;
        }
        let ghost before = self.items@;
        self.items.push(key);
        proof {
            assert forall|m: K::Model| self@.contains(m) <==> #[trigger] old(self)@.insert(
                key.key(),
            ).contains(m) by {
                if old(self)@.contains(m) {
                    let i = choose|i: int|
                        0 <= i < before.len() && (#[trigger] before[i]).key() == m;
                    assert(self.items@[i].key() == m);
                }
                if m == key.key() {
                    assert(self.items@[before.len() as int].key() == m);
                }
                if self@.contains(m) && m != key.key() {
                    let i = choose|i: int|
                        0 <= i < self.items@.len() && (#[trigger] self.items@[i]).key() == m;
                    assert(before[i].key() == m);
                }
            }
            assert(self@ =~= old(self)@.insert(key.key()));
        }
        true
    }
}

} // verus!
