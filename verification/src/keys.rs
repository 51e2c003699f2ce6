//! Keys that can be told apart and hashed, and maps from them.
use std::collections::hash_map::DefaultHasher;
use std::hash::Hash;
use std::hash::Hasher;
use vstd::prelude::*;
use vstd::std_specs::hash::DefaultHasherAdditionalSpecFns;

verus! {

/// What `str::hash` feeds to a hasher for a text.
pub uninterp spec fn str_writes(text: Seq<char>) -> Seq<Seq<u8>>;

/// Calls `str::hash` with the standard library's default hasher. What it
/// feeds to the hasher comes after what the hasher was fed before, and
/// depends on the text alone.
#[verifier::external_body]
fn feed_str(text: &str, hasher: &mut DefaultHasher)
    ensures
        final(hasher)@ == old(hasher)@ + str_writes(text@),
{
    text.hash(hasher);
}

/// What `DefaultHasher` makes of a text.
pub open spec fn str_hash(text: Seq<char>) -> u64 {
    DefaultHasher::spec_finish(str_writes(text))
}

/// A key by which an actor is found. Two keys that are the same have the same
/// hash.
pub trait RegistryKey: Sized {
    /// What a key is known by.
    type Ident;

    spec fn ident(&self) -> Self::Ident;

    /// The hash of the key that is known by `ident`.
    spec fn ident_hash(ident: Self::Ident) -> u64;

    /// Whether the two are the same key.
    fn is_same(&self, other: &Self) -> (same: bool)
        ensures
            same == (self.ident() == other.ident()),
    ;

    /// The hash of the key.
    fn key_hash(&self) -> (hash: u64)
        ensures
            hash == Self::ident_hash(self.ident()),
    ;

    /// The same key once more.
    fn duplicate(&self) -> (copy: Self)
        ensures
            copy.ident() == self.ident(),
    ;
}

impl RegistryKey for String {
    type Ident = Seq<char>;

    open spec fn ident(&self) -> Seq<char> {
        self@
    }

    open spec fn ident_hash(ident: Seq<char>) -> u64 {
        str_hash(ident)
    }

    fn is_same(&self, other: &Self) -> (same: bool) {
        *self == *other
    }

    fn key_hash(&self) -> (hash: u64) {
        let mut hasher = DefaultHasher::new();
        feed_str(self.as_str(), &mut hasher);
        assert(hasher@ =~= str_writes(self@));
        hasher.finish()
    }

    fn duplicate(&self) -> (copy: Self) {
        self.clone()
    }
}

/// `values` are the values of `map`, each once, in the order of the keys that
/// `order` lists.
pub open spec fn lists<I, V>(order: Seq<I>, values: Seq<V>, map: Map<I, V>) -> bool {
    &&& order.no_duplicates()
    &&& order.len() == values.len()
    &&& forall|ident: I| map.contains_key(ident) <==> #[trigger] order.contains(ident)
    &&& forall|i: int| 0 <= i < order.len() ==> map[#[trigger] order[i]] == values[i]
}

/// `values` are the values of `map`, each once, in some order.
pub open spec fn is_listing<I, V>(values: Seq<V>, map: Map<I, V>) -> bool {
    exists|order: Seq<I>| lists(order, values, map)
}

/// What is listed backwards is listed.
proof fn lemma_backwards<I, V>(values: Seq<V>, map: Map<I, V>)
    requires
        is_listing(values.reverse(), map),
    ensures
        is_listing(values, map),
{
    let order = choose|order: Seq<I>| lists(order, values.reverse(), map);
    let back = order.reverse();
    assert forall|ident: I| map.contains_key(ident) <==> #[trigger] back.contains(ident) by {
        if order.contains(ident) {
            let i = choose|i: int| 0 <= i < order.len() && order[i] == ident;
            assert(back[order.len() - 1 - i] == ident);
        }
        if back.contains(ident) {
            let i = choose|i: int| 0 <= i < back.len() && back[i] == ident;
            assert(order[order.len() - 1 - i] == ident);
        }
    }
    assert forall|i: int| 0 <= i < back.len() implies map[#[trigger] back[i]] == values[i] by {
        assert(back[i] == order[order.len() - 1 - i]);
    }
    assert(lists(back, values, map));
}

/// One key of a map, with its value.
struct Entry<K, V> {
    key: K,
    value: V,
}

/// A map from keys. Its view maps what the keys are known by.
pub struct KeyMap<K, V> {
    entries: Vec<Entry<K, V>>,
}

impl<K: RegistryKey, V> View for KeyMap<K, V> {
    type V = Map<K::Ident, V>;

    closed spec fn view(&self) -> Map<K::Ident, V> {
        Map::new(
            |ident: K::Ident| exists|i: int| self.is_at(ident, i),
            |ident: K::Ident| self.entries@[choose|i: int| self.is_at(ident, i)].value,
        )
    }
}

impl<K: RegistryKey, V> KeyMap<K, V> {
    /// The entry number `i` is that of the key that is known by `ident`.
    spec fn is_at(&self, ident: K::Ident, i: int) -> bool {
        0 <= i < self.entries@.len() && self.entries@[i].key.ident() == ident
    }

    /// No key occurs twice.
    pub closed spec fn wf(&self) -> bool {
        forall|i: int, j: int|
            0 <= i < j < self.entries@.len() ==> #[trigger] self.entries@[i].key.ident()
                != #[trigger] self.entries@[j].key.ident()
    }

    /// What an entry says is what the map holds.
    proof fn lemma_entry(&self, i: int)
        requires
            self.wf(),
            0 <= i < self.entries@.len(),
        ensures
            self@.contains_key(self.entries@[i].key.ident()),
            self@[self.entries@[i].key.ident()] == self.entries@[i].value,
    {
        let ident = self.entries@[i].key.ident();
        assert(self.is_at(ident, i));
        let j = choose|j: int| self.is_at(ident, j);
        assert(self.is_at(ident, j));
    }

    pub fn new() -> (map: Self)
        ensures
            map.wf(),
            map@ == Map::<K::Ident, V>::empty(),
    {
        let map: KeyMap<K, V> = KeyMap { entries: Vec::new() };
        assert(map@ =~= Map::<K::Ident, V>::empty());
        map
    }

    /// Which entry is that of the key.
    fn position(&self, key: &K) -> (at: Option<usize>)
        requires
            self.wf(),
        ensures
            at matches Some(i) ==> self.is_at(key.ident(), i as int),
            at is None <==> !self@.contains_key(key.ident()),
    {
        let mut i: usize = 0;
        while i < self.entries.len()
            invariant
                self.wf(),
                0 <= i <= self.entries@.len(),
                forall|j: int| 0 <= j < i ==> #[trigger] self.entries@[j].key.ident() != key.ident(),
            decreases self.entries@.len() - i,
        {
            if self.entries[i].key.is_same(key) {
                proof {
                    self.lemma_entry(i as int);
                }
                return Some(i);
            }
            i = i + 1;
        }
        None
    }

    pub fn contains_key(&self, key: &K) -> (found: bool)
        requires
            self.wf(),
        ensures
            found == self@.contains_key(key.ident()),
    {
        match self.position(key) {
            Some(_) => true,
            None => false,
        }
    }

    pub fn get(&self, key: &K) -> (value: Option<&V>)
        requires
            self.wf(),
        ensures
            value is Some <==> self@.contains_key(key.ident()),
            value matches Some(v) ==> *v == self@[key.ident()],
    {
        match self.position(key) {
            Some(i) => {
                proof {
                    self.lemma_entry(i as int);
                }
                Some(&self.entries[i].value)
            },
            None => None,
        }
    }

    /// Adds a key that the map does not hold yet.
    pub fn insert_new(&mut self, key: K, value: V)
        requires
            old(self).wf(),
            !old(self)@.contains_key(key.ident()),
        ensures
            final(self).wf(),
            final(self)@ == old(self)@.insert(key.ident(), value),
    {
        proof {
            assert forall|i: int| 0 <= i < self.entries@.len() implies #[trigger] self.entries@[i].key.ident()
                != key.ident() by {
                self.lemma_entry(i);
            }
        }
        self.entries.push(Entry { key, value });
        proof {
            let n = old(self).entries@.len() as int;
            assert forall|i: int| 0 <= i < n implies self.entries@[i] == #[trigger] old(self).entries@[i] by {}
            assert forall|ident: K::Ident| self@.contains_key(ident) <==> old(self)@.insert(
                key.ident(),
                value,
            ).contains_key(ident) by {
                if self@.contains_key(ident) {
                    let i = choose|i: int| self.is_at(ident, i);
                    if i < n {
                        assert(old(self).is_at(ident, i));
                    }
                }
                if old(self)@.contains_key(ident) {
                    let i = choose|i: int| old(self).is_at(ident, i);
                    assert(self.is_at(ident, i));
                }
                assert(self.is_at(key.ident(), n));
            }
            assert forall|ident: K::Ident| self@.contains_key(ident) implies self@[ident] == old(
                self,
            )@.insert(key.ident(), value)[ident] by {
                let i = choose|i: int| self.is_at(ident, i);
                self.lemma_entry(i);
                if i < n {
                    old(self).lemma_entry(i);
                }
            }
            assert(self@ =~= old(self)@.insert(key.ident(), value));
        }
    }

    /// Takes a key out of the map, if it is there.
    pub fn remove(&mut self, key: &K) -> (value: Option<V>)
        requires
            old(self).wf(),
        ensures
            final(self).wf(),
            final(self)@ == old(self)@.remove(key.ident()),
            value is Some <==> old(self)@.contains_key(key.ident()),
            value matches Some(v) ==> v == old(self)@[key.ident()],
    {
        match self.position(key) {
            Some(i) => {
                let entry = self.entries.remove(i);
                proof {
                    old(self).lemma_entry(i as int);
                    self.lemma_removed(*old(self), i as int);
                }
                Some(entry.value)
            },
            None => {
                assert(self@ =~= old(self)@.remove(key.ident()));
                None
            },
        }
    }

    proof fn lemma_removed(&self, before: Self, at: int)
        requires
            before.wf(),
            0 <= at < before.entries@.len(),
            self.entries@ == before.entries@.remove(at),
        ensures
            self.wf(),
            self@ == before@.remove(before.entries@[at].key.ident()),
    {
        let gone = before.entries@[at].key.ident();
        assert(self.wf());
        assert forall|ident: K::Ident| self@.contains_key(ident) <==> before@.remove(
            gone,
        ).contains_key(ident) by {
            if self@.contains_key(ident) {
                let i = choose|i: int| self.is_at(ident, i);
                let j = if i < at {
                    i
                } else {
                    i + 1
                };
                assert(self.entries@[i] == before.entries@[j]);
                before.lemma_entry(j);
            }
            if before@.contains_key(ident) && ident != gone {
                let j = choose|j: int| before.is_at(ident, j);
                let i = if j < at {
                    j
                } else {
                    j - 1
                };
                assert(self.entries@[i] == before.entries@[j]);
                assert(self.is_at(ident, i));
            }
        }
        assert forall|ident: K::Ident| self@.contains_key(ident) implies self@[ident]
            == before@.remove(gone)[ident] by {
            let i = choose|i: int| self.is_at(ident, i);
            self.lemma_entry(i);
            let j = if i < at {
                i
            } else {
                i + 1
            };
            assert(self.entries@[i] == before.entries@[j]);
            before.lemma_entry(j);
        }
        assert(self@ =~= before@.remove(gone));
    }

    /// What the keys of the entries are known by, in order.
    spec fn order(&self) -> Seq<K::Ident> {
        Seq::new(self.entries@.len(), |i: int| self.entries@[i].key.ident())
    }

    proof fn lemma_listing(&self, values: Seq<V>)
        requires
            self.wf(),
            values.len() == self.entries@.len(),
            forall|i: int| 0 <= i < values.len() ==> values[i] == #[trigger] self.entries@[i].value,
        ensures
            is_listing(values, self@),
    {
        let order = self.order();
        assert forall|ident: K::Ident| self@.contains_key(ident) <==> #[trigger] order.contains(
            ident,
        ) by {
            if self@.contains_key(ident) {
                let i = choose|i: int| self.is_at(ident, i);
                assert(order[i] == ident);
            }
            if order.contains(ident) {
                let i = choose|i: int| 0 <= i < order.len() && order[i] == ident;
                self.lemma_entry(i);
            }
        }
        assert forall|i: int| 0 <= i < order.len() implies self@[#[trigger] order[i]]
            == values[i] by {
            self.lemma_entry(i);
        }
        assert(lists(order, values, self@));
    }

    /// All the values, in some order.
    pub fn values(&self) -> (values: Vec<&V>)
        requires
            self.wf(),
        ensures
            is_listing(values@.map_values(|v: &V| *v), self@),
    {
        let mut values: Vec<&V> = Vec::new();
        let mut i: usize = 0;
        while i < self.entries.len()
            invariant
                0 <= i <= self.entries@.len(),
                values@.len() == i,
                forall|j: int| 0 <= j < i ==> *values@[j] == #[trigger] self.entries@[j].value,
            decreases self.entries@.len() - i,
        {
            values.push(&self.entries[i].value);
            i = i + 1;
        }
        proof {
            self.lemma_listing(values@.map_values(|v: &V| *v));
        }
        values
    }

    /// Empties the map. What is handed out are the values that it held.
    pub fn drain(&mut self) -> (values: Vec<V>)
        requires
            old(self).wf(),
        ensures
            final(self).wf(),
            final(self)@ == Map::<K::Ident, V>::empty(),
            is_listing(values@, old(self)@),
    {
        let mut values: Vec<V> = Vec::new();
        let ghost n = self.entries@.len();
        while self.entries.len() > 0
            invariant
                n == old(self).entries@.len(),
                values@.len() <= n,
                self.entries@ == old(self).entries@.take(n - values@.len()),
                forall|j: int|
                    0 <= j < values@.len() ==> #[trigger] values@[j] == old(self).entries@[n - 1
                        - j].value,
            decreases self.entries@.len(),
        {
            if let Some(entry) = self.entries.pop() {
                values.push(entry.value);
            }
        }
        proof {
            old(self).lemma_listing(values@.reverse());
            lemma_backwards(values@, old(self)@);
            assert(self@ =~= Map::<K::Ident, V>::empty());
        }
        values
    }
}

/// A listing of a map holds the value of each key, and nothing else, and is as
/// long as there are keys.
pub proof fn law_listing_is_complete<I, V>(values: Seq<V>, map: Map<I, V>)
    requires
        is_listing(values, map),
    ensures
        map.dom().finite(),
        values.len() == map.dom().len(),
        forall|ident: I| #[trigger] map.contains_key(ident) ==> values.contains(map[ident]),
        forall|i: int| 0 <= i < values.len() ==> map.values().contains(#[trigger] values[i]),
{
    let order = choose|order: Seq<I>| lists(order, values, map);
    order.unique_seq_to_set();
    assert(order.to_set() =~= map.dom());
    assert forall|ident: I| #[trigger] map.contains_key(ident) implies values.contains(
        map[ident],
    ) by {
        assert(order.contains(ident));
        let i = choose|i: int| 0 <= i < order.len() && order[i] == ident;
        assert(values[i] == map[ident]);
    }
    assert forall|i: int| 0 <= i < values.len() implies map.values().contains(
        #[trigger] values[i],
    ) by {
        assert(order.contains(order[i]));
        assert(map.contains_key(order[i]) && map[order[i]] == values[i]);
    }
}

/// A text as a key is known by its characters, all of them, and its hash is what
/// the default hasher makes of what the text feeds to it.
pub proof fn law_text_keys(text: Seq<char>, a: String, b: String)
    ensures
        a.ident() == b.ident() <==> a@ == b@,
        String::ident_hash(text) == DefaultHasher::spec_finish(str_writes(text)),
{
}

} // verus!
