//! Actors by key: one actor for each key, found again for as long as it runs.
use crate::config::SpawnConfig;
use crate::keys::{is_listing, KeyMap, RegistryKey};
use crate::rt::SystemState;
use crate::text::{
    decimal, hexadecimal, law_decimal_is_faithful, law_hexadecimal_is_faithful, push_decimal,
    push_hexadecimal,
};
use vstd::prelude::*;

verus! {

/// In how many parts a registry is kept.
pub const NUM_SHARDS: usize = 16;

/// The name of the actor for a key with this hash: what the actors of the
/// registry are called, the number of the shard, and the hash.
pub open spec fn name_text(base: Seq<char>, shard: nat, hash: u64) -> Seq<char> {
    base + ":"@ + decimal(shard) + ":"@ + hexadecimal(hash as nat, 16)
}

/// The name of the actor for a key.
pub fn hashed_name<K: RegistryKey>(base: &str, shard: usize, key: &K) -> (name: String)
    ensures
        name@ == name_text(base@, shard as nat, K::ident_hash(key.ident())),
{
    let mut name = base.to_owned();
    name.append(":");
    push_decimal(&mut name, shard);
    name.append(":");
    push_hexadecimal(&mut name, key.key_hash(), 16);
    name
}

/// The shard of the key that is known by `ident`.
pub open spec fn shard_of<K: RegistryKey>(ident: K::Ident) -> int {
    K::ident_hash(ident) as int % NUM_SHARDS as int
}

/// A cell of the registry: it is to hold the reference to the actor of a key.
/// Each has a number of its own.
pub struct Slot<C> {
    pub id: u64,
    pub cell: C,
}

/// What a registry holds: a cell for each key, and the number of the next
/// cell.
#[verifier::reject_recursive_types(I)]
pub struct RegistryState<I, C> {
    pub entries: Map<I, Slot<C>>,
    pub next_id: u64,
}

impl<I, C> RegistryState<I, C> {
    /// The registry has a cell for the key that is known by `ident`: the one
    /// that it had, or else `fresh`.
    pub open spec fn entered(self, ident: I, fresh: C) -> RegistryState<I, C> {
        if self.entries.contains_key(ident) {
            self
        } else {
            RegistryState {
                entries: self.entries.insert(ident, Slot { id: self.next_id, cell: fresh }),
                next_id: (self.next_id + 1) as u64,
            }
        }
    }

    /// The cell number `id` is gone, if it is the cell of that key.
    pub open spec fn evicted(self, ident: I, id: u64) -> RegistryState<I, C> {
        if self.entries.contains_key(ident) && self.entries[ident].id == id {
            RegistryState { entries: self.entries.remove(ident), ..self }
        } else {
            self
        }
    }

    /// The number of each cell was given out before.
    pub open spec fn numbered(self) -> bool {
        forall|ident: I| #[trigger]
            self.entries.contains_key(ident) ==> self.entries[ident].id < self.next_id
    }
}

/// Keeps the cell of a key in mind, so that just this cell is taken out of
/// the registry when the actor ends.
pub struct RegistryGuard<K> {
    shard_idx: usize,
    key: K,
    id: u64,
}

impl<K: RegistryKey> RegistryGuard<K> {
    pub closed spec fn ident(&self) -> K::Ident {
        self.key.ident()
    }

    /// The number of the cell.
    pub closed spec fn id(&self) -> u64 {
        self.id
    }

    pub closed spec fn wf(&self) -> bool {
        self.shard_idx == shard_of::<K>(self.key.ident())
    }
}

/// A cell for each key. What a cell is for is up to the caller: it is made by
/// the first to ask for a key, and shared by all who ask after that.
pub struct Registry<K, C> {
    shards: Vec<KeyMap<K, Slot<C>>>,
    next_id: u64,
}

impl<K: RegistryKey, C> View for Registry<K, C> {
    type V = RegistryState<K::Ident, C>;

    closed spec fn view(&self) -> RegistryState<K::Ident, C> {
        RegistryState {
            entries: Map::new(
                |ident: K::Ident| self.shards@[shard_of::<K>(ident)]@.contains_key(ident),
                |ident: K::Ident| self.shards@[shard_of::<K>(ident)]@[ident],
            ),
            next_id: self.next_id,
        }
    }
}

impl<K: RegistryKey, C> Registry<K, C> {
    /// Each key stands in its own shard, and no cell has a number that is yet
    /// to be given out.
    pub closed spec fn wf(&self) -> bool {
        &&& self.shards@.len() == NUM_SHARDS
        &&& forall|i: int| 0 <= i < NUM_SHARDS ==> (#[trigger] self.shards@[i]).wf()
        &&& forall|i: int, ident: K::Ident|
            0 <= i < NUM_SHARDS && #[trigger] self.shards@[i]@.contains_key(ident) ==> shard_of::<K>(
                ident,
            ) == i
        &&& self@.numbered()
    }

    pub fn new() -> (registry: Self)
        ensures
            registry.wf(),
            registry@.entries == Map::<K::Ident, Slot<C>>::empty(),
            registry@.next_id == 0,
    {
        let mut shards: Vec<KeyMap<K, Slot<C>>> = Vec::new();
        while shards.len() < NUM_SHARDS
            invariant
                shards@.len() <= NUM_SHARDS,
                forall|i: int|
                    0 <= i < shards@.len() ==> {
                        &&& (#[trigger] shards@[i]).wf()
                        &&& shards@[i]@ == Map::<K::Ident, Slot<C>>::empty()
                    },
            decreases NUM_SHARDS - shards@.len(),
        {
            shards.push(KeyMap::new());
        }
        let registry = Registry { shards, next_id: 0 };
        assert(registry@.entries =~= Map::<K::Ident, Slot<C>>::empty());
        registry
    }

    /// The shard of a key.
    fn get_shard(&self, key: &K) -> (shard_idx: usize)
        ensures
            shard_idx == shard_of::<K>(key.ident()),
            shard_idx < NUM_SHARDS,
    {
        (key.key_hash() % NUM_SHARDS as u64) as usize
    }

    /// Whether there is still a number for a new cell.
    pub fn has_room(&self) -> (b: bool)
        ensures
            b == (self@.next_id < u64::MAX),
    {
        self.next_id < u64::MAX
    }

    /// A shard has changed at one key: so has the registry.
    proof fn lemma_shard_changed(&self, before: Self, ident: K::Ident)
        requires
            before.wf(),
            self.shards@.len() == NUM_SHARDS,
            forall|i: int|
                0 <= i < NUM_SHARDS && i != shard_of::<K>(ident) ==> #[trigger] self.shards@[i]
                    == before.shards@[i],
            self.shards@[shard_of::<K>(ident)].wf(),
            self.shards@[shard_of::<K>(ident)]@.remove(ident)
                == before.shards@[shard_of::<K>(ident)]@.remove(ident),
        ensures
            self@.entries.remove(ident) == before@.entries.remove(ident),
            self@.numbered() ==> self.wf(),
    {
        let s = shard_of::<K>(ident);
        let (now, was) = (self.shards@[s]@, before.shards@[s]@);
        assert forall|other: K::Ident| other != ident implies {
            &&& #[trigger] now.contains_key(other) == was.contains_key(other)
            &&& now.contains_key(other) ==> now[other] == was[other]
        } by {
            assert(now.remove(ident).contains_key(other) == was.remove(ident).contains_key(other));
            if now.contains_key(other) {
                assert(now.remove(ident)[other] == was.remove(ident)[other]);
            }
        }
        assert forall|other: K::Ident| other != ident implies {
            &&& #[trigger] self@.entries.contains_key(other) == before@.entries.contains_key(other)
            &&& self@.entries.contains_key(other) ==> self@.entries[other] == before@.entries[other]
        } by {
            let t = shard_of::<K>(other);
            assert(0 <= t < NUM_SHARDS);
            if t != s {
                assert(self.shards@[t] == before.shards@[t]);
            }
        }
        assert(self@.entries.remove(ident) =~= before@.entries.remove(ident));
        assert forall|i: int, other: K::Ident|
            0 <= i < NUM_SHARDS && #[trigger] self.shards@[i]@.contains_key(other) implies shard_of::<
            K,
        >(other) == i by {
            if other != ident && i == s {
                assert(before.shards@[i]@.contains_key(other));
            }
            if i != s {
                assert(self.shards@[i] == before.shards@[i]);
            }
        }
        assert forall|i: int| 0 <= i < NUM_SHARDS implies (#[trigger] self.shards@[i]).wf() by {
            if i != s {
                assert(self.shards@[i] == before.shards@[i]);
                assert(before.shards@[i].wf());
            }
        }
    }

    /// Looks the key up, and puts `fresh` in as its cell if there is none.
    /// The settings are given the name of the actor of that key. What comes
    /// back keeps the cell in mind for the end of the actor.
    pub fn get_or_spawn(&mut self, key: &K, cfg: &mut SpawnConfig, fresh: C) -> (guard:
        RegistryGuard<K>)
        requires
            old(self).wf(),
            old(self)@.entries.contains_key(key.ident()) || old(self)@.next_id < u64::MAX,
        ensures
            final(self).wf(),
            final(self)@ == old(self)@.entered(key.ident(), fresh),
            guard.wf(),
            guard.ident() == key.ident(),
            guard.id() == final(self)@.entries[key.ident()].id,
            final(cfg).name@ == name_text(
                old(cfg).name@,
                shard_of::<K>(key.ident()) as nat,
                K::ident_hash(key.ident()),
            ),
            *final(cfg) == (SpawnConfig { name: final(cfg).name, ..*old(cfg) }),
    {
        let shard_idx: usize = self.get_shard(key);
        cfg.name = hashed_name(cfg.name.as_str(), shard_idx, key);
        if let Some(slot) = self.shards[shard_idx].get(key) {
            return RegistryGuard { shard_idx, key: key.duplicate(), id: slot.id };
        }
        let id: u64 = self.next_id;
        self.shards[shard_idx].insert_new(key.duplicate(), Slot { id, cell: fresh });
        self.next_id = id + 1;
        proof {
            let ident = key.ident();
            let (now, was) = (self.shards@[shard_idx as int]@, old(self).shards@[shard_idx as int]@);
            assert(now.remove(ident) =~= was.remove(ident));
            self.lemma_shard_changed(*old(self), ident);
            assert(self@.entries =~= old(self)@.entered(ident, fresh).entries);
        }
        RegistryGuard { shard_idx, key: key.duplicate(), id }
    }

    /// The cell of a key.
    pub fn get(&self, key: &K) -> (slot: Option<&Slot<C>>)
        requires
            self.wf(),
        ensures
            slot is Some <==> self@.entries.contains_key(key.ident()),
            slot matches Some(found) ==> *found == self@.entries[key.ident()],
    {
        let shard_idx: usize = self.get_shard(key);
        self.shards[shard_idx].get(key)
    }

    /// The actor that the guard was made for is gone: its cell is taken out,
    /// unless the key has got another one meanwhile.
    pub fn evict(&mut self, guard: &RegistryGuard<K>)
        requires
            old(self).wf(),
            guard.wf(),
        ensures
            final(self).wf(),
            final(self)@ == old(self)@.evicted(guard.ident(), guard.id()),
    {
        let is_current = match self.shards[guard.shard_idx].get(&guard.key) {
            Some(slot) => slot.id == guard.id,
            None => false,
        };
        if is_current {
            let _ = self.shards[guard.shard_idx].remove(&guard.key);
            proof {
                let ident = guard.ident();
                let s = guard.shard_idx as int;
                assert(self.shards@[s]@.remove(ident) =~= old(self).shards@[s]@.remove(ident));
                self.lemma_shard_changed(*old(self), ident);
                assert(self@.entries =~= self@.entries.remove(ident));
            }
        }
    }

    /// The cells of one shard, in some order.
    pub fn shard(&self, shard_idx: usize) -> (slots: Vec<&Slot<C>>)
        requires
            self.wf(),
            shard_idx < NUM_SHARDS,
        ensures
            is_listing(
                slots@.map_values(|slot: &Slot<C>| *slot),
                self@.entries.restrict(
                    Set::new(|ident: K::Ident| shard_of::<K>(ident) == shard_idx as int),
                ),
            ),
    {
        proof {
            assert(self.shards@[shard_idx as int]@ =~= self@.entries.restrict(
                Set::new(|ident: K::Ident| shard_of::<K>(ident) == shard_idx as int),
            ));
        }
        self.shards[shard_idx].values()
    }
}

/// Who asks for a key that has a cell gets that cell: all who ask for one key
/// share one actor.
pub proof fn law_one_cell_for_each_key<I, C>(s: RegistryState<I, C>, ident: I, first: C, later: C)
    ensures
        s.entered(ident, first).entered(ident, later) == s.entered(ident, first),
        s.entered(ident, first).entries.contains_key(ident),
        !s.entries.contains_key(ident) ==> s.entered(ident, first).entries[ident].cell == first,
{
}

/// The registry after some have asked for one key, each with a cell of its own
/// at hand.
pub open spec fn asked<I, C>(s: RegistryState<I, C>, ident: I, fresh: Seq<C>) -> RegistryState<I, C>
    decreases fresh.len(),
{
    if fresh.len() == 0 {
        s
    } else {
        asked(s, ident, fresh.drop_last()).entered(ident, fresh.last())
    }
}

/// However many ask for a key, they all get the cell of the first of them; what
/// the others had at hand is of no effect.
pub proof fn law_first_cell_is_for_all<I, C>(s: RegistryState<I, C>, ident: I, fresh: Seq<C>)
    requires
        !s.entries.contains_key(ident),
        fresh.len() > 0,
    ensures
        asked(s, ident, fresh) == s.entered(ident, fresh[0]),
        asked(s, ident, fresh).entries[ident] == (Slot { id: s.next_id, cell: fresh[0] }),
    decreases fresh.len(),
{
    if fresh.len() > 1 {
        law_first_cell_is_for_all(s, ident, fresh.drop_last());
    } else {
        assert(asked(s, ident, fresh.drop_last()) == s);
    }
}

/// Of those who ask for one key only one can spawn the actor: the name that all
/// of them would spawn it under, with the same base, is taken then, until the
/// task of that actor ends.
pub proof fn law_one_caller_spawns<K: RegistryKey, H>(
    system: SystemState<H>,
    base: Seq<char>,
    ident: K::Ident,
    handle: H,
)
    requires
        system.admits(name_text(base, shard_of::<K>(ident) as nat, K::ident_hash(ident))),
    ensures
        ({
            let name = name_text(base, shard_of::<K>(ident) as nat, K::ident_hash(ident));
            &&& !system.with(name, handle).admits(name)
            &&& system.with(name, handle).without(name).admits(name)
        }),
{
}

/// When the actor of a key ends, its own cell goes, and the next who asks
/// gets a new one, with a number of its own.
pub proof fn law_eviction_makes_room<I, C>(s: RegistryState<I, C>, ident: I, first: C, later: C)
    requires
        s.numbered(),
        s.next_id < u64::MAX - 1,
    ensures
        ({
            let filled = s.entered(ident, first);
            let emptied = filled.evicted(ident, filled.entries[ident].id);
            let again = emptied.entered(ident, later);
            &&& !emptied.entries.contains_key(ident)
            &&& again.entries[ident].cell == later
            &&& again.entries[ident].id != filled.entries[ident].id
        }),
{
}

/// An actor that has come and gone leaves no trace: when its task has ended
/// its name is free again, and when its guard has done its work its key has no
/// cell.
pub proof fn law_no_stale_entries<I, C, H>(
    system: SystemState<H>,
    registry: RegistryState<I, C>,
    name: Seq<char>,
    handle: H,
    ident: I,
    cell: C,
)
    requires
        system.admits(name),
        !registry.entries.contains_key(ident),
        registry.next_id < u64::MAX,
    ensures
        ({
            let running = system.with(name, handle);
            let entered = registry.entered(ident, cell);
            let left = entered.evicted(ident, entered.entries[ident].id);
            &&& running.without(name) == system
            &&& left.entries == registry.entries
        }),
{
    assert(system.with(name, handle).without(name).actors =~= system.actors);
    let entered = registry.entered(ident, cell);
    assert(entered.evicted(ident, entered.entries[ident].id).entries =~= registry.entries);
}

/// A guard that comes late does no harm: a cell that was made for the key
/// after the guard's own cell is gone stays where it is.
pub proof fn law_late_guard_does_no_harm<I, C>(
    s: RegistryState<I, C>,
    ident: I,
    id: u64,
    fresh: C,
)
    requires
        s.numbered(),
        id < s.next_id < u64::MAX,
    ensures
        ({
            let renewed = s.evicted(ident, id).entered(ident, fresh);
            renewed.evicted(ident, id) == renewed
        }),
{
}

/// What happens to one key does not touch another.
pub proof fn law_keys_are_independent<I, C>(
    s: RegistryState<I, C>,
    ident: I,
    other: I,
    fresh: C,
    id: u64,
)
    requires
        ident != other,
    ensures
        s.entered(ident, fresh).entries.contains_key(other) == s.entries.contains_key(other),
        s.entries.contains_key(other) ==> s.entered(ident, fresh).entries[other]
            == s.entries[other],
        s.evicted(ident, id).entries.contains_key(other) == s.entries.contains_key(other),
        s.entries.contains_key(other) ==> s.evicted(ident, id).entries[other] == s.entries[other],
{
}

/// The numbers that were given out stay apart from those that are to come.
pub proof fn law_numbers_stay_apart<I, C>(s: RegistryState<I, C>, ident: I, fresh: C, id: u64)
    requires
        s.numbered(),
        s.next_id < u64::MAX,
    ensures
        s.entered(ident, fresh).numbered(),
        s.evicted(ident, id).numbered(),
{
}

/// No two names are the same unless they were made of the same base, the same
/// shard and the same hash.
pub proof fn law_names_do_not_collide(
    base1: Seq<char>,
    shard1: nat,
    hash1: u64,
    base2: Seq<char>,
    shard2: nat,
    hash2: u64,
)
    requires
        name_text(base1, shard1, hash1) == name_text(base2, shard2, hash2),
    ensures
        base1 == base2,
        shard1 == shard2,
        hash1 == hash2,
{
    reveal_strlit(":");
    law_decimal_is_faithful(shard1, shard2);
    law_decimal_is_faithful(shard2, shard1);
    law_hexadecimal_is_faithful(hash1, hash2);
    law_hexadecimal_is_faithful(hash2, hash1);
    let (d1, d2) = (decimal(shard1), decimal(shard2));
    let (h1, h2) = (hexadecimal(hash1 as nat, 16), hexadecimal(hash2 as nat, 16));
    let (n1, n2) = (name_text(base1, shard1, hash1), name_text(base2, shard2, hash2));
    let n = n1.len() as int;
    assert(n1.skip(n - 16) =~= h1);
    assert(n2.skip(n - 16) =~= h2);
    let (b1, b2) = (base1.len() as int, base2.len() as int);
    assert(n1[b1] == ':');
    assert(n2[b2] == ':');
    if b1 < b2 {
        assert(n1[b2] == d1[b2 - b1 - 1]);
        assert(d1.contains(':'));
    }
    if b2 < b1 {
        assert(n2[b1] == d2[b1 - b2 - 1]);
        assert(d2.contains(':'));
    }
    assert(n1.take(b1) =~= base1);
    assert(n2.take(b2) =~= base2);
    assert(n1.subrange(b1 + 1, n - 17) =~= d1);
    assert(n2.subrange(b2 + 1, n - 17) =~= d2);
}

/// The name of an actor is the base, the number of the shard and the hash, with
/// colons between them.
pub proof fn law_what_a_name_is_made_of(base: Seq<char>, shard: nat, hash: u64)
    ensures
        name_text(base, shard, hash).take(base.len() as int) == base,
        name_text(base, shard, hash) == base + ":"@ + decimal(shard) + ":"@ + hexadecimal(
            hash as nat,
            16,
        ),
{
    assert(name_text(base, shard, hash).take(base.len() as int) =~= base);
}

/// There are sixteen shards, and the last digit of the hash says which one a key
/// stands in: keys of one hash stand together.
pub proof fn law_shards_go_by_the_hash<K: RegistryKey>(a: K::Ident, b: K::Ident)
    ensures
        0 <= shard_of::<K>(a) < 16,
        (K::ident_hash(a) - shard_of::<K>(a)) % 16 == 0,
        K::ident_hash(a) == K::ident_hash(b) ==> shard_of::<K>(a) == shard_of::<K>(b),
{
}

/// Who asks for a key that has a cell changes nothing. For a key that has none
/// the cell at hand is put in, with the number that is next; and nothing happens
/// to any other key.
pub proof fn law_what_asking_changes<I, C>(s: RegistryState<I, C>, ident: I, fresh: C, other: I)
    requires
        s.next_id < u64::MAX,
    ensures
        s.entries.contains_key(ident) ==> s.entered(ident, fresh) == s,
        !s.entries.contains_key(ident) ==> {
            &&& s.entered(ident, fresh).entries.contains_key(ident)
            &&& s.entered(ident, fresh).entries[ident].id == s.next_id
            &&& s.entered(ident, fresh).entries[ident].cell == fresh
            &&& s.entered(ident, fresh).next_id == s.next_id + 1
        },
        other != ident ==> {
            &&& s.entered(ident, fresh).entries.contains_key(other) == s.entries.contains_key(other)
            &&& s.entries.contains_key(other) ==> s.entered(ident, fresh).entries[other]
                == s.entries[other]
        },
{
}

/// An eviction takes out the cell of its number and no other: where the key has
/// another cell, or none, nothing changes. Numbers are never given back.
pub proof fn law_what_an_eviction_changes<I, C>(
    s: RegistryState<I, C>,
    ident: I,
    id: u64,
    other: I,
)
    ensures
        s.entries.contains_key(ident) && s.entries[ident].id == id ==> !s.evicted(
            ident,
            id,
        ).entries.contains_key(ident),
        !s.entries.contains_key(ident) || s.entries[ident].id != id ==> s.evicted(ident, id) == s,
        other != ident ==> {
            &&& s.evicted(ident, id).entries.contains_key(other) == s.entries.contains_key(other)
            &&& s.entries.contains_key(other) ==> s.evicted(ident, id).entries[other]
                == s.entries[other]
        },
        s.evicted(ident, id).next_id == s.next_id,
{
}

} // verus!
