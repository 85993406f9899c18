//! The lookup cache: a bounded, expiring store of resolved countries.
//!
//! The entries live in an `lru::LruCache`. Contracts speak of its contents as a
//! sequence of [`Slot`]s in order of use, the most recently used first.

use crate::address::IpAddress;
use crate::country::country_text;
use lru::LruCache;
use vstd::prelude::*;

verus! {

/// `lru::LruCache`, of which nothing is known but what the functions below
/// say of it.
#[verifier::external_type_specification]
#[verifier::external_body]
#[verifier::reject_recursive_types(K)]
#[verifier::reject_recursive_types(V)]
#[verifier::reject_recursive_types(S)]
pub struct ExLruCache<K, V, S>(LruCache<K, V, S>);

/// `lru::DefaultHasher`, the hasher of an `LruCache` that is made with `new`.
#[verifier::external_type_specification]
#[verifier::external_body]
pub struct ExDefaultHasher(lru::DefaultHasher);

/// Nanoseconds in one second.
pub const NANOS_PER_SEC: u128 = 1_000_000_000u128;

/// The largest capacity a cache is built with. Up to here the table that
/// holds the entries has a size that fits the address space.
pub const MAX_CAPACITY: usize = usize::MAX / 128;

/// A point in time: nanoseconds since a moment the caller has fixed.
#[derive(Clone, Copy, Debug, PartialEq, Eq, Structural)]
pub struct Timestamp {
    pub nanos: u128,
}

impl Timestamp {
    /// The point `secs` whole seconds after the caller's fixed moment.
    pub fn from_secs(secs: u64) -> (t: Timestamp)
        ensures
            t.nanos == secs * NANOS_PER_SEC,
    {
        Timestamp { nanos: (secs as u128) * NANOS_PER_SEC }
    }
}

/// What the cache stores for one address. A `country` of `None` records that
/// the resolver found no country.
#[derive(Debug)]
pub struct CacheEntry {
    pub country: Option<String>,
    pub inserted_at: Timestamp,
}

/// One stored resolution as contracts see it.
pub struct Slot {
    pub key: u128,
    pub country: Option<Seq<char>>,
    pub inserted_at: nat,
}

/// The slot that stands for `entry` stored under `key`.
pub open spec fn slot_of(key: u128, entry: CacheEntry) -> Slot {
    Slot {
        key,
        country: country_text(entry.country),
        inserted_at: entry.inserted_at.nanos as nat,
    }
}

/// Whether some slot has the key.
pub open spec fn holds(slots: Seq<Slot>, key: u128) -> bool {
    exists|i: int| 0 <= i < slots.len() && (#[trigger] slots[i]).key == key
}

/// The place of a slot with the key, where one exists.
pub open spec fn place_of(slots: Seq<Slot>, key: u128) -> int {
    choose|i: int| 0 <= i < slots.len() && (#[trigger] slots[i]).key == key
}

/// The slots with the key's slot moved to the front.
pub open spec fn promoted(slots: Seq<Slot>, key: u128) -> Seq<Slot> {
    if holds(slots, key) {
        seq![slots[place_of(slots, key)]] + slots.remove(place_of(slots, key))
    } else {
        slots
    }
}

/// The slots without the key's slot.
pub open spec fn removed(slots: Seq<Slot>, key: u128) -> Seq<Slot> {
    if holds(slots, key) {
        slots.remove(place_of(slots, key))
    } else {
        slots
    }
}

/// The slots after `slot` is stored under a limit of `capacity` slots: it
/// replaces the slot of its key, or else the last slot of a full cache, and
/// stands at the front.
pub open spec fn stored(slots: Seq<Slot>, slot: Slot, capacity: nat) -> Seq<Slot> {
    if holds(slots, slot.key) {
        seq![slot] + slots.remove(place_of(slots, slot.key))
    } else if slots.len() == capacity {
        seq![slot] + slots.drop_last()
    } else {
        seq![slot] + slots
    }
}

/// No two slots share a key.
pub open spec fn distinct_keys(slots: Seq<Slot>) -> bool {
    forall|i: int, j: int|
        0 <= i < j < slots.len() ==> (#[trigger] slots[i]).key != (#[trigger] slots[j]).key
}

/// What an `LruCache` holds: one slot for each of its entries, in the order
/// of its list of use, the most recently used first.
pub uninterp spec fn lru_slots(cache: LruCache<u128, CacheEntry>) -> Seq<Slot>;

/// The number of entries that an `LruCache` was made to hold at most.
pub uninterp spec fn lru_capacity(cache: LruCache<u128, CacheEntry>) -> nat;

/// `LruCache::new`: an empty cache that holds at most `capacity` entries.
/// A capacity of zero has no `NonZeroUsize`; with one over [`MAX_CAPACITY`]
/// the size of the table that `new` allocates can pass `isize::MAX` bytes,
/// on which `new` panics.
#[verifier::external_body]
fn lru_new(capacity: usize) -> (cache: LruCache<u128, CacheEntry>)
    requires
        1 <= capacity <= MAX_CAPACITY,
    ensures
        lru_slots(cache) == Seq::<Slot>::empty(),
        lru_capacity(cache) == capacity,
{
    LruCache::new(core::num::NonZeroUsize::new(capacity).unwrap())
}

/// `LruCache::get`: where an entry is stored under `key`, its country and
/// its time of insertion are returned and the entry moves to the front of
/// the list of use, the others keeping their order; where none is, `None` is
/// returned and nothing changes.
#[verifier::external_body]
fn lru_get(cache: &mut LruCache<u128, CacheEntry>, key: u128) -> (found: Option<
    (Option<String>, u128),
>)
    ensures
        lru_capacity(*final(cache)) == lru_capacity(*old(cache)),
        lru_slots(*final(cache)) == promoted(lru_slots(*old(cache)), key),
        found is Some <==> holds(lru_slots(*old(cache)), key),
        found matches Some((country, inserted_at)) ==> (Slot {
            key,
            country: country_text(country),
            inserted_at: inserted_at as nat,
        }) == lru_slots(*old(cache))[place_of(lru_slots(*old(cache)), key)],
{
    cache.get(&key).map(|entry| (entry.country.clone(), entry.inserted_at.nanos))
}

/// `LruCache::pop`: the entry stored under `key`, if there is one, leaves
/// the cache, the others keeping their order. What `pop` returns is dropped.
#[verifier::external_body]
fn lru_pop(cache: &mut LruCache<u128, CacheEntry>, key: u128)
    ensures
        lru_capacity(*final(cache)) == lru_capacity(*old(cache)),
        lru_slots(*final(cache)) == removed(lru_slots(*old(cache)), key),
{
    cache.pop(&key);
}

/// `LruCache::put`: `entry` is stored under `key` at the front of the list
/// of use. It takes the place of the entry of that key where there is one;
/// otherwise, where the cache holds as many entries as it was made for, the
/// entry at the end of the list leaves. What `put` returns is dropped.
#[verifier::external_body]
fn lru_put(cache: &mut LruCache<u128, CacheEntry>, key: u128, entry: CacheEntry)
    ensures
        lru_capacity(*final(cache)) == lru_capacity(*old(cache)),
        lru_slots(*final(cache)) == stored(
            lru_slots(*old(cache)),
            slot_of(key, entry),
            lru_capacity(*old(cache)),
        ),
{
    cache.put(key, entry);
}

/// `LruCache::len`: the number of entries held.
#[verifier::external_body]
fn lru_len(cache: &LruCache<u128, CacheEntry>) -> (n: usize)
    ensures
        n == lru_slots(*cache).len(),
{
    cache.len()
}

/// The time from `then` to `now`, zero where `now` is the earlier.
pub open spec fn age(now: nat, then: nat) -> nat {
    if now >= then {
        (now - then) as nat
    } else {
        0
    }
}

/// The cache as contracts see it.
pub struct CacheState {
    /// The stored resolutions, the most recently used first.
    pub slots: Seq<Slot>,
    /// The most slots the cache holds.
    pub capacity: nat,
    /// The age in nanoseconds up to which a slot is served.
    pub ttl: nat,
}

impl CacheState {
    /// The invariant of every cache: at least one slot of room, never more
    /// slots than room, one slot per key.
    pub open spec fn wf(self) -> bool {
        &&& self.capacity >= 1
        &&& self.slots.len() <= self.capacity
        &&& distinct_keys(self.slots)
    }

    /// Whether a slot is stored under the key, stale or not.
    pub open spec fn contains(self, key: u128) -> bool {
        holds(self.slots, key)
    }

    /// The slot stored under the key.
    pub open spec fn slot(self, key: u128) -> Slot {
        self.slots[place_of(self.slots, key)]
    }

    /// Whether the key has a slot whose age at `now` is within the TTL.
    pub open spec fn fresh(self, key: u128, now: nat) -> bool {
        self.contains(key) && age(now, self.slot(key).inserted_at) <= self.ttl
    }

    /// What a read at `now` reports: the stored country where the key has a
    /// fresh slot, a miss otherwise.
    pub open spec fn lookup(self, key: u128, now: nat) -> Option<Option<Seq<char>>> {
        if self.fresh(key, now) {
            Some(self.slot(key).country)
        } else {
            None
        }
    }

    /// The cache after a read at `now`: a fresh slot moves to the front, a
    /// stale one leaves.
    pub open spec fn after_get(self, key: u128, now: nat) -> CacheState {
        if self.fresh(key, now) {
            CacheState { slots: promoted(self.slots, key), ..self }
        } else {
            CacheState { slots: removed(self.slots, key), ..self }
        }
    }

    /// The cache after `country` is written under `key` at `now`.
    pub open spec fn after_put(self, key: u128, country: Option<Seq<char>>, now: nat) -> CacheState {
        CacheState {
            slots: stored(self.slots, Slot { key, country, inserted_at: now }, self.capacity),
            ..self
        }
    }

    /// The key that the next write of a new key removes from a full cache.
    pub open spec fn least_recent(self) -> u128 {
        self.slots.last().key
    }
}

/// A bounded cache of resolved countries, keyed by address. An entry is
/// served until it is older than the TTL; a write past the capacity removes
/// the least recently used entry.
pub struct LookupCache {
    entries: LruCache<u128, CacheEntry>,
    ttl_secs: u64,
}

impl View for LookupCache {
    type V = CacheState;

    closed spec fn view(&self) -> CacheState {
        CacheState {
            slots: lru_slots(self.entries),
            capacity: lru_capacity(self.entries),
            ttl: (self.ttl_secs * NANOS_PER_SEC) as nat,
        }
    }
}

impl LookupCache {
    /// Whether the cache meets its invariant.
    pub open spec fn wf(&self) -> bool {
        self@.wf()
    }

    /// An empty cache for at most `capacity` addresses whose entries are
    /// served for `ttl_secs` seconds.
    pub fn new(capacity: usize, ttl_secs: u64) -> (cache: LookupCache)
        requires
            1 <= capacity <= MAX_CAPACITY,
        ensures
            cache.wf(),
            cache@.slots == Seq::<Slot>::empty(),
            cache@.capacity == capacity,
            cache@.ttl == ttl_secs * NANOS_PER_SEC,
    {
        LookupCache { entries: lru_new(capacity), ttl_secs }
    }

    /// An empty cache as [`LookupCache::new`] makes it, or `None` where the
    /// capacity is zero or over [`MAX_CAPACITY`].
    pub fn try_new(capacity: usize, ttl_secs: u64) -> (made: Option<LookupCache>)
        ensures
            made is Some <==> 1 <= capacity <= MAX_CAPACITY,
            made matches Some(cache) ==> cache.wf() && cache@ == (CacheState {
                slots: Seq::<Slot>::empty(),
                capacity: capacity as nat,
                ttl: (ttl_secs * NANOS_PER_SEC) as nat,
            }),
    {
        if 1 <= capacity && capacity <= MAX_CAPACITY {
            Some(LookupCache::new(capacity, ttl_secs))
        } else {
            None
        }
    }

    /// Reads the country cached for `ip`. `Some` is a hit and holds what was
    /// stored, which may be "no country"; `None` is a miss. A hit marks the
    /// entry as most recently used; an entry older than the TTL is removed
    /// and reported as a miss.
    pub fn get(&mut self, ip: IpAddress, now: Timestamp) -> (hit: Option<Option<String>>)
        requires
            old(self).wf(),
        ensures
            final(self).wf(),
            final(self)@ == old(self)@.after_get(ip.key(), now.nanos as nat),
            hit is Some <==> old(self)@.fresh(ip.key(), now.nanos as nat),
            hit matches Some(country) ==> Some(country_text(country)) == old(self)@.lookup(
                ip.key(),
                now.nanos as nat,
            ),
    {
        let key = ip.cache_key();
        let ghost before = lru_slots(self.entries);
        let ttl: u128 = (self.ttl_secs as u128) * NANOS_PER_SEC;
        match lru_get(&mut self.entries, key) {
            Some((country, inserted_at)) => {
                let elapsed: u128 = if now.nanos >= inserted_at {
                    now.nanos - inserted_at
                } else {
                    0
                };
                if elapsed <= ttl {
                    proof {
                        lemma_promoted_keeps_wf(before, key);
                    }
                    Some(country)
                } else {
                    lru_pop(&mut self.entries, key);
                    proof {
                        lemma_removed_after_promoted(before, key);
                        lemma_removed_keeps_wf(before, key);
                    }
                    None
                }
            },
            None => None,
        }
    }

    /// Writes `country` for `ip` with `now` as its time of insertion, and
    /// marks the entry as most recently used. A new address in a full cache
    /// takes the place of the least recently used one.
    pub fn put(&mut self, ip: IpAddress, country: Option<String>, now: Timestamp)
        requires
            old(self).wf(),
        ensures
            final(self).wf(),
            final(self)@ == old(self)@.after_put(
                ip.key(),
                country_text(country),
                now.nanos as nat,
            ),
    {
        let key = ip.cache_key();
        proof {
            lemma_stored_keeps_wf(
                lru_slots(self.entries),
                Slot { key, country: country_text(country), inserted_at: now.nanos as nat },
                lru_capacity(self.entries),
            );
        }
        lru_put(&mut self.entries, key, CacheEntry { country, inserted_at: now });
    }

    /// The number of addresses with an entry, stale ones included.
    pub fn len(&self) -> (n: usize)
        ensures
            n == self@.slots.len(),
    {
        lru_len(&self.entries)
    }

    /// The TTL in seconds.
    pub fn ttl_secs(&self) -> (secs: u64)
        ensures
            secs * NANOS_PER_SEC == self@.ttl,
    {
        self.ttl_secs
    }
}

/// In slots with one slot per key, a key is found only at its own place.
pub proof fn lemma_place_is_unique(slots: Seq<Slot>, i: int)
    requires
        distinct_keys(slots),
        0 <= i < slots.len(),
    ensures
        holds(slots, slots[i].key),
        place_of(slots, slots[i].key) == i,
{
    let p = place_of(slots, slots[i].key);
    if p < i {
        assert(slots[p].key != slots[i].key);
    } else if i < p {
        assert(slots[i].key != slots[p].key);
    }
}

/// Moving a slot to the front keeps one slot per key and the number of slots.
pub proof fn lemma_promoted_keeps_wf(slots: Seq<Slot>, key: u128)
    requires
        distinct_keys(slots),
    ensures
        distinct_keys(promoted(slots, key)),
        promoted(slots, key).len() == slots.len(),
{
    if holds(slots, key) {
        let p = place_of(slots, key);
        let out = promoted(slots, key);
        assert forall|i: int, j: int| 0 <= i < j < out.len() implies (#[trigger] out[i]).key != (
        #[trigger] out[j]).key by {
            let from_j = if j - 1 < p { j - 1 } else { j };
            if i == 0 {
                if from_j < p {
                    assert(slots[from_j].key != slots[p].key);
                }
            } else {
                let from_i = if i - 1 < p { i - 1 } else { i };
                assert(out[i] == slots[from_i]);
                assert(slots[from_i].key != slots[from_j].key);
            }
        }
    }
}

/// Taking a slot out keeps one slot per key and adds no slot.
pub proof fn lemma_removed_keeps_wf(slots: Seq<Slot>, key: u128)
    requires
        distinct_keys(slots),
    ensures
        distinct_keys(removed(slots, key)),
        removed(slots, key).len() <= slots.len(),
        !holds(removed(slots, key), key),
{
    if holds(slots, key) {
        let p = place_of(slots, key);
        let out = removed(slots, key);
        assert forall|i: int| 0 <= i < out.len() implies (#[trigger] out[i]).key != key by {
            let from_i = if i < p { i } else { i + 1 };
            assert(out[i] == slots[from_i]);
        }
    }
}

/// Taking a key out after moving it to the front is taking it out.
pub proof fn lemma_removed_after_promoted(slots: Seq<Slot>, key: u128)
    requires
        distinct_keys(slots),
    ensures
        removed(promoted(slots, key), key) == removed(slots, key),
{
    if holds(slots, key) {
        let p = place_of(slots, key);
        let front = promoted(slots, key);
        lemma_promoted_keeps_wf(slots, key);
        assert(front[0] == slots[p]);
        lemma_place_is_unique(front, 0);
    }
}

/// Storing a slot keeps one slot per key and the limit on their number.
pub proof fn lemma_stored_keeps_wf(slots: Seq<Slot>, slot: Slot, capacity: nat)
    requires
        distinct_keys(slots),
        slots.len() <= capacity,
        capacity >= 1,
    ensures
        distinct_keys(stored(slots, slot, capacity)),
        stored(slots, slot, capacity).len() <= capacity,
        stored(slots, slot, capacity)[0] == slot,
{
    let out = stored(slots, slot, capacity);
    let rest = if holds(slots, slot.key) {
        removed(slots, slot.key)
    } else if slots.len() == capacity {
        slots.drop_last()
    } else {
        slots
    };
    assert(out == seq![slot] + rest);
    lemma_removed_keeps_wf(slots, slot.key);
    assert forall|i: int, j: int| 0 <= i < j < out.len() implies (#[trigger] out[i]).key != (
    #[trigger] out[j]).key by {
        assert(out[j] == rest[j - 1]);
    }
}

/// What a write leaves of the other keys: a key other than the written one
/// is stored afterwards exactly if it was stored before and is not the one
/// that the write removed, and its slot is the one it had.
pub proof fn lemma_put_keeps_others(
    state: CacheState,
    key: u128,
    country: Option<Seq<char>>,
    now: nat,
    other: u128,
)
    requires
        state.wf(),
        other != key,
    ensures
        state.after_put(key, country, now).contains(other) <==> state.contains(other) && !(
        !state.contains(key) && state.slots.len() == state.capacity && other
            == state.least_recent()),
        state.after_put(key, country, now).contains(other) ==> state.after_put(
            key,
            country,
            now,
        ).slot(other) == state.slot(other),
{
    let slots = state.slots;
    let slot = Slot { key, country, inserted_at: now };
    let out = stored(slots, slot, state.capacity);
    lemma_stored_keeps_wf(slots, slot, state.capacity);
    if slots.len() > 0 {
        lemma_place_is_unique(slots, slots.len() - 1);
    }
    if holds(out, other) {
        let q = place_of(out, other);
        assert(q > 0);
        if holds(slots, key) {
            let p = place_of(slots, key);
            lemma_place_is_unique(slots, if q - 1 < p { q - 1 } else { q });
        } else {
            assert(out[q] == slots[q - 1]);
            lemma_place_is_unique(slots, q - 1);
        }
    }
    if holds(slots, other) {
        let r = place_of(slots, other);
        lemma_place_is_unique(slots, r);
        if holds(slots, key) {
            let p = place_of(slots, key);
            assert(out[if r < p { r + 1 } else { r }] == slots[r]);
        } else if slots.len() < state.capacity || r < slots.len() - 1 {
            assert(out[r + 1] == slots[r]);
        }
    }
}

/// What a read leaves of the other keys: each is stored afterwards exactly
/// if it was before, with the slot it had.
pub proof fn lemma_get_keeps_others(state: CacheState, key: u128, now: nat, other: u128)
    requires
        state.wf(),
        other != key,
    ensures
        state.after_get(key, now).wf(),
        state.after_get(key, now).contains(other) <==> state.contains(other),
        state.contains(other) ==> state.after_get(key, now).slot(other) == state.slot(other),
{
    let slots = state.slots;
    let out = state.after_get(key, now).slots;
    lemma_promoted_keeps_wf(slots, key);
    lemma_removed_keeps_wf(slots, key);
    if holds(slots, key) {
        let p = place_of(slots, key);
        let lead: int = if state.fresh(key, now) { 1 } else { 0 };
        if holds(out, other) {
            let q = place_of(out, other);
            if q >= lead {
                lemma_place_is_unique(slots, if q - lead < p { q - lead } else { q - lead + 1 });
            }
        }
        if holds(slots, other) {
            let r = place_of(slots, other);
            lemma_place_is_unique(slots, r);
            lemma_place_is_unique(out, if r < p { r + lead } else { r - 1 + lead });
        }
    }
}

/// A read within the TTL of a write returns what was written, and leaves the
/// cache as the write left it: every further read within the TTL is the same
/// hit.
pub proof fn law_read_after_write(
    state: CacheState,
    key: u128,
    country: Option<Seq<char>>,
    written: nat,
    read: nat,
)
    requires
        state.wf(),
        age(read, written) <= state.ttl,
    ensures
        state.after_put(key, country, written).wf(),
        state.after_put(key, country, written).lookup(key, read) == Some(country),
        state.after_put(key, country, written).after_get(key, read) == state.after_put(
            key,
            country,
            written,
        ),
{
    let slot = Slot { key, country, inserted_at: written };
    let out = stored(state.slots, slot, state.capacity);
    lemma_stored_keeps_wf(state.slots, slot, state.capacity);
    lemma_place_is_unique(out, 0);
    assert(promoted(out, key) =~= out);
}

/// A hit leaves the entry as it was, at the front: a further read at a time
/// at which the entry is still within the TTL returns the same country and
/// changes nothing more.
pub proof fn law_read_after_hit(state: CacheState, key: u128, first: nat, again: nat)
    requires
        state.wf(),
        state.fresh(key, first),
        state.fresh(key, again),
    ensures
        state.after_get(key, first).wf(),
        state.after_get(key, first).lookup(key, again) == state.lookup(key, first),
        state.after_get(key, first).after_get(key, again) == state.after_get(key, first),
{
    let out = promoted(state.slots, key);
    lemma_promoted_keeps_wf(state.slots, key);
    lemma_place_is_unique(out, 0);
    assert(promoted(out, key) =~= out);
}

/// A read later than the TTL after a write is a miss, and removes the entry.
pub proof fn law_read_after_expiry(
    state: CacheState,
    key: u128,
    country: Option<Seq<char>>,
    written: nat,
    read: nat,
)
    requires
        state.wf(),
        read > written + state.ttl,
    ensures
        state.after_put(key, country, written).lookup(key, read) is None,
        !state.after_put(key, country, written).after_get(key, read).contains(key),
        state.after_put(key, country, written).after_get(key, read).wf(),
{
    let slot = Slot { key, country, inserted_at: written };
    let out = stored(state.slots, slot, state.capacity);
    lemma_stored_keeps_wf(state.slots, slot, state.capacity);
    lemma_place_is_unique(out, 0);
    lemma_removed_keeps_wf(out, key);
}

/// A write of a new key to a full cache removes the least recently used key
/// and no other, and a read of the removed key is a miss.
pub proof fn law_full_write_evicts_least_recent(
    state: CacheState,
    key: u128,
    country: Option<Seq<char>>,
    now: nat,
    other: u128,
)
    requires
        state.wf(),
        state.slots.len() == state.capacity,
        !state.contains(key),
    ensures
        state.after_put(key, country, now).slots.len() == state.capacity,
        state.after_put(key, country, now).contains(key),
        !state.after_put(key, country, now).contains(state.least_recent()),
        state.after_put(key, country, now).lookup(state.least_recent(), now) is None,
        state.contains(other) && other != state.least_recent() ==> state.after_put(
            key,
            country,
            now,
        ).contains(other),
{
    let slot = Slot { key, country, inserted_at: now };
    lemma_stored_keeps_wf(state.slots, slot, state.capacity);
    lemma_place_is_unique(state.slots, state.slots.len() - 1);
    lemma_put_keeps_others(state, key, country, now, state.least_recent());
    if other != key {
        lemma_put_keeps_others(state, key, country, now, other);
    }
}

/// A hit makes its key the most recently used: in a cache of two or more
/// entries the next write does not remove it.
pub proof fn law_hit_is_most_recent(state: CacheState, key: u128, now: nat)
    requires
        state.wf(),
        state.fresh(key, now),
        state.slots.len() >= 2,
    ensures
        state.after_get(key, now).slots[0].key == key,
        state.after_get(key, now).least_recent() != key,
{
    lemma_promoted_keeps_wf(state.slots, key);
    let out = promoted(state.slots, key);
    assert(out[0].key != out[out.len() - 1].key);
}

/// The cache after the keys are written one after the other at `now`, each
/// with the country at its place in `countries`.
pub open spec fn after_puts(
    state: CacheState,
    keys: Seq<u128>,
    countries: Seq<Option<Seq<char>>>,
    now: nat,
) -> CacheState
    decreases keys.len(),
{
    if keys.len() == 0 {
        state
    } else {
        after_puts(state, keys.drop_last(), countries, now).after_put(
            keys.last(),
            countries[keys.len() - 1],
            now,
        )
    }
}

/// After writes of distinct keys, no more of them than the cache has room
/// for, the keys stand at the front, the last written first.
pub proof fn lemma_puts_stand_in_front(
    state: CacheState,
    keys: Seq<u128>,
    countries: Seq<Option<Seq<char>>>,
    now: nat,
)
    requires
        state.wf(),
        keys.no_duplicates(),
        keys.len() <= state.capacity,
    ensures
        after_puts(state, keys, countries, now).wf(),
        after_puts(state, keys, countries, now).capacity == state.capacity,
        after_puts(state, keys, countries, now).slots.len() >= keys.len(),
        forall|i: int|
            0 <= i < keys.len() ==> (#[trigger] after_puts(state, keys, countries, now).slots[i]).key
                == keys[keys.len() - 1 - i],
    decreases keys.len(),
{
    if keys.len() > 0 {
        let n = keys.len() - 1;
        let before = after_puts(state, keys.drop_last(), countries, now);
        lemma_puts_stand_in_front(state, keys.drop_last(), countries, now);
        let slot = Slot { key: keys[n], country: countries[n], inserted_at: now };
        let out = stored(before.slots, slot, before.capacity);
        lemma_stored_keeps_wf(before.slots, slot, before.capacity);
        assert forall|i: int| 0 <= i < n implies (#[trigger] before.slots[i]).key != keys[n] by {
            assert(before.slots[i].key == keys[n - 1 - i]);
        }
        assert forall|i: int| 0 <= i < keys.len() implies (#[trigger] out[i]).key == keys[n - i] by {
            if i > 0 {
                assert(out[i] == before.slots[i - 1]);
            }
        }
    }
}

/// Eviction. After writes of distinct keys, one more than the cache has room
/// for, the cache holds all of them but the first written and nothing else:
/// they fill it, the last written first. A read of the first written key is
/// then a miss.
pub proof fn law_overflow_evicts_first_written(
    state: CacheState,
    keys: Seq<u128>,
    countries: Seq<Option<Seq<char>>>,
    now: nat,
)
    requires
        state.wf(),
        keys.no_duplicates(),
        keys.len() == state.capacity + 1,
    ensures
        after_puts(state, keys, countries, now).wf(),
        after_puts(state, keys, countries, now).slots.len() == state.capacity,
        forall|i: int|
            0 <= i < state.capacity ==> (#[trigger] after_puts(
                state,
                keys,
                countries,
                now,
            ).slots[i]).key == keys[state.capacity - i],
        !after_puts(state, keys, countries, now).contains(keys[0]),
        forall|later: nat| after_puts(state, keys, countries, now).lookup(keys[0], later) is None,
        forall|i: int|
            1 <= i < keys.len() ==> after_puts(state, keys, countries, now).contains(
                #[trigger] keys[i],
            ),
{
    let n = state.capacity as int;
    let full = after_puts(state, keys.drop_last(), countries, now);
    lemma_puts_stand_in_front(state, keys.drop_last(), countries, now);
    let slot = Slot { key: keys[n], country: countries[n], inserted_at: now };
    let out = stored(full.slots, slot, full.capacity);
    lemma_stored_keeps_wf(full.slots, slot, full.capacity);
    assert forall|i: int| 0 <= i < n implies (#[trigger] full.slots[i]).key != keys[n] by {
        assert(full.slots[i].key == keys[n - 1 - i]);
    }
    assert forall|i: int| 0 <= i < n implies (#[trigger] out[i]).key == keys[n - i] by {
        if i > 0 {
            assert(out[i] == full.slots[i - 1]);
        }
    }
    assert forall|i: int| 1 <= i < keys.len() implies holds(out, #[trigger] keys[i]) by {
        assert(out[n - i].key == keys[i]);
    }
}

} // verus!
