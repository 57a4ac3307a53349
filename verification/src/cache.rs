//! The search cache: a table of fixed capacity that remembers, for the hash
//! of a position, the move a search found there and how deep it looked.
//!
//! The table is direct-mapped. A key owns exactly one slot, the key modulo
//! the capacity, so two keys that share a slot compete for it and the later
//! one wins. An entry is never moved, and nothing is ever removed except by
//! being overwritten.
use vstd::prelude::*;

verus! {

/// How a stored score relates to the true value of its position.
#[derive(Clone, Copy, Debug, PartialEq, Eq, Structural)]
pub enum BoundKind {
    Exact,
    LowerBound,
    UpperBound,
}

/// One remembered search result.
///
/// An entry answers a request for `depth` plies only when its own `depth` is
/// at least that large: a shallow result never stands in for a deeper one.
#[derive(Clone, Copy, Debug, PartialEq, Eq, Structural)]
pub struct CacheEntry {
    /// Hash of the position the result belongs to.
    pub key: u64,
    /// The move found, in the engine's 16-bit encoding.
    pub best_move: u16,
    /// Score the search gave the position.
    pub score: i32,
    /// Static evaluation of the position.
    pub static_eval: i16,
    /// Plies the search looked ahead.
    pub depth: i16,
    pub bound_kind: BoundKind,
}

/// The slots of a table, as the contracts see them.
pub type Slots = Seq<Option<CacheEntry>>;

/// The slot that `key` owns in a table of `capacity` slots.
pub open spec fn slot_of(key: u64, capacity: nat) -> int {
    key as int % capacity as int
}

/// Every entry sits in the slot its key owns.
pub open spec fn slots_wf(slots: Slots) -> bool {
    &&& slots.len() > 0
    &&& forall|i: int|
        0 <= i < slots.len() ==> match #[trigger] slots[i] {
            Some(e) => slot_of(e.key, slots.len()) == i,
            None => true,
        }
}

/// The entry stored for `key`, if there is one.
pub open spec fn found(slots: Slots, key: u64) -> Option<CacheEntry> {
    match slots[slot_of(key, slots.len())] {
        Some(e) => if e.key == key {
            Some(e)
        } else {
            None
        },
        None => None,
    }
}

/// The move the table can give for `key` when `depth` plies are asked for.
pub open spec fn recalled(slots: Slots, key: u64, depth: i16) -> Option<u16> {
    match found(slots, key) {
        Some(e) => if e.depth >= depth {
            Some(e.best_move)
        } else {
            None
        },
        None => None,
    }
}

/// The replacement rule: whether `new` takes a slot that holds `held`.
///
/// An empty slot and a slot held for another key always give way. An entry
/// for the same key gives way to an exact result and to one at least as deep.
pub open spec fn gives_way(held: Option<CacheEntry>, new: CacheEntry) -> bool {
    match held {
        None => true,
        Some(h) => h.key != new.key || new.bound_kind == BoundKind::Exact || new.depth >= h.depth,
    }
}

/// The table after `e` has been offered to it.
pub open spec fn stored(slots: Slots, e: CacheEntry) -> Slots {
    let i = slot_of(e.key, slots.len());
    if gives_way(slots[i], e) {
        slots.update(i, Some(e))
    } else {
        slots
    }
}

/// How many slots hold an entry.
pub open spec fn occupied(slots: Slots) -> nat
    decreases slots.len(),
{
    if slots.len() == 0 {
        0
    } else {
        occupied(slots.drop_last()) + if slots.last() is Some {
            1nat
        } else {
            0nat
        }
    }
}

/// The table read as a mapping from keys to entries.
pub open spec fn entries(slots: Slots) -> Map<u64, CacheEntry> {
    Map::new(|k: u64| found(slots, k) is Some, |k: u64| found(slots, k).unwrap())
}

/// A table never holds more entries than it has slots.
proof fn lemma_occupied_bounded(slots: Slots)
    ensures
        occupied(slots) <= slots.len(),
    decreases slots.len(),
{
    if slots.len() > 0 {
        lemma_occupied_bounded(slots.drop_last());
    }
}

/// A table of empty slots holds nothing.
proof fn lemma_occupied_empty(slots: Slots)
    requires
        forall|i: int| 0 <= i < slots.len() ==> slots[i] is None,
    ensures
        occupied(slots) == 0,
    decreases slots.len(),
{
    if slots.len() > 0 {
        lemma_occupied_empty(slots.drop_last());
    }
}

/// Writing one slot changes the count by what left and what came.
proof fn lemma_occupied_update(slots: Slots, i: int, v: Option<CacheEntry>)
    requires
        0 <= i < slots.len(),
    ensures
        occupied(slots.update(i, v)) + (if slots[i] is Some {
            1nat
        } else {
            0nat
        }) == occupied(slots) + (if v is Some {
            1nat
        } else {
            0nat
        }),
    decreases slots.len(),
{
    let after = slots.update(i, v);
    if i == slots.len() - 1 {
        assert(after.drop_last() =~= slots.drop_last());
    } else {
        assert(after.drop_last() =~= slots.drop_last().update(i, v));
        lemma_occupied_update(slots.drop_last(), i, v);
    }
}

/// Offering an entry keeps every entry in the slot its key owns.
proof fn lemma_stored_wf(slots: Slots, e: CacheEntry)
    requires
        slots_wf(slots),
    ensures
        slots_wf(stored(slots, e)),
        stored(slots, e).len() == slots.len(),
{
    lemma_slot_in_range(e.key, slots.len());
}

/// The slot a key owns lies inside the table.
proof fn lemma_slot_in_range(key: u64, capacity: nat)
    requires
        capacity > 0,
    ensures
        0 <= slot_of(key, capacity) < capacity,
{
    let k = key as int;
    let n = capacity as int;
    assert(0 <= k % n && k % n < n) by (nonlinear_arith)
        requires
            n > 0,
            k >= 0,
    ;
}

/// An entry that took its slot is found again under its key, and answers
/// every request that asks for no more plies than it has.
pub proof fn law_recall_after_store(slots: Slots, e: CacheEntry, depth: i16)
    requires
        slots_wf(slots),
        gives_way(slots[slot_of(e.key, slots.len())], e),
    ensures
        found(stored(slots, e), e.key) == Some(e),
        depth <= e.depth ==> recalled(stored(slots, e), e.key, depth) == Some(e.best_move),
        depth > e.depth ==> recalled(stored(slots, e), e.key, depth) is None,
{
    lemma_slot_in_range(e.key, slots.len());
}

/// An exact result always takes its slot.
pub proof fn law_exact_is_stored(slots: Slots, e: CacheEntry)
    requires
        slots_wf(slots),
        e.bound_kind == BoundKind::Exact,
    ensures
        found(stored(slots, e), e.key) == Some(e),
{
    law_recall_after_store(slots, e, 0);
}

/// An entry that was refused leaves the table as it was; this happens only
/// where the slot holds an entry for the same key that is deeper.
pub proof fn law_refused_is_shallower(slots: Slots, e: CacheEntry)
    requires
        slots_wf(slots),
        !gives_way(slots[slot_of(e.key, slots.len())], e),
    ensures
        stored(slots, e) == slots,
        found(slots, e.key) matches Some(h) && h.depth > e.depth && e.bound_kind != BoundKind::Exact,
{
}

/// Offering an entry touches one slot only: a key that owns another slot
/// finds what it found before.
pub proof fn law_store_leaves_other_slots(slots: Slots, e: CacheEntry, key: u64)
    requires
        slots_wf(slots),
        slot_of(key, slots.len()) != slot_of(e.key, slots.len()),
    ensures
        found(stored(slots, e), key) == found(slots, key),
{
    lemma_slot_in_range(e.key, slots.len());
    lemma_slot_in_range(key, slots.len());
}

/// What a key finds after an entry for another key was offered is what it
/// found before, or nothing: the table never answers with another key's
/// entry and never makes one up.
pub proof fn law_store_evicts_or_keeps(slots: Slots, e: CacheEntry, key: u64)
    requires
        slots_wf(slots),
        key != e.key,
    ensures
        found(stored(slots, e), key) == found(slots, key) || found(stored(slots, e), key) is None,
{
    lemma_slot_in_range(e.key, slots.len());
    lemma_slot_in_range(key, slots.len());
}

/// The number of entries never passes the capacity, and grows by at most one
/// with each offer.
pub proof fn law_size_bounded(slots: Slots, e: CacheEntry)
    requires
        slots_wf(slots),
    ensures
        occupied(slots) <= slots.len(),
        occupied(stored(slots, e)) <= slots.len(),
        occupied(slots) <= occupied(stored(slots, e)) <= occupied(slots) + 1,
{
    lemma_occupied_bounded(slots);
    lemma_stored_wf(slots, e);
    lemma_occupied_bounded(stored(slots, e));
    lemma_slot_in_range(e.key, slots.len());
    let i = slot_of(e.key, slots.len());
    if gives_way(slots[i], e) {
        lemma_occupied_update(slots, i, Some(e));
    }
}

/// The keys stored in a run of slots.
spec fn keys_of(slots: Slots) -> Set<u64>
    decreases slots.len(),
{
    if slots.len() == 0 {
        Set::empty()
    } else {
        match slots.last() {
            Some(e) => keys_of(slots.drop_last()).insert(e.key),
            None => keys_of(slots.drop_last()),
        }
    }
}

/// In the first slots of a table of `capacity` slots, as many keys are
/// stored as slots are taken, and a key is stored exactly when the slot it
/// owns holds an entry for it.
proof fn lemma_keys_of(slots: Slots, capacity: nat)
    requires
        capacity > 0,
        forall|i: int|
            0 <= i < slots.len() ==> match #[trigger] slots[i] {
                Some(e) => slot_of(e.key, capacity) == i,
                None => true,
            },
    ensures
        keys_of(slots).finite(),
        keys_of(slots).len() == occupied(slots),
        forall|k: u64|
            keys_of(slots).contains(k) <==> slot_of(k, capacity) < slots.len() && (
            #[trigger] slots[slot_of(k, capacity)] matches Some(e) && e.key == k),
    decreases slots.len(),
{
    if slots.len() > 0 {
        let rest = slots.drop_last();
        let last = slots.len() - 1;
        assert forall|i: int| 0 <= i < rest.len() implies match #[trigger] rest[i] {
            Some(e) => slot_of(e.key, capacity) == i,
            None => true,
        } by {
            assert(rest[i] == slots[i]);
        }
        lemma_keys_of(rest, capacity);
        assert forall|k: u64|
            keys_of(slots).contains(k) <==> slot_of(k, capacity) < slots.len() && (
            #[trigger] slots[slot_of(k, capacity)] matches Some(e) && e.key == k) by {
            lemma_slot_in_range(k, capacity);
            let i = slot_of(k, capacity);
            if i < last {
                assert(rest[i] == slots[i]);
            }
            match slots[last] {
                Some(e) => {
                    assert(slot_of(e.key, capacity) == last);
                },
                None => {},
            }
        }
        match slots[last] {
            Some(e) => {
                assert(slot_of(e.key, capacity) == last);
                assert(rest[slot_of(e.key, capacity)] == rest[last]);
                assert(!keys_of(rest).contains(e.key));
            },
            None => {},
        }
    }
}

/// Read as a mapping, a table holds as many keys as it has slots taken:
/// never more than its capacity.
pub proof fn law_entries_bounded(slots: Slots)
    requires
        slots_wf(slots),
    ensures
        entries(slots).dom().finite(),
        entries(slots).dom().len() == occupied(slots),
        entries(slots).dom().len() <= slots.len(),
{
    lemma_keys_of(slots, slots.len());
    lemma_occupied_bounded(slots);
    assert forall|k: u64| entries(slots).dom().contains(k) <==> keys_of(slots).contains(k) by {
        lemma_slot_in_range(k, slots.len());
    }
    assert(entries(slots).dom() =~= keys_of(slots));
}

/// A table of fixed capacity that maps position hashes to search results.
pub struct SearchCache {
    slots: Vec<Option<CacheEntry>>,
    used: usize,
}

impl View for SearchCache {
    type V = Slots;

    closed spec fn view(&self) -> Slots {
        self.slots@
    }
}

impl SearchCache {
    /// The table's own invariant: entries sit where their keys put them and
    /// the running count is right.
    pub closed spec fn wf(&self) -> bool {
        &&& slots_wf(self.slots@)
        &&& self.used == occupied(self.slots@)
    }

    /// An empty table of `capacity` slots.
    pub fn new(capacity: usize) -> (cache: SearchCache)
        requires
            capacity > 0,
        ensures
            cache.wf(),
            cache@.len() == capacity,
            forall|i: int| 0 <= i < capacity ==> cache@[i] is None,
            occupied(cache@) == 0,
    {
        let mut slots: Vec<Option<CacheEntry>> = Vec::new();
        let mut i: usize = 0;
        while i < capacity
            invariant
                i <= capacity,
                slots@.len() == i,
                forall|j: int| 0 <= j < i ==> slots@[j] is None,
            decreases capacity - i,
        {
            slots.push(None);
            i += 1;
        }
        proof {
            lemma_occupied_empty(slots@);
        }
        SearchCache { slots, used: 0 }
    }

    /// The number of slots, fixed when the table was made.
    pub fn capacity(&self) -> (n: usize)
        requires
            self.wf(),
        ensures
            n == self@.len(),
            n > 0,
    {
        self.slots.len()
    }

    /// The number of entries held.
    pub fn len(&self) -> (n: usize)
        requires
            self.wf(),
        ensures
            n == occupied(self@),
            n == entries(self@).dom().len(),
            n <= self@.len(),
    {
        proof {
            law_entries_bounded(self.slots@);
        }
        self.used
    }

    /// The entry stored for `key`, if there is one.
    pub fn probe(&self, key: u64) -> (r: Option<CacheEntry>)
        requires
            self.wf(),
        ensures
            r == found(self@, key),
    {
        let i = self.index_of(key);
        match self.slots[i] {
            Some(e) => if e.key == key {
                Some(e)
            } else {
                None
            },
            None => None,
        }
    }

    /// The move remembered for `key`, where the entry is deep enough to
    /// answer a request for `depth` plies.
    pub fn recall(&self, key: u64, depth: i16) -> (r: Option<u16>)
        requires
            self.wf(),
        ensures
            r == recalled(self@, key, depth),
    {
        match self.probe(key) {
            Some(e) => if e.depth >= depth {
                Some(e.best_move)
            } else {
                None
            },
            None => None,
        }
    }

    /// Offers `e` to the table. It takes the slot its key owns unless that
    /// slot holds a deeper entry for the same key and `e` is not exact.
    /// Returns whether it was taken in.
    pub fn insert(&mut self, e: CacheEntry) -> (taken: bool)
        requires
            old(self).wf(),
        ensures
            final(self).wf(),
            final(self)@ == stored(old(self)@, e),
            taken == gives_way(old(self)@[slot_of(e.key, old(self)@.len())], e),
    {
        let i = self.index_of(e.key);
        let n = self.slots.len();
        let held = self.slots[i];
        let taken = match held {
            None => true,
            Some(h) => h.key != e.key || e.bound_kind == BoundKind::Exact || e.depth >= h.depth,
        };
        if taken {
            proof {
                lemma_occupied_update(self.slots@, i as int, Some(e));
                lemma_occupied_bounded(self.slots@.update(i as int, Some(e)));
                lemma_stored_wf(self.slots@, e);
            }
            if held.is_none() {
                assert(self.used < n) by {
                    assert(self.slots@.update(i as int, Some(e)).len() == self.slots@.len());
                }
                self.used = self.used + 1;
            }
            self.slots.set(i, Some(e));
        }
        taken
    }

    fn index_of(&self, key: u64) -> (i: usize)
        requires
            self.wf(),
        ensures
            i == slot_of(key, self@.len()),
            i < self@.len(),
    {
        let n = self.slots.len();
        proof {
            lemma_slot_in_range(key, n as nat);
        }
        (key % (n as u64)) as usize
    }
}

} // verus!
