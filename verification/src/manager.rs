//! The manager: it answers "which move here?" from the search cache where it
//! can, and runs the engine's search, and remembers the result, where it
//! cannot.
use pleco::Board;
use vstd::prelude::*;

use crate::cache::{found, recalled, slots_wf, stored, BoundKind, CacheEntry, SearchCache, Slots};
use crate::cache::law_recall_after_store;
use crate::engine::{best_reply, legal_moves, position_key, position_text, static_value, text_after};
use crate::engine::{board_apply, board_eval, board_fork, board_key, board_scored_moves, board_search};
use crate::engine::MAX_SEARCH_DEPTH;
use crate::soundness::{has_room, playable};

verus! {

/// The number of slots in a manager's table.
pub const TABLE_ENTRIES: usize = 40000;

/// The entry written for a search result: exact, with the engine's static
/// value cut down to its low sixteen bits.
pub open spec fn fresh_entry(key: u64, mv: u16, score: i32, value: i32, depth: i16) -> CacheEntry {
    CacheEntry {
        key,
        best_move: mv,
        score,
        static_eval: value as i16,
        depth,
        bound_kind: BoundKind::Exact,
    }
}

/// The entry a search of the position with this text leaves behind. The
/// search reports a move and no score, so the score is zero.
pub open spec fn searched(text: Seq<char>, depth: u16) -> CacheEntry {
    fresh_entry(position_key(text), best_reply(text, depth), 0, static_value(text), depth as i16)
}

/// How a request is settled: the move given, and the table afterwards.
///
/// Where the table can answer, its move is given and nothing changes.
/// Where it cannot, the move is the computed one and its entry is offered
/// to the table.
pub open spec fn resolved(slots: Slots, key: u64, depth: i16, computed: CacheEntry) -> (u16, Slots) {
    match recalled(slots, key, depth) {
        Some(m) => (m, slots),
        None => (computed.best_move, stored(slots, computed)),
    }
}

/// The table after the first `n` legal moves of the position with this text
/// have been looked at: each position reached that the table did not know
/// has an entry at depth one, with the move that led there.
pub open spec fn successors_added(slots: Slots, text: Seq<char>, n: nat) -> Slots
    decreases n,
{
    if n == 0 {
        slots
    } else {
        let before = successors_added(slots, text, (n - 1) as nat);
        let mv = legal_moves(text)[n - 1];
        let next = text_after(text, mv);
        if found(before, position_key(next)) is Some {
            before
        } else {
            stored(before, fresh_entry(position_key(next), mv, 0, static_value(next), 1))
        }
    }
}

/// Memoization. A request settled once is settled from the table the second
/// time: the same move comes back, whatever a second search would have
/// said, and the table stays as the first request left it.
pub proof fn law_memoized(slots: Slots, key: u64, depth: i16, first: CacheEntry, second: CacheEntry)
    requires
        slots_wf(slots),
        first.key == key,
        first.depth == depth,
        first.bound_kind == BoundKind::Exact,
    ensures
        resolved(resolved(slots, key, depth, first).1, key, depth, second) == resolved(
            slots,
            key,
            depth,
            first,
        ),
{
    if recalled(slots, key, depth) is None {
        law_recall_after_store(slots, first, depth);
    }
}

/// A request the table answers does not depend on the search at all.
pub proof fn law_hit_needs_no_search(slots: Slots, key: u64, depth: i16, a: CacheEntry, b: CacheEntry)
    requires
        recalled(slots, key, depth) is Some,
    ensures
        resolved(slots, key, depth, a) == resolved(slots, key, depth, b),
        resolved(slots, key, depth, a).1 == slots,
{
}

/// Owner of the search cache.
pub struct Manager {
    max: u16,
    table: SearchCache,
}

impl Manager {
    /// The manager's invariant: its table is in order.
    pub closed spec fn wf(&self) -> bool {
        self.table.wf()
    }

    /// The slots of the table.
    pub closed spec fn slots(&self) -> Slots {
        self.table@
    }

    /// The bound the manager was made with.
    pub closed spec fn bound(&self) -> u16 {
        self.max
    }

    /// A manager with an empty table of `TABLE_ENTRIES` slots. `max` is kept
    /// for the caller to read back.
    pub fn init(max: u16) -> (manager: Manager)
        ensures
            manager.wf(),
            manager.bound() == max,
            manager.slots().len() == TABLE_ENTRIES,
            forall|i: int| 0 <= i < TABLE_ENTRIES ==> manager.slots()[i] is None,
    {
        let table = SearchCache::new(TABLE_ENTRIES);
        Manager { max, table }
    }

    /// The bound given to `init`.
    pub fn max(&self) -> (max: u16)
        ensures
            max == self.bound(),
    {
        self.max
    }

    /// The number of entries the table holds; never more than it has slots.
    pub fn entries(&self) -> (n: usize)
        requires
            self.wf(),
        ensures
            n == crate::cache::occupied(self.slots()),
            n <= self.slots().len(),
    {
        self.table.len()
    }

    /// The entry the table holds for `key`.
    pub fn entry(&self, key: u64) -> (r: Option<CacheEntry>)
        requires
            self.wf(),
        ensures
            r == found(self.slots(), key),
    {
        self.table.probe(key)
    }

    /// The move the table remembers for `key`, deep enough for `depth` plies.
    pub fn cached(&self, key: u64, depth: i16) -> (r: Option<u16>)
        requires
            self.wf(),
        ensures
            r == recalled(self.slots(), key, depth),
    {
        self.table.recall(key, depth)
    }

    /// Offers a finished entry to the table.
    pub fn remember(&mut self, entry: CacheEntry)
        requires
            old(self).wf(),
        ensures
            final(self).wf(),
            final(self).bound() == old(self).bound(),
            final(self).slots() == stored(old(self).slots(), entry),
    {
        self.table.insert(entry);
    }

    /// Writes the entry for a position: `board` is evaluated, and the
    /// result goes into the table under `key` as an exact entry with the
    /// given move, score and depth.
    pub fn add_safely(&mut self, key: u64, board: &Board, mv: u16, score: i32, depth: i16)
        requires
            old(self).wf(),
        ensures
            final(self).wf(),
            final(self).bound() == old(self).bound(),
            final(self).slots() == stored(
                old(self).slots(),
                fresh_entry(key, mv, score, static_value(position_text(*board)), depth),
            ),
    {
        let value = board_eval(board);
        let entry = CacheEntry {
            key,
            best_move: mv,
            score,
            static_eval: #[verifier::truncate] (value as i16),
            depth,
            bound_kind: BoundKind::Exact,
        };
        self.remember(entry);
    }

    /// The move to play on `board`, looking `req_depth` plies ahead.
    ///
    /// The table is asked first, under the hash of the board's position. An
    /// entry at least `req_depth` deep settles the request and the table is
    /// left alone. Otherwise the engine searches, and the move it finds is
    /// returned and remembered.
    pub fn check_or_find_dumb_best(&mut self, board: &Board, req_depth: u16) -> (best: u16)
        requires
            old(self).wf(),
            playable(position_text(*board)),
            has_room(position_text(*board)),
            req_depth <= MAX_SEARCH_DEPTH,
        ensures
            final(self).wf(),
            final(self).bound() == old(self).bound(),
            (best, final(self).slots()) == resolved(
                old(self).slots(),
                position_key(position_text(*board)),
                req_depth as i16,
                searched(position_text(*board), req_depth),
            ),
    {
        let key = board_key(board);
        let depth = req_depth as i16;
        match self.cached(key, depth) {
            Some(m) => m,
            None => {
                let best = board_search(board, req_depth);
                self.add_safely(key, board, best, 0, depth);
                best
            },
        }
    }

    /// Fills the table ahead of time: every position one legal move away
    /// from `board` that the table does not know gets an entry at depth
    /// one, holding the move that leads to it.
    pub fn shallow_add(&mut self, board: &Board)
        requires
            old(self).wf(),
            playable(position_text(*board)),
            has_room(position_text(*board)),
        ensures
            final(self).wf(),
            final(self).bound() == old(self).bound(),
            final(self).slots() == successors_added(
                old(self).slots(),
                position_text(*board),
                legal_moves(position_text(*board)).len(),
            ),
    {
        let ghost text = position_text(*board);
        let ghost before = self.slots();
        let ghost bound = self.bound();
        let scored = board_scored_moves(board);
        let mut i: usize = 0;
        while i < scored.len()
            invariant
                i <= scored.len(),
                text == position_text(*board),
                playable(text),
                has_room(text),
                scored@ == legal_moves(text).map_values(|m: u16| (m, 0i16)),
                self.wf(),
                self.bound() == bound,
                self.slots() == successors_added(before, text, i as nat),
            decreases scored.len() - i,
        {
            let (mv, score) = scored[i];
            assert(legal_moves(text)[i as int] == mv && score == 0);
            let mut next = board_fork(board);
            board_apply(&mut next, mv);
            let key = board_key(&next);
            if self.entry(key).is_none() {
                self.add_safely(key, &next, mv, score as i32, 1);
            }
            i += 1;
        }
    }
}

} // verus!
