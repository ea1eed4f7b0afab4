//! The world-state engine's core: the game state aggregate, its invariant,
//! the ledger lookups, the authorization rule, and the uncover operation
//! with its bounded recency queue and age-based eviction.

use std::collections::VecDeque;

use vstd::prelude::*;

use crate::geometry::{pos_interior, tiles_around, tiles_around_spec, Position};
use crate::oracle::{adjacent_mine_count, adjacent_mine_count_spec, is_mine_spec};
use crate::types::{DbPlayer, DbTile};

verus! {

/// Entries older than this many in-game seconds may leave the recency queue.
pub const EVICTION_AGE_SECONDS: u32 = 600;

/// The recency queue is never pruned below this many entries.
pub const EVICTION_FLOOR: usize = 100;

/// The shared world: the append-only ledger of uncovered tiles, the player
/// registry, and the recency queue that seeds the spawn search.
pub struct GameState {
    /// World seed and time origin (absolute unix seconds), immutable.
    pub epoch: u32,
    /// The authoritative ledger: each uncovered tile appears exactly once,
    /// and an entry is never removed or changed.
    pub board: Vec<(Position, DbTile)>,
    /// The registry, keyed by id; records persist after disconnect.
    pub players: Vec<(u32, DbPlayer)>,
    /// The next id to mint; ids are unique and never reused.
    pub next_player_id: u32,
    /// Recently uncovered positions, oldest first.
    pub uncover_history: VecDeque<Position>,
    /// The largest in-game timestamp handed out so far; at least 1.
    pub clock: u32,
}

/// The ledger entry at `p`, if any: the last (and, under the state
/// invariant, only) entry carrying that position.
pub open spec fn board_lookup(board: Seq<(Position, DbTile)>, p: Position) -> Option<DbTile>
    decreases board.len(),
{
    if board.len() == 0 {
        None
    } else if board.last().0 == p {
        Some(board.last().1)
    } else {
        board_lookup(board.drop_last(), p)
    }
}

/// Whether the ledger holds an entry at `p`.
pub open spec fn board_contains(board: Seq<(Position, DbTile)>, p: Position) -> bool {
    board_lookup(board, p) is Some
}

/// The registry record of `id`, if any.
pub open spec fn player_lookup(players: Seq<(u32, DbPlayer)>, id: u32) -> Option<DbPlayer>
    decreases players.len(),
{
    if players.len() == 0 {
        None
    } else if players.last().0 == id {
        Some(players.last().1)
    } else {
        player_lookup(players.drop_last(), id)
    }
}

/// The index of the registry record of `id`, or -1.
pub open spec fn player_index_spec(players: Seq<(u32, DbPlayer)>, id: u32) -> int
    decreases players.len(),
{
    if players.len() == 0 {
        -1
    } else if players.last().0 == id {
        players.len() - 1
    } else {
        player_index_spec(players.drop_last(), id)
    }
}

/// The single authorization gate: the id exists, the token matches exactly,
/// and the player has not hit a mine.
pub open spec fn auth_ok(players: Seq<(u32, DbPlayer)>, player_id: u32, token: Seq<char>) -> bool {
    match player_lookup(players, player_id) {
        Some(p) => p.token@ == token && !p.game_over,
        None => false,
    }
}

/// `position` touches territory of `player_id`: one of its eight neighbours
/// is an uncovered tile owned by that player.
pub open spec fn touches_spec(
    board: Seq<(Position, DbTile)>,
    position: Position,
    player_id: u32,
) -> bool {
    exists|k: int|
        0 <= k < 8 && match #[trigger] board_lookup(board, tiles_around_spec(position)[k]) {
            Some(t) => t.player_id == player_id,
            None => false,
        }
}

/// The later of the stored clock and a fresh reading, so that in-game time
/// never runs backwards.
pub open spec fn effective_time(clock: u32, now: u32) -> u32 {
    if now > clock {
        now
    } else {
        clock
    }
}

/// One pass of age-based eviction over the recency queue: pop the front
/// while the queue is longer than the floor and the front entry is older
/// than the age bound.  Only the queue shrinks; the ledger never does.
pub open spec fn evict_spec(
    board: Seq<(Position, DbTile)>,
    hist: Seq<Position>,
    now: u32,
) -> Seq<Position>
    decreases hist.len(),
{
    if hist.len() > EVICTION_FLOOR {
        match board_lookup(board, hist[0]) {
            Some(t) => if now >= t.uncovered && now - t.uncovered > EVICTION_AGE_SECONDS {
                evict_spec(board, hist.drop_first(), now)
            } else {
                hist
            },
            None => hist,
        }
    } else {
        hist
    }
}

/// How uncovering changes the world: a no-op on an already uncovered tile;
/// otherwise a ledger append under the effective time, a push onto the
/// recency queue followed by the eviction pass, and a clock advance.
/// Players and identity are untouched either way.
pub open spec fn uncover_transition(
    pre: GameState,
    post: GameState,
    position: Position,
    player_id: u32,
    now: u32,
) -> bool {
    if board_contains(pre.board@, position) {
        post == pre
    } else {
        let eff = effective_time(pre.clock, now);
        let entry = (position, DbTile { uncovered: eff, player_id });
        &&& post.board@ == pre.board@.push(entry)
        &&& post.clock == eff
        &&& post.uncover_history@ == evict_spec(
            post.board@,
            pre.uncover_history@.push(position),
            eff,
        )
        &&& post.players@ == pre.players@
        &&& post.epoch == pre.epoch
        &&& post.next_player_id == pre.next_player_id
    }
}

impl GameState {
    /// The state invariant: ledger positions unique, interior and stamped
    /// within [1, clock]; registry ids unique and below the next id; scores
    /// covered by the ledger; every queued position present in the ledger.
    pub open spec fn wf(self) -> bool {
        &&& 1 <= self.next_player_id
        &&& 1 <= self.clock
        &&& forall|i: int, j: int|
            0 <= i < j < self.board@.len() ==> (#[trigger] self.board@[i]).0 != (
            #[trigger] self.board@[j]).0
        &&& forall|i: int|
            0 <= i < self.board@.len() ==> pos_interior((#[trigger] self.board@[i]).0)
        &&& forall|i: int|
            0 <= i < self.board@.len() ==> 1 <= (#[trigger] self.board@[i]).1.uncovered
                <= self.clock
        &&& forall|i: int, j: int|
            0 <= i < j < self.players@.len() ==> (#[trigger] self.players@[i]).0 != (
            #[trigger] self.players@[j]).0
        &&& forall|i: int|
            0 <= i < self.players@.len() ==> 1 <= (#[trigger] self.players@[i]).0
                < self.next_player_id
        &&& forall|i: int|
            0 <= i < self.players@.len() ==> (#[trigger] self.players@[i]).1.score
                <= self.board@.len()
        &&& forall|i: int|
            0 <= i < self.uncover_history@.len() ==> board_contains(
                self.board@,
                #[trigger] self.uncover_history@[i],
            )
    }

    /// A fresh world: an empty ledger and registry under the given seed, or
    /// under one derived from the wall clock when none is given.
    pub fn new(seed: Option<u32>) -> (r: GameState)
        ensures
            r.wf(),
            r.board@.len() == 0,
            r.players@.len() == 0,
            r.uncover_history@.len() == 0,
            r.next_player_id == 1,
            r.clock == 1,
            seed matches Some(s) ==> r.epoch == s,
    {
        let epoch = match seed {
            Some(s) => s,
            None => {
                let now = crate::external::unix_now_seconds();
                if now > 0 {
                    now - 1
                } else {
                    0
                }
            },
        };
        GameState {
            epoch,
            board: Vec::new(),
            players: Vec::new(),
            next_player_id: 1,
            uncover_history: VecDeque::new(),
            clock: 1,
        }
    }

    /// The ledger entry at `position`, if any.
    pub fn board_get(&self, position: Position) -> (r: Option<DbTile>)
        ensures
            r == board_lookup(self.board@, position),
    {
        let ghost full = self.board@;
        let mut i: usize = self.board.len();
        proof {
            assert(full.take(i as int) =~= full);
        }
        while i > 0
            invariant
                i <= full.len(),
                full == self.board@,
                board_lookup(full, position) == board_lookup(full.take(i as int), position),
            decreases i,
        {
            i = i - 1;
            proof {
                assert(full.take(i as int + 1).drop_last() =~= full.take(i as int));
                assert(full.take(i as int + 1).last() == full[i as int]);
            }
            if self.board[i].0 == position {
                return Some(self.board[i].1);
            }
        }
        None
    }

    /// Whether `position` is in the ledger (map membership test).
    pub fn is_uncovered(&self, position: Position) -> (r: bool)
        ensures
            r == board_contains(self.board@, position),
    {
        self.board_get(position).is_some()
    }

    /// Whether `position` hides a mine under this world's seed.
    pub fn is_mine(&self, position: Position) -> (r: bool)
        ensures
            r == is_mine_spec(self.epoch, position),
    {
        crate::oracle::is_mine(self.epoch, position)
    }

    /// How many mines surround `position` under this world's seed.
    pub fn adjacent_mines(&self, position: Position) -> (r: i8)
        requires
            pos_interior(position),
        ensures
            r as int == adjacent_mine_count_spec(self.epoch, position),
            0 <= r <= 8,
    {
        adjacent_mine_count(self.epoch, position)
    }

    /// The registry index of `player_id`, if any.
    pub fn player_index(&self, player_id: u32) -> (r: Option<usize>)
        ensures
            match r {
                Some(i) => {
                    &&& i < self.players@.len()
                    &&& i as int == player_index_spec(self.players@, player_id)
                    &&& self.players@[i as int].0 == player_id
                    &&& player_lookup(self.players@, player_id) == Some(
                        self.players@[i as int].1,
                    )
                },
                None => player_lookup(self.players@, player_id) is None && player_index_spec(
                    self.players@,
                    player_id,
                ) == -1,
            },
    {
        let ghost full = self.players@;
        let mut i: usize = self.players.len();
        proof {
            assert(full.take(i as int) =~= full);
        }
        while i > 0
            invariant
                i <= full.len(),
                full == self.players@,
                player_lookup(full, player_id) == player_lookup(full.take(i as int), player_id),
                player_index_spec(full, player_id) == player_index_spec(
                    full.take(i as int),
                    player_id,
                ),
            decreases i,
        {
            i = i - 1;
            proof {
                assert(full.take(i as int + 1).drop_last() =~= full.take(i as int));
                assert(full.take(i as int + 1).last() == full[i as int]);
            }
            if self.players[i].0 == player_id {
                return Some(i);
            }
        }
        None
    }

    /// The authorization gate for every mutating action.
    pub fn player_valid_and_playing(&self, player_id: u32, token: String) -> (r: bool)
        ensures
            r == auth_ok(self.players@, player_id, token@),
    {
        match self.player_index(player_id) {
            Some(i) => {
                let p = &self.players[i].1;
                p.token == token && !p.game_over
            },
            None => false,
        }
    }

    /// Whether one of the eight neighbours of `position` is an uncovered
    /// tile owned by `player_id`: the sole adjacency-authorization rule.
    pub fn touches_own_area(&self, position: Position, player_id: u32) -> (r: bool)
        requires
            pos_interior(position),
        ensures
            r == touches_spec(self.board@, position, player_id),
    {
        let around = tiles_around(position);
        let ghost s = tiles_around_spec(position);
        let mut k: usize = 0;
        while k < around.len()
            invariant
                around@ == s,
                s == tiles_around_spec(position),
                s.len() == 8,
                k <= 8,
                forall|j: int|
                    0 <= j < k ==> match #[trigger] board_lookup(self.board@, s[j]) {
                        Some(t) => t.player_id != player_id,
                        None => true,
                    },
            decreases around.len() - k,
        {
            match self.board_get(around[k]) {
                Some(t) => {
                    if t.player_id == player_id {
                        proof {
                            assert(match board_lookup(
                                self.board@,
                                tiles_around_spec(position)[k as int],
                            ) {
                                Some(t2) => t2.player_id == player_id,
                                None => false,
                            });
                        }
                        return true;
                    }
                },
                None => {},
            }
            k = k + 1;
        }
        false
    }

    /// Uncover `position` for `player_id` at time `now`: idempotent, and
    /// eviction never prunes the recency queue below its floor.
    pub fn uncover_at(&mut self, position: Position, player_id: u32, now: u32)
        requires
            old(self).wf(),
            pos_interior(position),
        ensures
            final(self).wf(),
            uncover_transition(*old(self), *final(self), position, player_id, now),
            final(self).uncover_history@.len() >= EVICTION_FLOOR || final(self).uncover_history@.len()
                >= old(self).uncover_history@.len(),
    {
        if self.is_uncovered(position) {
            return ;
        }
        let eff = if now > self.clock {
            now
        } else {
            self.clock
        };
        let ghost pre = *self;
        self.clock = eff;
        self.board.push((position, DbTile { uncovered: eff, player_id }));
        self.uncover_history.push_back(position);
        let ghost board2 = self.board@;
        let ghost pushed = self.uncover_history@;
        proof {
            lemma_board_not_contains_entries(pre.board@, position);
            lemma_board_contains_push(pre.board@, (position, DbTile { uncovered: eff, player_id }));
            assert(forall|i: int|
                0 <= i < pre.board@.len() ==> board2[i] == #[trigger] pre.board@[i]);
            assert(forall|i: int|
                0 <= i < pre.uncover_history@.len() ==> pushed[i] == #[trigger] pre
                    .uncover_history@[i]);
        }
        loop
            invariant
                self.board@ == board2,
                self.players@ == pre.players@,
                self.epoch == pre.epoch,
                self.next_player_id == pre.next_player_id,
                self.clock == eff,
                eff >= 1,
                forall|i: int|
                    0 <= i < board2.len() ==> 1 <= (#[trigger] board2[i]).1.uncovered <= eff,
                forall|i: int|
                    0 <= i < self.uncover_history@.len() ==> board_contains(
                        board2,
                        #[trigger] self.uncover_history@[i],
                    ),
                evict_spec(board2, self.uncover_history@, eff) == evict_spec(board2, pushed, eff),
                self.uncover_history@.len() >= EVICTION_FLOOR || self.uncover_history@ == pushed,
            ensures
                self.board@ == board2,
                self.players@ == pre.players@,
                self.epoch == pre.epoch,
                self.next_player_id == pre.next_player_id,
                self.clock == eff,
                self.uncover_history@ == evict_spec(board2, pushed, eff),
                forall|i: int|
                    0 <= i < self.uncover_history@.len() ==> board_contains(
                        board2,
                        #[trigger] self.uncover_history@[i],
                    ),
                self.uncover_history@.len() >= EVICTION_FLOOR || self.uncover_history@ == pushed,
            decreases self.uncover_history@.len(),
        {
            if self.uncover_history.len() <= EVICTION_FLOOR {
                break ;
            }
            let front = self.uncover_history[0];
            match self.board_get(front) {
                Some(t) => {
                    proof {
                        lemma_board_lookup_is_entry(board2, front);
                    }
                    if eff - t.uncovered > EVICTION_AGE_SECONDS {
                        let ghost h = self.uncover_history@;
                        self.uncover_history.pop_front();
                        proof {
                            assert(self.uncover_history@ =~= h.drop_first());
                            assert(forall|i: int|
                                0 <= i < h.drop_first().len() ==> h.drop_first()[i]
                                    == #[trigger] h[i + 1]);
                        }
                    } else {
                        break ;
                    }
                },
                None => {
                    break ;
                },
            }
        }
        proof {
            assert forall|i: int, j: int|
                0 <= i < j < board2.len() implies board2[i].0 != board2[j].0 by {
                if j < board2.len() - 1 {
                    assert(pre.board@[i] == board2[i]);
                    assert(pre.board@[j] == board2[j]);
                }
            }
        }
    }

    /// Uncover under the wall clock: some in-game time is read and handed
    /// to the timed operation.
    pub fn uncover(&mut self, position: Position, player_id: u32)
        requires
            old(self).wf(),
            pos_interior(position),
        ensures
            final(self).wf(),
            exists|now: u32|
                uncover_transition(*old(self), *final(self), position, player_id, now),
    {
        let now = crate::external::unix_now_seconds();
        let rel = if now > self.epoch {
            now - self.epoch
        } else {
            0
        };
        self.uncover_at(position, player_id, rel);
        proof {
            assert(uncover_transition(*old(self), *self, position, player_id, rel));
        }
    }

    /// Mark the player's outbound channel as attached.  The channel itself
    /// lives with the transport layer; the engine only records that the
    /// player is currently reachable.
    pub fn set_player_sender(&mut self, player_id: u32)
        requires
            old(self).wf(),
        ensures
            final(self).wf(),
            connected_transition(*old(self), *final(self), player_id, true),
    {
        match self.player_index(player_id) {
            Some(i) => {
                self.players[i].1.connected = true;
            },
            None => {},
        }
    }

    /// Mark the player's outbound channel as detached.  The record itself
    /// persists, so the player can reconnect with the same token.
    pub fn remove_player(&mut self, player_id: u32)
        requires
            old(self).wf(),
        ensures
            final(self).wf(),
            connected_transition(*old(self), *final(self), player_id, false),
    {
        match self.player_index(player_id) {
            Some(i) => {
                self.players[i].1.connected = false;
            },
            None => {},
        }
    }
}

/// How attaching or detaching a channel changes the world: only the one
/// player's `connected` flag moves; an unknown id changes nothing.
pub open spec fn connected_transition(
    pre: GameState,
    post: GameState,
    player_id: u32,
    connected: bool,
) -> bool {
    let idx = player_index_spec(pre.players@, player_id);
    if idx < 0 {
        post == pre
    } else {
        let p = pre.players@[idx].1;
        &&& post.players@ == pre.players@.update(
            idx,
            (player_id, DbPlayer { connected, ..p }),
        )
        &&& post.board@ == pre.board@
        &&& post.uncover_history@ == pre.uncover_history@
        &&& post.epoch == pre.epoch
        &&& post.next_player_id == pre.next_player_id
        &&& post.clock == pre.clock
    }
}

/// A position is in the ledger exactly when some entry carries it.
pub proof fn lemma_board_not_contains_entries(board: Seq<(Position, DbTile)>, p: Position)
    ensures
        !board_contains(board, p) ==> forall|i: int|
            0 <= i < board.len() ==> (#[trigger] board[i]).0 != p,
        board_contains(board, p) ==> exists|i: int| 0 <= i < board.len() && board[i].0 == p,
    decreases board.len(),
{
    if board.len() > 0 {
        lemma_board_not_contains_entries(board.drop_last(), p);
        if board.last().0 == p {
            assert(board[board.len() - 1].0 == p);
        }
        if !board_contains(board, p) {
            assert forall|i: int| 0 <= i < board.len() implies (#[trigger] board[i]).0 != p by {
                if i < board.len() - 1 {
                    assert(board.drop_last()[i] == board[i]);
                } else {
                    assert(board[i] == board.last());
                }
            }
        } else {
            match board_lookup(board.drop_last(), p) {
                Some(_) => {
                    if board.last().0 != p {
                        let i = choose|i: int|
                            0 <= i < board.drop_last().len() && board.drop_last()[i].0 == p;
                        assert(board[i].0 == p);
                    }
                },
                None => {},
            }
        }
    }
}

/// What the ledger answers for `p` is one of its entries.
pub proof fn lemma_board_lookup_is_entry(board: Seq<(Position, DbTile)>, p: Position)
    ensures
        board_lookup(board, p) matches Some(t) ==> exists|i: int|
            0 <= i < board.len() && board[i] == (p, t),
    decreases board.len(),
{
    if board.len() > 0 {
        lemma_board_lookup_is_entry(board.drop_last(), p);
        if board.last().0 != p {
            match board_lookup(board.drop_last(), p) {
                Some(t) => {
                    let i = choose|i: int|
                        0 <= i < board.drop_last().len() && board.drop_last()[i] == (p, t);
                    assert(board[i] == (p, t));
                },
                None => {},
            }
        }
    }
}

/// Appending a fresh entry keeps every old entry reachable and makes the
/// new position reachable.
pub proof fn lemma_board_contains_push(board: Seq<(Position, DbTile)>, e: (Position, DbTile))
    ensures
        board_lookup(board.push(e), e.0) == Some(e.1),
        forall|q: Position|
            q != e.0 ==> board_lookup(board.push(e), q) == #[trigger] board_lookup(board, q),
{
    assert(board.push(e).drop_last() =~= board);
}

} // verus!
