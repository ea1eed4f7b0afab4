//! The library's cross-cutting guarantees, each proved once and for all
//! over the same spec functions the handlers' contracts use: oracle
//! determinism, idempotence of uncovering, the recency queue's eviction
//! floor, the silence of unauthorized uncovers, and broadcast scoping.

use vstd::prelude::*;

use crate::actions::{centered_area_spec, join_post, uncover_action_post};
use crate::engine::{auth_ok, board_contains, board_lookup, effective_time, evict_spec,
    lemma_board_contains_push, player_index_spec, player_lookup, uncover_transition, GameState,
    EVICTION_FLOOR};
use crate::geometry::{area_contains, area_wf, areas_intersect_spec, singleton_area, Area,
    Position};
use crate::oracle::{adjacent_mine_count_spec, is_mine_spec};
use crate::spawn::{abs_i32, direction_spec, lemma_walk_safe, spawn_origin_spec, spawn_spec,
    step_sign, walk_spec, MAX_SPAWN_WALK_STEPS, WALK_BOUND};
use crate::types::{Broadcast, ClientPlayer, ClientTile, DbPlayer, DbTile, GameStateResponse};
use crate::views::{client_player_of, client_tile_of, players_response_spec, recipients_spec,
    visible_tiles_spec};

verus! {

/// Determinism of the mine oracle: two worlds sharing a seed give every
/// position the same mine status and the same adjacent-mine count, however
/// their boards and registries differ.  (Both answers are functions of the
/// seed and the position alone.)
pub proof fn lemma_oracle_determinism(s1: GameState, s2: GameState, p: Position)
    requires
        s1.epoch == s2.epoch,
    ensures
        is_mine_spec(s1.epoch, p) == is_mine_spec(s2.epoch, p),
        adjacent_mine_count_spec(s1.epoch, p) == adjacent_mine_count_spec(s2.epoch, p),
{
}

/// Idempotence of uncovering: a second uncover of the same position, by
/// whatever player and at whatever time, changes nothing — the stored
/// owner and timestamp survive, the queue and clock stay put.
pub proof fn lemma_uncover_idempotent(
    s0: GameState,
    s1: GameState,
    s2: GameState,
    position: Position,
    player_id1: u32,
    player_id2: u32,
    t1: u32,
    t2: u32,
)
    requires
        uncover_transition(s0, s1, position, player_id1, t1),
        uncover_transition(s1, s2, position, player_id2, t2),
    ensures
        s2 == s1,
{
    if !board_contains(s0.board@, position) {
        let eff = effective_time(s0.clock, t1);
        lemma_board_contains_push(
            s0.board@,
            (position, DbTile { uncovered: eff, player_id: player_id1 }),
        );
    }
}

/// The eviction floor: age-based eviction alone never brings the recency
/// queue below the floor, however old every entry is; a queue at or below
/// the floor is left entirely alone.
pub proof fn lemma_eviction_floor(
    board: Seq<(Position, DbTile)>,
    hist: Seq<Position>,
    now: u32,
)
    ensures
        evict_spec(board, hist, now).len() >= if hist.len() <= EVICTION_FLOOR {
            hist.len() as int
        } else {
            EVICTION_FLOOR as int
        },
        hist.len() <= EVICTION_FLOOR ==> evict_spec(board, hist, now) == hist,
    decreases hist.len(),
{
    if hist.len() > EVICTION_FLOOR {
        match board_lookup(board, hist[0]) {
            Some(t) => {
                if now >= t.uncovered && now - t.uncovered > crate::engine::EVICTION_AGE_SECONDS {
                    lemma_eviction_floor(board, hist.drop_first(), now);
                }
            },
            None => {},
        }
    }
}

/// Silent failure of unauthorized uncovers: a wrong token, an unknown
/// player id, or a player already over never mutates the ledger, never
/// changes a score, and produces no broadcast.
pub proof fn lemma_unauthorized_uncover_is_noop(
    pre: GameState,
    post: GameState,
    player_id: u32,
    token: String,
    position: Position,
    visible_area: Area,
    now: u32,
    r: (GameStateResponse, Option<Broadcast>),
)
    requires
        uncover_action_post(pre, post, player_id, token, position, visible_area, now, r),
        !auth_ok(pre.players@, player_id, token@),
    ensures
        post == pre,
        r.1 is None,
{
}

/// The ledger is append-only: an uncover may add one entry at the end but
/// never removes or rewrites an existing one, so a queued position can
/// always be looked up again.  (Eviction touches the recency queue alone.)
pub proof fn lemma_ledger_append_only(
    pre: GameState,
    post: GameState,
    position: Position,
    player_id: u32,
    now: u32,
)
    requires
        uncover_transition(pre, post, position, player_id, now),
    ensures
        post.board@.len() >= pre.board@.len(),
        forall|i: int| 0 <= i < pre.board@.len() ==> post.board@[i] == pre.board@[i],
{
}

/// In a world with an empty ledger and recency queue, the spawn tile is
/// fresh and bounded, and — unless the bounded walk fell back to the world
/// origin — neither a mine nor next to one.
#[verifier::spinoff_prover]
proof fn lemma_fresh_spawn(pre: GameState, pick: u64, dir_seed: u64)
    requires
        pre.board@.len() == 0,
        pre.uncover_history@.len() == 0,
    ensures
        ({
            let start = spawn_spec(pre, pick, dir_seed);
            &&& !board_contains(pre.board@, start)
            &&& -WALK_BOUND <= start.x <= WALK_BOUND
            &&& -WALK_BOUND <= start.y <= WALK_BOUND
            &&& (start != (Position { x: 0, y: 0 }) ==> !is_mine_spec(pre.epoch, start)
                && adjacent_mine_count_spec(pre.epoch, start) == 0)
        }),
{
    let d = direction_spec(dir_seed);
    assert(spawn_origin_spec(pre.uncover_history@, pick) == (Position { x: 0, y: 0 }));
    lemma_walk_safe(
        pre.board@,
        pre.epoch,
        0,
        0,
        0,
        0,
        MAX_SPAWN_WALK_STEPS as nat,
        abs_i32(d.0),
        abs_i32(d.1),
        step_sign(d.0),
        step_sign(d.1),
    );
}

/// A centered viewport contains its own center.
#[verifier::spinoff_prover]
proof fn lemma_centered_contains(req: Area, start: Position)
    requires
        area_wf(req),
        -WALK_BOUND <= start.x <= WALK_BOUND,
        -WALK_BOUND <= start.y <= WALK_BOUND,
    ensures
        area_contains(centered_area_spec(req, start), start),
{
    let w = req.bottom_right.x - req.top_left.x + 1;
    let h = req.bottom_right.y - req.top_left.y + 1;
    assert(1 <= w && 0 <= (w - 1) / 2 <= w - 1);
    assert(1 <= h && 0 <= (h - 1) / 2 <= h - 1);
}

/// The revealed set of a one-entry ledger whose entry lies in the area.
#[verifier::spinoff_prover]
proof fn lemma_singleton_visible(
    board: Seq<(Position, DbTile)>,
    seed: u32,
    area: Area,
)
    requires
        board.len() == 1,
        area_contains(area, board[0].0),
    ensures
        visible_tiles_spec(board, seed, area) =~= seq![
            (board[0].0, client_tile_of(seed, board[0].0, board[0].1)),
        ],
{
    assert(board.drop_last() =~= Seq::<(Position, DbTile)>::empty());
    assert(visible_tiles_spec(board.drop_last(), seed, area) =~= Seq::<(
        Position,
        ClientTile,
    )>::empty());
    assert(board.last() == board[0]);
}

/// The unfiltered roster rows of a one-record registry.
#[verifier::spinoff_prover]
proof fn lemma_singleton_roster(players: Seq<(u32, DbPlayer)>, epoch: u32)
    requires
        players.len() == 1,
    ensures
        players_response_spec(players, epoch, None) =~= seq![
            (players[0].0, client_player_of(epoch, players[0].1)),
        ],
{
    assert(players.drop_last() =~= Seq::<(u32, DbPlayer)>::empty());
    assert(players_response_spec(players.drop_last(), epoch, None) =~= Seq::<(
        u32,
        ClientPlayer,
    )>::empty());
    assert(players.last() == players[0]);
}

/// The first join into a fresh world, stated once for every seed, clock,
/// token and random draw: the response carries id 1, exactly one revealed
/// tile — the spawn tile, owned by the newcomer — and a roster holding
/// exactly the one scoreless record.  Unless the bounded walk fell back to
/// the world origin, that tile is neither a mine nor next to one.
#[verifier::rlimit(100)]
#[verifier::spinoff_prover]
pub proof fn lemma_first_join_reveals_exactly_the_spawn(
    pre: GameState,
    post: GameState,
    visible_area: Area,
    token: Option<String>,
    now: u32,
    pick: u64,
    dir_seed: u64,
    fresh_token: String,
    r: (GameStateResponse, Broadcast),
)
    requires
        join_post(pre, post, visible_area, token, now, pick, dir_seed, fresh_token, r),
        area_wf(visible_area),
        pre.board@.len() == 0,
        pre.players@.len() == 0,
        pre.uncover_history@.len() == 0,
        pre.next_player_id == 1,
    ensures
        ({
            let start = spawn_spec(pre, pick, dir_seed);
            r.0 matches GameStateResponse::Joined { player_id, tiles, players, .. } && {
                &&& player_id == 1
                &&& tiles@.len() == 1
                &&& tiles@[0].0 == start
                &&& tiles@[0].1.player_id == 1
                &&& (start != (Position { x: 0, y: 0 }) ==> !tiles@[0].1.is_mine && tiles@[0].1.adjacent_mines
                    == 0)
                &&& players@.len() == 1
                &&& players@[0].0 == 1
                &&& players@[0].1.score == 0
            }
        }),
{
    let start = spawn_spec(pre, pick, dir_seed);
    lemma_fresh_spawn(pre, pick, dir_seed);
    lemma_centered_contains(visible_area, start);
    // an empty ledger holds nothing, so the join appended the one entry
    let eff = effective_time(pre.clock, now);
    let entry = (start, DbTile { uncovered: eff, player_id: 1u32 });
    assert(post.board@ == pre.board@.push(entry));
    assert(post.board@.len() == 1 && post.board@[0] == entry);
    let va2 = centered_area_spec(visible_area, start);
    lemma_singleton_visible(post.board@, post.epoch, va2);
    lemma_singleton_roster(post.players@, post.epoch);
    match r.0 {
        GameStateResponse::Joined { player_id, tiles, players, .. } => {
            assert(tiles@.len() == 1);
            assert(tiles@[0].0 == start);
            assert(tiles@[0].1.player_id == 1);
            // the roster is the one freshly minted record
            assert(post.players@.last() == post.players@[0]);
            assert(players@.len() == 1);
            assert(players@[0].0 == 1);
            assert(players@[0].1.score == 0);
        },
        _ => {
            assert(false);
        },
    }
}

/// Whether a registry record is due a broadcast about `position`.
pub open spec fn due_broadcast(p: DbPlayer, position: Position) -> bool {
    p.connected && areas_intersect_spec(singleton_area(position), p.visible_area)
}

/// Every id on the recipient list belongs to a registry record that is
/// due the broadcast.
proof fn lemma_recipients_sound(players: Seq<(u32, DbPlayer)>, position: Position)
    ensures
        forall|x: u32|
            #[trigger] recipients_spec(players, position).contains(x) ==> exists|i: int|
                0 <= i < players.len() && players[i].0 == x && due_broadcast(
                    players[i].1,
                    position,
                ),
    decreases players.len(),
{
    if players.len() > 0 {
        lemma_recipients_sound(players.drop_last(), position);
        let rest = recipients_spec(players.drop_last(), position);
        assert forall|x: u32|
            #[trigger] recipients_spec(players, position).contains(x) implies exists|i: int|
            0 <= i < players.len() && players[i].0 == x && due_broadcast(
                players[i].1,
                position,
            ) by {
            let r = recipients_spec(players, position);
            if due_broadcast(players.last().1, position) {
                assert(r == rest.push(players.last().0));
                let j = choose|j: int| 0 <= j < r.len() && r[j] == x;
                if j == r.len() - 1 {
                    assert(players[players.len() - 1].0 == x);
                    assert(due_broadcast(players[players.len() - 1].1, position));
                } else {
                    assert(rest[j] == x);
                    assert(rest.contains(x));
                    let i = choose|i: int|
                        0 <= i < players.drop_last().len() && players.drop_last()[i].0 == x
                            && due_broadcast(players.drop_last()[i].1, position);
                    assert(players[i] == players.drop_last()[i]);
                }
            } else {
                assert(r == rest);
                let i = choose|i: int|
                    0 <= i < players.drop_last().len() && players.drop_last()[i].0 == x
                        && due_broadcast(players.drop_last()[i].1, position);
                assert(players[i] == players.drop_last()[i]);
            }
        }
    }
}

/// Every registry record due the broadcast has its id on the recipient
/// list.
proof fn lemma_recipients_complete(players: Seq<(u32, DbPlayer)>, position: Position)
    ensures
        forall|i: int|
            0 <= i < players.len() && due_broadcast(#[trigger] players[i].1, position)
                ==> recipients_spec(players, position).contains(players[i].0),
    decreases players.len(),
{
    if players.len() > 0 {
        lemma_recipients_complete(players.drop_last(), position);
        let rest = recipients_spec(players.drop_last(), position);
        let r = recipients_spec(players, position);
        assert forall|i: int|
            0 <= i < players.len() && due_broadcast(#[trigger] players[i].1, position) implies r
            .contains(players[i].0) by {
            if i < players.len() - 1 {
                assert(players.drop_last()[i] == players[i]);
                assert(rest.contains(players[i].0));
                let j = choose|j: int| 0 <= j < rest.len() && rest[j] == players[i].0;
                if due_broadcast(players.last().1, position) {
                    assert(r == rest.push(players.last().0));
                    assert(r[j] == players[i].0);
                } else {
                    assert(r == rest);
                }
            } else {
                assert(due_broadcast(players.last().1, position));
                assert(r == rest.push(players.last().0));
                assert(r[r.len() - 1] == players[i].0);
            }
        }
    }
}

/// The registry index behind a successful lookup.
proof fn lemma_player_index_lookup(players: Seq<(u32, DbPlayer)>, id: u32)
    ensures
        player_index_spec(players, id) >= 0 ==> {
            let idx = player_index_spec(players, id);
            &&& 0 <= idx < players.len()
            &&& players[idx].0 == id
            &&& player_lookup(players, id) == Some(players[idx].1)
        },
        player_index_spec(players, id) < 0 ==> player_lookup(players, id) is None,
    decreases players.len(),
{
    if players.len() > 0 && players.last().0 != id {
        lemma_player_index_lookup(players.drop_last(), id);
        let idx = player_index_spec(players.drop_last(), id);
        if idx >= 0 {
            assert(players[idx] == players.drop_last()[idx]);
        }
    }
}

/// Broadcast scoping: with unique registry ids, a player's id stands on
/// the recipient list for a tile change exactly when that player is
/// connected and the changed tile lies inside the player's stored
/// viewport.  Two connected players with viewports on opposite sides of a
/// change are therefore treated differently: the one covering the tile is
/// served, the other is not.
pub proof fn lemma_broadcast_scoping(
    players: Seq<(u32, DbPlayer)>,
    position: Position,
    id: u32,
)
    requires
        forall|i: int, j: int|
            0 <= i < j < players.len() ==> (#[trigger] players[i]).0 != (
            #[trigger] players[j]).0,
        player_index_spec(players, id) >= 0,
    ensures
        ({
            let p = players[player_index_spec(players, id)].1;
            recipients_spec(players, position).contains(id) <==> due_broadcast(p, position)
        }),
{
    lemma_player_index_lookup(players, id);
    lemma_recipients_sound(players, position);
    lemma_recipients_complete(players, position);
    let idx = player_index_spec(players, id);
    let p = players[idx].1;
    if recipients_spec(players, position).contains(id) {
        let i = choose|i: int|
            0 <= i < players.len() && players[i].0 == id && due_broadcast(
                players[i].1,
                position,
            );
        if i != idx {
            if i < idx {
                assert(players[i].0 != players[idx].0);
            } else {
                assert(players[idx].0 != players[i].0);
            }
            assert(false);
        }
    }
}

} // verus!
