//! Client-facing projections of the world: the tile set inside an area,
//! the public fields of a chosen set of players, and the broadcast that a
//! single tile change produces (message plus recipient list).

use vstd::prelude::*;

use crate::engine::{board_lookup, GameState};
use crate::geometry::{area_contains, areas_intersect, areas_intersect_spec, pos_interior,
    singleton_area, Area, Position};
use crate::oracle::{adjacent_mine_count_spec, is_mine_spec};
use crate::types::{Broadcast, ClientPlayer, ClientTile, DbPlayer, DbTile, GameStateResponse};

verus! {

/// Whether `id` passes an optional roster filter.
pub open spec fn filter_allows(filter: Option<Seq<u32>>, id: u32) -> bool {
    match filter {
        Some(ids) => ids.contains(id),
        None => true,
    }
}

/// The view the transport layer takes of an optional id slice.
pub open spec fn opt_ids_view(o: Option<&[u32]>) -> Option<Seq<u32>> {
    match o {
        Some(ids) => Some(ids@),
        None => None,
    }
}

/// The public fields of a registry record: the join time made absolute
/// (saturated at the type's maximum), color, score and name.
pub open spec fn client_player_of(epoch: u32, p: DbPlayer) -> ClientPlayer {
    ClientPlayer {
        join_time: if epoch + p.join_time <= u32::MAX {
            (epoch + p.join_time) as u32
        } else {
            u32::MAX
        },
        color: p.color,
        score: p.score,
        name: p.name,
    }
}

/// The rows of the roster response: every registry record passing the
/// filter, in registry order.
pub open spec fn players_response_spec(
    players: Seq<(u32, DbPlayer)>,
    epoch: u32,
    filter: Option<Seq<u32>>,
) -> Seq<(u32, ClientPlayer)>
    decreases players.len(),
{
    if players.len() == 0 {
        Seq::empty()
    } else {
        let rest = players_response_spec(players.drop_last(), epoch, filter);
        if filter_allows(filter, players.last().0) {
            rest.push((players.last().0, client_player_of(epoch, players.last().1)))
        } else {
            rest
        }
    }
}

/// The client view of one uncovered tile.
pub open spec fn client_tile_of(seed: u32, p: Position, t: DbTile) -> ClientTile {
    ClientTile {
        player_id: t.player_id,
        adjacent_mines: adjacent_mine_count_spec(seed, p) as i8,
        is_mine: is_mine_spec(seed, p),
    }
}

/// The rows of a tile response: every ledger entry inside `area`, in
/// ledger order, under its client view.
pub open spec fn visible_tiles_spec(
    board: Seq<(Position, DbTile)>,
    seed: u32,
    area: Area,
) -> Seq<(Position, ClientTile)>
    decreases board.len(),
{
    if board.len() == 0 {
        Seq::empty()
    } else {
        let rest = visible_tiles_spec(board.drop_last(), seed, area);
        if area_contains(area, board.last().0) {
            rest.push((board.last().0, client_tile_of(seed, board.last().0, board.last().1)))
        } else {
            rest
        }
    }
}

/// The owners of the returned tiles, one id per row.
pub open spec fn tile_owner_ids(tiles: Seq<(Position, ClientTile)>) -> Seq<u32> {
    tiles.map_values(|pt: (Position, ClientTile)| pt.1.player_id)
}

/// The players a change of `position` must be fanned out to: exactly the
/// connected ones whose stored viewport intersects that tile, in registry
/// order.
pub open spec fn recipients_spec(players: Seq<(u32, DbPlayer)>, position: Position) -> Seq<u32>
    decreases players.len(),
{
    if players.len() == 0 {
        Seq::empty()
    } else {
        let rest = recipients_spec(players.drop_last(), position);
        if players.last().1.connected && areas_intersect_spec(
            singleton_area(position),
            players.last().1.visible_area,
        ) {
            rest.push(players.last().0)
        } else {
            rest
        }
    }
}

/// Whether `ids` holds `id`.
fn ids_contain(ids: &[u32], id: u32) -> (r: bool)
    ensures
        r == ids@.contains(id),
{
    let mut i: usize = 0;
    while i < ids.len()
        invariant
            i <= ids@.len(),
            forall|j: int| 0 <= j < i ==> ids@[j] != id,
        decreases ids@.len() - i,
    {
        if ids[i] == id {
            proof {
                assert(ids@[i as int] == id);
            }
            return true;
        }
        i = i + 1;
    }
    false
}

impl GameState {
    /// The public fields of the players passing the filter (`None`: the
    /// full roster), in registry order.
    pub fn players_response(&self, player_ids: Option<&[u32]>) -> (r: Vec<(u32, ClientPlayer)>)
        ensures
            r@ == players_response_spec(self.players@, self.epoch, opt_ids_view(player_ids)),
    {
        let ghost full = self.players@;
        let ghost filter = opt_ids_view(player_ids);
        let mut r: Vec<(u32, ClientPlayer)> = Vec::new();
        let mut i: usize = 0;
        while i < self.players.len()
            invariant
                i <= full.len(),
                full == self.players@,
                filter == opt_ids_view(player_ids),
                r@ == players_response_spec(full.take(i as int), self.epoch, filter),
            decreases full.len() - i,
        {
            proof {
                assert(full.take(i as int + 1).drop_last() =~= full.take(i as int));
                assert(full.take(i as int + 1).last() == full[i as int]);
            }
            let pair = &self.players[i];
            let allowed = match player_ids {
                Some(ids) => ids_contain(ids, pair.0),
                None => true,
            };
            if allowed {
                let p = &pair.1;
                let join_time = if self.epoch <= u32::MAX - p.join_time {
                    self.epoch + p.join_time
                } else {
                    u32::MAX
                };
                r.push(
                    (
                        pair.0,
                        ClientPlayer {
                            join_time,
                            color: p.color.clone(),
                            score: p.score,
                            name: p.name.clone(),
                        },
                    ),
                );
            }
            i = i + 1;
        }
        proof {
            assert(full.take(full.len() as int) =~= full);
        }
        r
    }

    /// The uncovered tiles inside `area`, in ledger order, under their
    /// client views.
    pub fn visible_tiles(&self, area: Area) -> (r: Vec<(Position, ClientTile)>)
        requires
            self.wf(),
        ensures
            r@ == visible_tiles_spec(self.board@, self.epoch, area),
    {
        let ghost full = self.board@;
        let mut r: Vec<(Position, ClientTile)> = Vec::new();
        let mut i: usize = 0;
        while i < self.board.len()
            invariant
                i <= full.len(),
                full == self.board@,
                self.wf(),
                r@ == visible_tiles_spec(full.take(i as int), self.epoch, area),
            decreases full.len() - i,
        {
            proof {
                assert(full.take(i as int + 1).drop_last() =~= full.take(i as int));
                assert(full.take(i as int + 1).last() == full[i as int]);
            }
            let pair = self.board[i];
            let p = pair.0;
            if p.x >= area.top_left.x && p.x <= area.bottom_right.x && p.y >= area.top_left.y
                && p.y <= area.bottom_right.y {
                let tile = ClientTile {
                    player_id: pair.1.player_id,
                    adjacent_mines: self.adjacent_mines(p),
                    is_mine: self.is_mine(p),
                };
                r.push((p, tile));
            }
            i = i + 1;
        }
        proof {
            assert(full.take(full.len() as int) =~= full);
        }
        r
    }

    /// The broadcast a change of the (uncovered) tile at `position`
    /// produces: an `Uncovered` response scoped to that one tile and its
    /// owner, addressed to every connected player whose stored viewport
    /// intersects it.
    pub fn broadcast_tile(&self, position: Position) -> (r: Broadcast)
        requires
            self.wf(),
            crate::engine::board_contains(self.board@, position),
            pos_interior(position),
        ensures
            r.recipients@ == recipients_spec(self.players@, position),
            r.message matches GameStateResponse::Uncovered { tiles, players } && {
                &&& tiles@ == visible_tiles_spec(
                    self.board@,
                    self.epoch,
                    singleton_area(position),
                )
                &&& players@ == players_response_spec(
                    self.players@,
                    self.epoch,
                    Some(seq![board_lookup(self.board@, position)->Some_0.player_id]),
                )
            },
    {
        let tile = self.board_get(position).unwrap();
        let owner_ids: [u32; 1] = [tile.player_id];
        let tiles = self.visible_tiles(Area { top_left: position, bottom_right: position });
        let players = self.players_response(Some(owner_ids.as_slice()));
        proof {
            assert(owner_ids@ =~= seq![board_lookup(self.board@, position)->Some_0.player_id]);
        }
        let message = GameStateResponse::Uncovered { tiles, players };
        let ghost pls = self.players@;
        let mut recipients: Vec<u32> = Vec::new();
        let mut i: usize = 0;
        while i < self.players.len()
            invariant
                i <= pls.len(),
                pls == self.players@,
                recipients@ == recipients_spec(pls.take(i as int), position),
            decreases pls.len() - i,
        {
            proof {
                assert(pls.take(i as int + 1).drop_last() =~= pls.take(i as int));
                assert(pls.take(i as int + 1).last() == pls[i as int]);
            }
            let pair = &self.players[i];
            if pair.1.connected && areas_intersect(
                Area { top_left: position, bottom_right: position },
                pair.1.visible_area,
            ) {
                recipients.push(pair.0);
            }
            i = i + 1;
        }
        proof {
            assert(pls.take(pls.len() as int) =~= pls);
        }
        Broadcast { recipients, message }
    }
}

} // verus!
