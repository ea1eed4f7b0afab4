//! The world protocol: the four actions, each processed to completion —
//! state change, direct response, and the broadcast the transport layer
//! must fan out.

use vstd::prelude::*;
use vstd::string::StringExecFns;

use crate::color::color_hex_spec;
use crate::engine::{auth_ok, board_contains, board_lookup, effective_time, evict_spec,
    player_index_spec, GameState};
use crate::geometry::{area_wf, pos_interior, singleton_area, Area, Position};
use crate::oracle::is_mine_spec;
use crate::spawn::spawn_spec;
use crate::text::default_name_spec;
use crate::types::{Broadcast, DbPlayer, DbTile, GameStateResponse, PlayerAction};
use crate::views::{players_response_spec, recipients_spec, tile_owner_ids, visible_tiles_spec};

verus! {

/// The ledger must stay countable in a 32-bit score, so a handler that can
/// add a tile asks for this much headroom.
pub open spec fn board_has_room(s: GameState) -> bool {
    s.board@.len() < 0xFFFF_FFFF
}

/// What a rename does: on a passing auth check the one record's name moves
/// and the full roster is returned; otherwise nothing changes and an error
/// is returned.
pub open spec fn rename_transition(
    pre: GameState,
    post: GameState,
    player_id: u32,
    token: String,
    new_name: String,
    r: GameStateResponse,
) -> bool {
    if auth_ok(pre.players@, player_id, token@) {
        let idx = player_index_spec(pre.players@, player_id);
        let p = pre.players@[idx].1;
        &&& post.players@ == pre.players@.update(idx, (player_id, DbPlayer { name: new_name, ..p }))
        &&& post.board@ == pre.board@
        &&& post.uncover_history@ == pre.uncover_history@
        &&& post.epoch == pre.epoch
        &&& post.next_player_id == pre.next_player_id
        &&& post.clock == pre.clock
        &&& r matches GameStateResponse::NicknameUpdated { player_id: rid, new_name: rname, players }
            && rid == player_id && rname@ == new_name@ && players@ == players_response_spec(
            post.players@,
            post.epoch,
            None,
        )
    } else {
        &&& post == pre
        &&& r matches GameStateResponse::Error { message } && message@
            == "Invalid player or token"@
    }
}

impl GameState {
    /// Rename a player.  Authorization gates the change; a failing check
    /// leaves the world untouched and answers with an error.
    pub fn handle_update_nickname_action(
        &mut self,
        player_id: u32,
        token: String,
        new_name: String,
    ) -> (r: GameStateResponse)
        requires
            old(self).wf(),
        ensures
            final(self).wf(),
            rename_transition(*old(self), *final(self), player_id, token, new_name, r),
    {
        let authorized = self.player_valid_and_playing(player_id, token);
        if authorized {
            match self.player_index(player_id) {
                Some(i) => {
                    self.players[i].1.name = new_name.clone();
                    GameStateResponse::NicknameUpdated {
                        player_id,
                        new_name,
                        players: self.players_response(None),
                    }
                },
                None => {
                    // auth_ok guarantees the record exists
                    proof {
                        assert(false);
                    }
                    GameStateResponse::Error { message: "Player not found".to_owned() }
                },
            }
        } else {
            GameStateResponse::Error { message: "Invalid player or token".to_owned() }
        }
    }

    /// A pure read: the uncovered tiles inside the area, plus the public
    /// fields of exactly the players owning a returned tile.
    pub fn handle_update_action(&self, area_to_update: Area) -> (r: GameStateResponse)
        requires
            self.wf(),
        ensures
            ({
                let tiles_spec = visible_tiles_spec(self.board@, self.epoch, area_to_update);
                r matches GameStateResponse::Updated { tiles, players } && tiles@ == tiles_spec
                    && players@ == players_response_spec(
                    self.players@,
                    self.epoch,
                    Some(tile_owner_ids(tiles_spec)),
                )
            }),
    {
        let tiles = self.visible_tiles(area_to_update);
        let ghost tiles_spec = visible_tiles_spec(self.board@, self.epoch, area_to_update);
        let mut ids: Vec<u32> = Vec::new();
        let mut i: usize = 0;
        while i < tiles.len()
            invariant
                i <= tiles@.len(),
                tiles@ == tiles_spec,
                ids@ == tile_owner_ids(tiles_spec.take(i as int)),
            decreases tiles@.len() - i,
        {
            ids.push(tiles[i].1.player_id);
            proof {
                assert(ids@ =~= tile_owner_ids(tiles_spec.take(i as int + 1)));
            }
            i = i + 1;
        }
        proof {
            assert(tiles_spec.take(tiles_spec.len() as int) =~= tiles_spec);
        }
        let players = self.players_response(Some(ids.as_slice()));
        GameStateResponse::Updated { tiles, players }
    }
}

/// An uncover request takes effect only when all three gates pass: the
/// auth check, the tile being fresh, and adjacency to the player's own
/// territory.
pub open spec fn uncover_allowed(
    pre: GameState,
    player_id: u32,
    token: String,
    position: Position,
) -> bool {
    &&& auth_ok(pre.players@, player_id, token@)
    &&& !board_contains(pre.board@, position)
    &&& crate::engine::touches_spec(pre.board@, position, player_id)
}

/// What the uncover does to the acting player: a mine ends the game for
/// that player alone; a safe tile adds exactly one point.
pub open spec fn uncover_player_outcome(pre: GameState, position: Position, p: DbPlayer) -> DbPlayer {
    if is_mine_spec(pre.epoch, position) {
        DbPlayer { game_over: true, ..p }
    } else {
        DbPlayer { score: (p.score + 1) as u32, ..p }
    }
}

/// The full state change of an uncover that passed the gates: the ledger
/// and recency queue move as in `uncover_transition`, and the acting
/// player's record takes its outcome.
pub open spec fn uncover_action_transition(
    pre: GameState,
    post: GameState,
    player_id: u32,
    position: Position,
    now: u32,
) -> bool {
    let eff = effective_time(pre.clock, now);
    let entry = (position, DbTile { uncovered: eff, player_id });
    let idx = player_index_spec(pre.players@, player_id);
    let p = pre.players@[idx].1;
    &&& post.board@ == pre.board@.push(entry)
    &&& post.clock == eff
    &&& post.uncover_history@ == evict_spec(post.board@, pre.uncover_history@.push(position), eff)
    &&& post.players@ == pre.players@.update(
        idx,
        (player_id, uncover_player_outcome(pre, position, p)),
    )
    &&& post.epoch == pre.epoch
    &&& post.next_player_id == pre.next_player_id
}

/// The broadcast an uncover produces: the one tile under its client view
/// and the acting player's public fields, addressed to every connected
/// player whose viewport covers the tile.
pub open spec fn uncovered_broadcast_ok(
    post: GameState,
    position: Position,
    owner: u32,
    b: Broadcast,
) -> bool {
    &&& b.recipients@ == recipients_spec(post.players@, position)
    &&& b.message matches GameStateResponse::Uncovered { tiles, players } && tiles@
        == visible_tiles_spec(post.board@, post.epoch, singleton_area(position)) && players@
        == players_response_spec(post.players@, post.epoch, Some(seq![owner]))
}

/// The direct response to an uncover request: the requester's viewport
/// contents and the acting player's public fields, both read from the
/// state after the (possible) change.
pub open spec fn uncovered_response_ok(
    post: GameState,
    visible_area: Area,
    player_id: u32,
    r: GameStateResponse,
) -> bool {
    r matches GameStateResponse::Uncovered { tiles, players } && tiles@ == visible_tiles_spec(
        post.board@,
        post.epoch,
        visible_area,
    ) && players@ == players_response_spec(post.players@, post.epoch, Some(seq![player_id]))
}

/// Everything an uncover request does, gates passed or not: a failed gate
/// is a silent no-op with no broadcast; a passed gate runs the transition
/// and produces the broadcast; either way the normal response is returned.
pub open spec fn uncover_action_post(
    pre: GameState,
    post: GameState,
    player_id: u32,
    token: String,
    position: Position,
    visible_area: Area,
    now: u32,
    r: (GameStateResponse, Option<Broadcast>),
) -> bool {
    &&& (!uncover_allowed(pre, player_id, token, position) ==> post == pre && r.1 is None)
    &&& (uncover_allowed(pre, player_id, token, position) ==> {
        &&& uncover_action_transition(pre, post, player_id, position, now)
        &&& (r.1 matches Some(b) && uncovered_broadcast_ok(post, position, player_id, b))
    })
    &&& uncovered_response_ok(post, visible_area, player_id, r.0)
}

impl GameState {
    /// Uncover a tile for a player at time `now`.  A failed auth check, an
    /// already uncovered tile, or a tile not touching the player's own
    /// territory is a silent no-op; otherwise the tile is uncovered, the
    /// player's record takes its outcome, and the change is broadcast.
    pub fn handle_uncover_at(
        &mut self,
        player_id: u32,
        token: String,
        position: Position,
        visible_area: Area,
        now: u32,
    ) -> (r: (GameStateResponse, Option<Broadcast>))
        requires
            old(self).wf(),
            pos_interior(position),
            board_has_room(*old(self)),
        ensures
            final(self).wf(),
            uncover_action_post(
                *old(self),
                *final(self),
                player_id,
                token,
                position,
                visible_area,
                now,
                r,
            ),
    {
        let ghost pre = *self;
        let authorized = self.player_valid_and_playing(player_id, token);
        let fresh = !self.is_uncovered(position);
        let touches = self.touches_own_area(position, player_id);
        let broadcast: Option<Broadcast> = if authorized && fresh && touches {
            let ghost eff = effective_time(pre.clock, now);
            self.uncover_at(position, player_id, now);
            proof {
                crate::engine::lemma_board_contains_push(
                    pre.board@,
                    (position, DbTile { uncovered: eff, player_id }),
                );
            }
            match self.player_index(player_id) {
                Some(i) => {
                    if crate::oracle::is_mine(self.epoch, position) {
                        self.players[i].1.game_over = true;
                    } else {
                        let s = self.players[i].1.score;
                        self.players[i].1.score = s + 1;
                    }
                },
                None => {
                    proof {
                        assert(false);
                    }
                },
            }
            let b = self.broadcast_tile(position);
            Some(b)
        } else {
            None
        };
        let owner_ids: [u32; 1] = [player_id];
        proof {
            assert(owner_ids@ =~= seq![player_id]);
        }
        let tiles = self.visible_tiles(visible_area);
        let players = self.players_response(Some(owner_ids.as_slice()));
        (GameStateResponse::Uncovered { tiles, players }, broadcast)
    }

    /// Uncover under the wall clock.
    pub fn handle_uncover_action(
        &mut self,
        player_id: u32,
        token: String,
        position: Position,
        visible_area: Area,
    ) -> (r: (GameStateResponse, Option<Broadcast>))
        requires
            old(self).wf(),
            pos_interior(position),
            board_has_room(*old(self)),
        ensures
            final(self).wf(),
            !uncover_allowed(*old(self), player_id, token, position) ==> *final(self) == *old(self)
                && r.1 is None,
            exists|now: u32|
                uncover_action_post(
                    *old(self),
                    *final(self),
                    player_id,
                    token,
                    position,
                    visible_area,
                    now,
                    r,
                ),
    {
        let now = crate::external::unix_now_seconds();
        let rel = if now > self.epoch {
            now - self.epoch
        } else {
            0
        };
        let r = self.handle_uncover_at(player_id, token, position, visible_area, rel);
        proof {
            assert(uncover_action_post(
                *old(self),
                *self,
                player_id,
                token,
                position,
                visible_area,
                rel,
                r,
            ));
        }
        r
    }
}

/// The oldest registry record carrying exactly this token, if any.
pub open spec fn token_match_spec(players: Seq<(u32, DbPlayer)>, token: Seq<char>) -> Option<
    DbPlayer,
>
    decreases players.len(),
{
    if players.len() == 0 {
        None
    } else if players.first().1.token@ == token {
        Some(players.first().1)
    } else {
        token_match_spec(players.drop_first(), token)
    }
}

/// The token the joining player ends up with: a supplied token that some
/// record already carries is reused, anything else is replaced by the
/// freshly minted one.
pub open spec fn join_token_spec(
    players: Seq<(u32, DbPlayer)>,
    token: Option<String>,
    fresh: String,
) -> String {
    match token {
        Some(t) => if token_match_spec(players, t@) is Some {
            t
        } else {
            fresh
        },
        None => fresh,
    }
}

/// The display name the joining player starts with: the matched record's
/// name on a token reuse, the default name otherwise.
pub open spec fn join_name_spec(
    players: Seq<(u32, DbPlayer)>,
    token: Option<String>,
    pid: u32,
) -> Seq<char> {
    match token {
        Some(t) => match token_match_spec(players, t@) {
            Some(p) => p.name@,
            None => default_name_spec(pid),
        },
        None => default_name_spec(pid),
    }
}

/// A viewport of exactly the requested width and height, centered on the
/// start tile as closely as the grid allows: for an even extent the start
/// sits half a tile toward the top-left of the true middle.
pub open spec fn centered_area_spec(req: Area, start: Position) -> Area {
    let w = req.bottom_right.x - req.top_left.x + 1;
    let h = req.bottom_right.y - req.top_left.y + 1;
    let left = start.x - (w - 1) / 2;
    let top = start.y - (h - 1) / 2;
    Area {
        top_left: Position { x: left as i64, y: top as i64 },
        bottom_right: Position { x: (left + w - 1) as i64, y: (top + h - 1) as i64 },
    }
}

/// The record a join mints: identified as computed from the supplied
/// token, colored by id, scoreless, live but not yet connected, looking at
/// the centered viewport.
pub open spec fn joined_player_ok(
    newp: DbPlayer,
    pre_players: Seq<(u32, DbPlayer)>,
    pid: u32,
    token: Option<String>,
    fresh_token: String,
    now: u32,
    va2: Area,
) -> bool {
    &&& newp.token == join_token_spec(pre_players, token, fresh_token)
    &&& newp.join_time == now
    &&& !newp.game_over
    &&& newp.color@ == color_hex_spec(pid)
    &&& newp.score == 0
    &&& !newp.connected
    &&& newp.visible_area == va2
    &&& newp.name@ == join_name_spec(pre_players, token, pid)
}

/// Everything a join does: mint the next id, spawn-search from the given
/// draws, center the viewport, append the new record, uncover the start
/// tile for the new player, broadcast that one tile, and answer with the
/// viewport contents and the full roster.
pub open spec fn join_post(
    pre: GameState,
    post: GameState,
    visible_area: Area,
    token: Option<String>,
    now: u32,
    pick: u64,
    dir_seed: u64,
    fresh_token: String,
    r: (GameStateResponse, Broadcast),
) -> bool {
    let pid = pre.next_player_id;
    let start = spawn_spec(pre, pick, dir_seed);
    let va2 = centered_area_spec(visible_area, start);
    let eff = effective_time(pre.clock, now);
    let entry = (start, DbTile { uncovered: eff, player_id: pid });
    &&& post.epoch == pre.epoch
    &&& post.next_player_id == pid + 1
    &&& post.players@.len() == pre.players@.len() + 1
    &&& post.players@.take(pre.players@.len() as int) == pre.players@
    &&& post.players@.last().0 == pid
    &&& joined_player_ok(post.players@.last().1, pre.players@, pid, token, fresh_token, now, va2)
    &&& (board_contains(pre.board@, start) ==> {
        &&& post.board@ == pre.board@
        &&& post.uncover_history@ == pre.uncover_history@
        &&& post.clock == pre.clock
    })
    &&& (!board_contains(pre.board@, start) ==> {
        &&& post.board@ == pre.board@.push(entry)
        &&& post.clock == eff
        &&& post.uncover_history@ == evict_spec(
            post.board@,
            pre.uncover_history@.push(start),
            eff,
        )
    })
    &&& (r.0 matches GameStateResponse::Joined {
        player_id,
        token: tok,
        update_area,
        tiles,
        players,
    } && {
        &&& player_id == pid
        &&& tok == join_token_spec(pre.players@, token, fresh_token)
        &&& update_area == va2
        &&& tiles@ == visible_tiles_spec(post.board@, post.epoch, va2)
        &&& players@ == players_response_spec(post.players@, post.epoch, None)
    })
    &&& uncovered_broadcast_ok(
        post,
        start,
        board_lookup(post.board@, start)->Some_0.player_id,
        r.1,
    )
}

impl GameState {
    /// The oldest registry index carrying exactly this token, if any.
    fn find_player_by_token(&self, token: &String) -> (r: Option<usize>)
        ensures
            match r {
                Some(i) => i < self.players@.len() && token_match_spec(self.players@, token@)
                    == Some(self.players@[i as int].1),
                None => token_match_spec(self.players@, token@) is None,
            },
    {
        let ghost full = self.players@;
        let mut i: usize = 0;
        proof {
            assert(full.skip(0) =~= full);
        }
        while i < self.players.len()
            invariant
                i <= full.len(),
                full == self.players@,
                token_match_spec(full, token@) == token_match_spec(full.skip(i as int), token@),
            decreases full.len() - i,
        {
            proof {
                assert(full.skip(i as int).drop_first() =~= full.skip(i as int + 1));
                assert(full.skip(i as int).first() == full[i as int]);
            }
            if self.players[i].1.token == *token {
                return Some(i);
            }
            i = i + 1;
        }
        proof {
            assert(full.skip(full.len() as int) =~= Seq::<(u32, DbPlayer)>::empty());
        }
        None
    }

    /// Join the world: everything chance- or clock-dependent is handed in
    /// as a plain value, and the outcome is pinned for each.
    pub fn handle_join_with(
        &mut self,
        visible_area: Area,
        token: Option<String>,
        now: u32,
        pick: u64,
        dir_seed: u64,
        fresh_token: String,
    ) -> (r: (GameStateResponse, Broadcast))
        requires
            old(self).wf(),
            area_wf(visible_area),
            old(self).next_player_id < u32::MAX,
        ensures
            final(self).wf(),
            join_post(
                *old(self),
                *final(self),
                visible_area,
                token,
                now,
                pick,
                dir_seed,
                fresh_token,
                r,
            ),
    {
        let ghost pre = *self;
        let start = self.find_start_from(pick, dir_seed);
        let player_id = self.next_player_id;
        self.next_player_id = self.next_player_id + 1;
        let visible_width: i64 = visible_area.bottom_right.x - visible_area.top_left.x + 1;
        let visible_height: i64 = visible_area.bottom_right.y - visible_area.top_left.y + 1;
        let left: i64 = start.x - (visible_width - 1) / 2;
        let top: i64 = start.y - (visible_height - 1) / 2;
        let va2 = Area {
            top_left: Position { x: left, y: top },
            bottom_right: Position { x: left + (visible_width - 1), y: top + (visible_height - 1) },
        };
        let (token2, name) = match token {
            Some(t) => {
                match self.find_player_by_token(&t) {
                    Some(i) => {
                        let matched_name = self.players[i].1.name.clone();
                        (t, matched_name)
                    },
                    None => (fresh_token, crate::text::default_name(player_id)),
                }
            },
            None => (fresh_token, crate::text::default_name(player_id)),
        };
        let color = crate::color::get_player_color_hex(player_id);
        self.players.push(
            (
                player_id,
                DbPlayer {
                    token: token2.clone(),
                    join_time: now,
                    game_over: false,
                    color,
                    score: 0,
                    connected: false,
                    visible_area: va2,
                    name,
                },
            ),
        );
        proof {
            assert(self.players@.take(pre.players@.len() as int) =~= pre.players@);
        }
        self.uncover_at(start, player_id, now);
        proof {
            if !board_contains(pre.board@, start) {
                let ghost eff = effective_time(pre.clock, now);
                crate::engine::lemma_board_contains_push(
                    pre.board@,
                    (start, DbTile { uncovered: eff, player_id }),
                );
            }
        }
        let b = self.broadcast_tile(start);
        let tiles = self.visible_tiles(va2);
        let players = self.players_response(None);
        (
            GameStateResponse::Joined {
                player_id,
                token: token2,
                update_area: va2,
                tiles,
                players,
            },
            b,
        )
    }

    /// Join under the wall clock, fresh randomness and a fresh token.
    pub fn handle_join_action(&mut self, visible_area: Area, token: Option<String>) -> (r: (
        GameStateResponse,
        Broadcast,
    ))
        requires
            old(self).wf(),
            area_wf(visible_area),
            old(self).next_player_id < u32::MAX,
        ensures
            final(self).wf(),
            exists|now: u32, pick: u64, dir_seed: u64, fresh_token: String|
                join_post(
                    *old(self),
                    *final(self),
                    visible_area,
                    token,
                    now,
                    pick,
                    dir_seed,
                    fresh_token,
                    r,
                ),
    {
        let now_abs = crate::external::unix_now_seconds();
        let rel = if now_abs > self.epoch {
            now_abs - self.epoch
        } else {
            0
        };
        let pick = crate::external::random_u64();
        let dir_seed = crate::external::random_u64();
        let fresh = crate::external::fresh_token();
        let ghost gfresh = fresh;
        let r = self.handle_join_with(visible_area, token, rel, pick, dir_seed, fresh);
        proof {
            assert(join_post(
                *old(self),
                *self,
                visible_area,
                token,
                rel,
                pick,
                dir_seed,
                gfresh,
                r,
            ));
        }
        r
    }

    /// Dispatch one decoded action: mutate as the action demands, and
    /// return the direct response together with the broadcast, if any, the
    /// transport layer must fan out.
    pub fn process_action(&mut self, action: PlayerAction) -> (r: (
        GameStateResponse,
        Option<Broadcast>,
    ))
        requires
            old(self).wf(),
            match action {
                PlayerAction::Join { visible_area, .. } => area_wf(visible_area) && old(
                    self,
                ).next_player_id < u32::MAX,
                PlayerAction::Uncover { position, .. } => pos_interior(position)
                    && board_has_room(*old(self)),
                _ => true,
            },
        ensures
            final(self).wf(),
            match action {
                PlayerAction::Join { visible_area, token } => r.1 matches Some(b) && exists|
                    now: u32,
                    pick: u64,
                    dir_seed: u64,
                    fresh_token: String,
                |
                    #[trigger] join_post(
                        *old(self),
                        *final(self),
                        visible_area,
                        token,
                        now,
                        pick,
                        dir_seed,
                        fresh_token,
                        (r.0, b),
                    ),
                PlayerAction::Update { area_to_update } => *final(self) == *old(self) && r.1
                    is None && update_response_ok(*old(self), area_to_update, r.0),
                PlayerAction::Uncover { player_id, token, position, visible_area } => exists|
                    now: u32,
                |
                    uncover_action_post(
                        *old(self),
                        *final(self),
                        player_id,
                        token,
                        position,
                        visible_area,
                        now,
                        r,
                    ),
                PlayerAction::UpdateNickname { player_id, token, new_name } => rename_transition(
                    *old(self),
                    *final(self),
                    player_id,
                    token,
                    new_name,
                    r.0,
                ) && r.1 is None,
            },
    {
        match action {
            PlayerAction::Join { visible_area, token } => {
                let (resp, b) = self.handle_join_action(visible_area, token);
                (resp, Some(b))
            },
            PlayerAction::Update { area_to_update } => (
                self.handle_update_action(area_to_update),
                None,
            ),
            PlayerAction::Uncover { player_id, token, position, visible_area } => self
                .handle_uncover_action(player_id, token, position, visible_area),
            PlayerAction::UpdateNickname { player_id, token, new_name } => (
                self.handle_update_nickname_action(player_id, token, new_name),
                None,
            ),
        }
    }
}

/// What the pure read answers: the tiles inside the area and the public
/// fields of exactly their owners.
pub open spec fn update_response_ok(s: GameState, area: Area, r: GameStateResponse) -> bool {
    let tiles_spec = visible_tiles_spec(s.board@, s.epoch, area);
    r matches GameStateResponse::Updated { tiles, players } && tiles@ == tiles_spec && players@
        == players_response_spec(s.players@, s.epoch, Some(tile_owner_ids(tiles_spec)))
}

} // verus!
