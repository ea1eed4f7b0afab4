//! The engine's data model: ledger entries, registry records, the public
//! (client-facing) projections of both, and the closed action / response
//! unions of the world protocol.

use vstd::prelude::*;

use crate::geometry::{Area, Position};

verus! {

/// An uncovered tile as the ledger stores it.  `uncovered` is the in-game
/// second at which it was uncovered; it is at least 1 for every real entry,
/// so that zero can stand for "not in the ledger".
#[derive(Clone, Copy, Debug, PartialEq, Eq, Structural)]
pub struct DbTile {
    /// Seconds since the beginning of the game; never zero for a stored entry.
    pub uncovered: u32,
    /// The player who uncovered the tile.
    pub player_id: u32,
}

/// A tile as it is shown to clients.  Emitted only for uncovered tiles.
#[derive(Clone, Copy, Debug, PartialEq, Eq, Structural)]
pub struct ClientTile {
    pub player_id: u32,
    pub adjacent_mines: i8,
    pub is_mine: bool,
}

/// A player record as the registry stores it.  `connected` says whether the
/// transport layer currently holds a live outbound channel for the player;
/// the channel itself lives outside the engine.
#[derive(Clone, Debug)]
pub struct DbPlayer {
    pub token: String,
    pub join_time: u32,
    pub game_over: bool,
    pub color: String,
    pub score: u32,
    pub connected: bool,
    pub visible_area: Area,
    pub name: String,
}

/// The public fields of a player, as they are shown to clients.
#[derive(Clone, Debug)]
pub struct ClientPlayer {
    /// Absolute unix seconds of the join, saturated at the type's maximum.
    pub join_time: u32,
    pub color: String,
    pub score: u32,
    pub name: String,
}

/// One decoded client request.
#[derive(Clone, Debug)]
pub enum PlayerAction {
    Join { visible_area: Area, token: Option<String> },
    Update { area_to_update: Area },
    Uncover { player_id: u32, token: String, position: Position, visible_area: Area },
    UpdateNickname { player_id: u32, token: String, new_name: String },
}

/// One response of the engine.  Tile lists pair each position with its
/// client view; player lists pair each id with its public fields.
#[derive(Clone, Debug)]
pub enum GameStateResponse {
    Joined {
        player_id: u32,
        token: String,
        update_area: Area,
        tiles: Vec<(Position, ClientTile)>,
        players: Vec<(u32, ClientPlayer)>,
    },
    Updated { tiles: Vec<(Position, ClientTile)>, players: Vec<(u32, ClientPlayer)> },
    Uncovered { tiles: Vec<(Position, ClientTile)>, players: Vec<(u32, ClientPlayer)> },
    NicknameUpdated { player_id: u32, new_name: String, players: Vec<(u32, ClientPlayer)> },
    Error { message: String },
}

/// A message the transport layer must fan out: the same response, delivered
/// to every listed player's outbound channel.
#[derive(Clone, Debug)]
pub struct Broadcast {
    pub recipients: Vec<u32>,
    pub message: GameStateResponse,
}

} // verus!
