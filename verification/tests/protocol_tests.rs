use mineworld::engine::GameState;
use mineworld::geometry::{areas_intersect, Area, Position};
use mineworld::types::{GameStateResponse, PlayerAction};

fn pos(x: i64, y: i64) -> Position {
    Position { x, y }
}

fn viewport_21() -> Area {
    Area { top_left: pos(0, 0), bottom_right: pos(20, 20) }
}

/// Join deterministically and hand back (player id, token, spawn tile,
/// centered viewport).
fn join(
    s: &mut GameState,
    requested: Area,
    token: Option<String>,
    now: u32,
    pick: u64,
    dir_seed: u64,
    fresh: &str,
) -> (u32, String, Position, Area) {
    let (resp, _b) = s.handle_join_with(requested, token, now, pick, dir_seed, fresh.to_string());
    match resp {
        GameStateResponse::Joined { player_id, token, update_area, tiles, players } => {
            assert!(!players.is_empty());
            let spawn = tiles
                .iter()
                .find(|t| t.1.player_id == player_id)
                .expect("the spawn tile is in the joined view")
                .0;
            (player_id, token, spawn, update_area)
        },
        _ => panic!("expected a join response"),
    }
}

/// Extend the player's territory until a mine blows up, and return the
/// mine tile.  Panics if no mine is reachable in a reasonable frontier.
fn uncover_until_mine(s: &mut GameState, pid: u32, token: &str, viewport: Area) -> Position {
    for _round in 0..500 {
        // find a coverable frontier tile: adjacent to owned territory
        let mut candidate = None;
        for i in 0..s.board.len() {
            if s.board[i].1.player_id != pid {
                continue;
            }
            let p = s.board[i].0;
            for q in mineworld::geometry::tiles_around(p) {
                if !s.is_uncovered(q) {
                    candidate = Some(q);
                    break;
                }
            }
            if candidate.is_some() {
                break;
            }
        }
        let q = candidate.expect("an uncovered frontier tile");
        let was_mine = s.is_mine(q);
        let (resp, _b) = s.handle_uncover_at(pid, token.to_string(), q, viewport, 10);
        assert!(matches!(resp, GameStateResponse::Uncovered { .. }));
        assert!(s.is_uncovered(q));
        if was_mine {
            return q;
        }
    }
    panic!("no mine reached");
}

#[test]
fn join_scenario_under_seed_42() {
    let mut s = GameState::new(Some(42));
    let (pid, token, spawn, va) = join(&mut s, viewport_21(), None, 5, 0, 123456789, "tok-a");
    assert_eq!(pid, 1);
    assert_eq!(token, "tok-a");
    // exactly one tile exists, so the joined view held exactly the spawn
    assert_eq!(s.board.len(), 1);
    // the opening reveal is mine-free and not next to a mine
    assert!(!s.is_mine(spawn));
    assert_eq!(s.adjacent_mines(spawn), 0);
    assert_eq!(s.board[0].1.player_id, pid);
    // the viewport keeps the requested 21x21 size, centered on the spawn
    assert_eq!(va.bottom_right.x - va.top_left.x, 20);
    assert_eq!(va.bottom_right.y - va.top_left.y, 20);
    assert_eq!(va.top_left.x, spawn.x - 10);
    assert_eq!(va.top_left.y, spawn.y - 10);
    // the new record starts scoreless and alive
    assert_eq!(s.players[0].1.score, 0);
    assert!(!s.players[0].1.game_over);
    assert_eq!(s.players[0].1.name, "Player 1");
}

#[test]
fn join_keeps_the_requested_viewport_size_even_sizes_too() {
    let mut s = GameState::new(Some(42));
    // a 2x2 request comes back exactly 2x2, the spawn at its top-left
    // (the closest the grid gets to centering an even extent)
    let tiny = Area { top_left: pos(5, 5), bottom_right: pos(6, 6) };
    let (_pid, _tok, spawn, va) = join(&mut s, tiny, None, 5, 0, 123456789, "tok-a");
    assert_eq!(va.bottom_right.x - va.top_left.x, 1);
    assert_eq!(va.bottom_right.y - va.top_left.y, 1);
    assert_eq!(va.top_left, spawn);
    // a 4x6 request keeps width 4 and height 6
    let mut s2 = GameState::new(Some(42));
    let req = Area { top_left: pos(0, 0), bottom_right: pos(3, 5) };
    let (_pid2, _tok2, spawn2, va2) = join(&mut s2, req, None, 5, 0, 123456789, "tok-b");
    assert_eq!(va2.bottom_right.x - va2.top_left.x, 3);
    assert_eq!(va2.bottom_right.y - va2.top_left.y, 5);
    assert_eq!(va2.top_left.x, spawn2.x - 1);
    assert_eq!(va2.top_left.y, spawn2.y - 2);
}

#[test]
fn join_reuses_a_known_token() {
    let mut s = GameState::new(Some(42));
    let (pid_a, tok_a, _spawn, _va) = join(&mut s, viewport_21(), None, 5, 0, 123456789, "tok-a");
    s.handle_update_nickname_action(pid_a, tok_a.clone(), String::from("Ada"));
    // a join carrying a live token gets a fresh id, the same token, and
    // the matched player's display name
    let (pid_b, tok_b, _s2, _va2) =
        join(&mut s, viewport_21(), Some(tok_a.clone()), 6, 0, 5555, "tok-b");
    assert_ne!(pid_b, pid_a);
    assert_eq!(tok_b, tok_a);
    assert_eq!(s.players[1].1.name, "Ada");
    // an unknown token is replaced by the freshly minted one
    let (_pid_c, tok_c, _s3, _va3) =
        join(&mut s, viewport_21(), Some(String::from("nope")), 7, 0, 7777, "tok-c");
    assert_eq!(tok_c, "tok-c");
    assert_eq!(s.players[2].1.name, "Player 3");
}

#[test]
fn uncover_extends_score_by_one() {
    let mut s = GameState::new(Some(42));
    let (pid, token, spawn, va) = join(&mut s, viewport_21(), None, 5, 0, 123456789, "tok-a");
    // find a safe neighbour of the spawn tile (there is one: no adjacent mines)
    let q = pos(spawn.x + 1, spawn.y);
    assert!(!s.is_mine(q));
    let before = s.players[0].1.score;
    let (resp, b) = s.handle_uncover_at(pid, token.clone(), q, va, 9);
    assert!(matches!(resp, GameStateResponse::Uncovered { .. }));
    assert!(b.is_some());
    assert_eq!(s.players[0].1.score, before + 1);
    assert!(s.is_uncovered(q));
    assert_eq!(s.board[1].0, q);
    assert_eq!(s.board[1].1.player_id, pid);
}

#[test]
fn unauthorized_uncover_is_a_silent_noop() {
    let mut s = GameState::new(Some(42));
    let (pid, token, spawn, va) = join(&mut s, viewport_21(), None, 5, 0, 123456789, "tok-a");
    let q = pos(spawn.x + 1, spawn.y);
    let board_len = s.board.len();
    let score = s.players[0].1.score;

    // wrong token
    let (resp, b) = s.handle_uncover_at(pid, String::from("wrong"), q, va, 9);
    assert!(matches!(resp, GameStateResponse::Uncovered { .. }));
    assert!(b.is_none());
    assert_eq!(s.board.len(), board_len);
    assert_eq!(s.players[0].1.score, score);

    // unknown player id
    let (resp, b) = s.handle_uncover_at(999, token.clone(), q, va, 9);
    assert!(matches!(resp, GameStateResponse::Uncovered { .. }));
    assert!(b.is_none());
    assert_eq!(s.board.len(), board_len);

    // not adjacent to owned territory
    let far = pos(spawn.x + 100, spawn.y + 100);
    let (_resp, b) = s.handle_uncover_at(pid, token.clone(), far, va, 9);
    assert!(b.is_none());
    assert_eq!(s.board.len(), board_len);

    // already uncovered
    let (_resp, b) = s.handle_uncover_at(pid, token.clone(), spawn, va, 9);
    assert!(b.is_none());
    assert_eq!(s.board.len(), board_len);
}

#[test]
fn a_mine_ends_the_game_for_that_player_alone() {
    let mut s = GameState::new(Some(42));
    let (pid_a, tok_a, _spawn_a, va_a) = join(&mut s, viewport_21(), None, 5, 0, 123456789, "tok-a");
    let (pid_b, _tok_b, _spawn_b, _va_b) = join(&mut s, viewport_21(), None, 6, 0, 424242, "tok-b");
    let mine = uncover_until_mine(&mut s, pid_a, &tok_a, va_a);
    assert!(s.is_mine(mine));
    assert!(s.players[0].1.game_over);
    assert!(!s.players[1].1.game_over, "other players are unaffected");
    assert_eq!(pid_b, 2);

    // once over, every further uncover by that player is a silent no-op
    let board_len = s.board.len();
    let frontier = pos(mine.x + 1, mine.y);
    let (_resp, b) = s.handle_uncover_at(pid_a, tok_a.clone(), frontier, va_a, 50);
    assert!(b.is_none());
    assert_eq!(s.board.len(), board_len);
    // and renames are refused too, since authorization now fails
    let resp = s.handle_update_nickname_action(pid_a, tok_a.clone(), String::from("Zombie"));
    assert!(matches!(resp, GameStateResponse::Error { .. }));
}

#[test]
fn broadcasts_go_to_exactly_the_watching_connected_players() {
    let mut s = GameState::new(Some(42));
    let (pid_a, tok_a, spawn_a, va_a) = join(&mut s, viewport_21(), None, 5, 0, 123456789, "tok-a");
    let (pid_b, _tok_b, _spawn_b, va_b) = join(&mut s, viewport_21(), None, 6, 0, 424242, "tok-b");
    // a third player joins with a tiny viewport far along the walk direction
    let tiny = Area { top_left: pos(0, 0), bottom_right: pos(2, 2) };
    let (pid_c, _tok_c, _spawn_c, va_c) = join(&mut s, tiny, None, 7, 3, 31337, "tok-c");
    s.set_player_sender(pid_a);
    s.set_player_sender(pid_b);
    s.set_player_sender(pid_c);

    let q = pos(spawn_a.x + 1, spawn_a.y);
    let (_resp, b) = s.handle_uncover_at(pid_a, tok_a.clone(), q, va_a, 9);
    let b = b.expect("an authorized fresh uncover broadcasts");
    let tile_area = Area { top_left: q, bottom_right: q };
    // scoping: a player is served exactly when connected and watching
    assert_eq!(b.recipients.contains(&pid_a), areas_intersect(tile_area, va_a));
    assert_eq!(b.recipients.contains(&pid_b), areas_intersect(tile_area, va_b));
    assert_eq!(b.recipients.contains(&pid_c), areas_intersect(tile_area, va_c));
    // the acting player watches its own viewport's center
    assert!(b.recipients.contains(&pid_a));
    // the broadcast carries exactly the one changed tile
    match b.message {
        GameStateResponse::Uncovered { tiles, players } => {
            assert_eq!(tiles.len(), 1);
            assert_eq!(tiles[0].0, q);
            assert_eq!(players.len(), 1);
            assert_eq!(players[0].0, pid_a);
        },
        _ => panic!("expected an uncover broadcast"),
    }

    // a disconnected player is never served, watching or not
    s.remove_player(pid_b);
    let q2 = pos(spawn_a.x + 1, spawn_a.y + 1);
    let (_resp, b2) = s.handle_uncover_at(pid_a, tok_a.clone(), q2, va_a, 10);
    let b2 = b2.expect("broadcast");
    assert!(!b2.recipients.contains(&pid_b));
}

#[test]
fn update_returns_area_tiles_and_their_owners_only() {
    let mut s = GameState::new(Some(42));
    let (pid_a, _tok_a, spawn_a, _va_a) = join(&mut s, viewport_21(), None, 5, 0, 123456789, "tok-a");
    let (_pid_b, _tok_b, _spawn_b, _va_b) = join(&mut s, viewport_21(), None, 6, 0, 424242, "tok-b");
    let around_a = Area {
        top_left: pos(spawn_a.x - 1, spawn_a.y - 1),
        bottom_right: pos(spawn_a.x + 1, spawn_a.y + 1),
    };
    match s.handle_update_action(around_a) {
        GameStateResponse::Updated { tiles, players } => {
            assert!(tiles.iter().any(|t| t.0 == spawn_a));
            for t in &tiles {
                assert!(t.0.x >= around_a.top_left.x && t.0.x <= around_a.bottom_right.x);
                assert!(t.0.y >= around_a.top_left.y && t.0.y <= around_a.bottom_right.y);
            }
            // the roster is scoped to owners of returned tiles
            for (id, _cp) in &players {
                assert!(tiles.iter().any(|t| t.1.player_id == *id));
            }
            assert!(players.iter().any(|(id, _)| *id == pid_a));
        },
        _ => panic!("expected an update response"),
    }
    // an empty patch of the world answers with nothing
    let far = Area { top_left: pos(5000, 5000), bottom_right: pos(5010, 5010) };
    match s.handle_update_action(far) {
        GameStateResponse::Updated { tiles, players } => {
            assert!(tiles.is_empty());
            assert!(players.is_empty());
        },
        _ => panic!("expected an update response"),
    }
}

#[test]
fn rename_is_gated_by_authorization() {
    let mut s = GameState::new(Some(42));
    let (pid, token, _spawn, _va) = join(&mut s, viewport_21(), None, 5, 0, 123456789, "tok-a");
    match s.handle_update_nickname_action(pid, token.clone(), String::from("Ada")) {
        GameStateResponse::NicknameUpdated { player_id, new_name, players } => {
            assert_eq!(player_id, pid);
            assert_eq!(new_name, "Ada");
            assert!(players.iter().any(|(id, cp)| *id == pid && cp.name == "Ada"));
        },
        _ => panic!("expected a rename response"),
    }
    assert_eq!(s.players[0].1.name, "Ada");
    // a wrong token is refused with an error and no change
    match s.handle_update_nickname_action(pid, String::from("wrong"), String::from("Eve")) {
        GameStateResponse::Error { message } => {
            assert_eq!(message, "Invalid player or token");
        },
        _ => panic!("expected an error response"),
    }
    assert_eq!(s.players[0].1.name, "Ada");
}

#[test]
fn process_action_dispatches_all_four_actions() {
    let mut s = GameState::new(Some(42));
    let (resp, b) = s.process_action(PlayerAction::Join { visible_area: viewport_21(), token: None });
    assert!(b.is_some());
    let (pid, token, spawn) = match resp {
        GameStateResponse::Joined { player_id, token, tiles, .. } => {
            (player_id, token, tiles[0].0)
        },
        _ => panic!("expected a join response"),
    };
    let (resp, b) = s.process_action(PlayerAction::Update { area_to_update: viewport_21() });
    assert!(matches!(resp, GameStateResponse::Updated { .. }));
    assert!(b.is_none());
    let q = pos(spawn.x + 1, spawn.y);
    let (resp, _b) = s.process_action(PlayerAction::Uncover {
        player_id: pid,
        token: token.clone(),
        position: q,
        visible_area: viewport_21(),
    });
    assert!(matches!(resp, GameStateResponse::Uncovered { .. }));
    assert!(s.is_uncovered(q));
    let (resp, b) = s.process_action(PlayerAction::UpdateNickname {
        player_id: pid,
        token: token.clone(),
        new_name: String::from("Ada"),
    });
    assert!(matches!(resp, GameStateResponse::NicknameUpdated { .. }));
    assert!(b.is_none());
}

#[test]
fn join_under_the_wall_clock_mints_a_fresh_identity() {
    // exercises the real clock, randomness and token mint behind the engine
    let mut s = GameState::new(None);
    let (resp, b) = s.handle_join_action(viewport_21(), None);
    match resp {
        GameStateResponse::Joined { player_id, token, tiles, players, .. } => {
            assert_eq!(player_id, 1);
            assert!(!token.is_empty());
            assert!(!tiles.is_empty());
            assert_eq!(players.len(), 1);
        },
        _ => panic!("expected a join response"),
    }
    // nobody is connected yet, so the opening broadcast reaches no one
    assert!(b.recipients.is_empty());
    assert_eq!(s.players.len(), 1);
    assert!(s.board.len() >= 1);
    // the same unknown token can never join twice under two ids: a second
    // join reusing the minted token keeps it
    let tok = s.players[0].1.token.clone();
    let (resp2, _b2) = s.handle_join_action(viewport_21(), Some(tok.clone()));
    match resp2 {
        GameStateResponse::Joined { player_id, token, .. } => {
            assert_eq!(player_id, 2);
            assert_eq!(token, tok);
        },
        _ => panic!("expected a join response"),
    }
}

#[test]
fn roster_join_time_saturates_near_the_epoch_limit() {
    let mut s = GameState::new(Some(u32::MAX - 2));
    let (_pid, _tok, _spawn, _va) = join(&mut s, viewport_21(), None, 50, 0, 123456789, "tok-a");
    let roster = s.players_response(None);
    assert_eq!(roster.len(), 1);
    // absolute join time cannot be represented: it saturates
    assert_eq!(roster[0].1.join_time, u32::MAX);
}

#[test]
fn scenario_second_player_sees_the_first_change() {
    let mut s = GameState::new(Some(42));
    let (pid_a, tok_a, spawn_a, va_a) = join(&mut s, viewport_21(), None, 5, 0, 123456789, "tok-a");
    s.set_player_sender(pid_a);
    // B joins near A's frontier: the walk origin is A's spawn tile
    let (pid_b, _tok_b, _spawn_b, va_b) = join(&mut s, viewport_21(), None, 6, 0, 987654321, "tok-b");
    s.set_player_sender(pid_b);
    // A uncovers a neighbour of its spawn without B asking anything
    let q = pos(spawn_a.x, spawn_a.y + 1);
    let (_resp, b) = s.handle_uncover_at(pid_a, tok_a.clone(), q, va_a, 9);
    let b = b.expect("broadcast");
    let tile_area = Area { top_left: q, bottom_right: q };
    if areas_intersect(tile_area, va_b) {
        assert!(b.recipients.contains(&pid_b), "a watching connected player is served");
    } else {
        assert!(!b.recipients.contains(&pid_b), "a player looking elsewhere is not served");
    }
}
