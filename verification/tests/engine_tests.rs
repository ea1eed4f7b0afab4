use std::collections::VecDeque;

use mineworld::engine::GameState;
use mineworld::geometry::Position;
use mineworld::oracle::{adjacent_mine_count, is_mine};

fn pos(x: i64, y: i64) -> Position {
    Position { x, y }
}

#[test]
fn new_world_is_empty() {
    let s = GameState::new(Some(42));
    assert_eq!(s.epoch, 42);
    assert_eq!(s.board.len(), 0);
    assert_eq!(s.players.len(), 0);
    assert_eq!(s.uncover_history.len(), 0);
    assert_eq!(s.next_player_id, 1);
    assert!(!s.is_uncovered(pos(0, 0)));
}

#[test]
fn uncover_records_owner_and_time() {
    let mut s = GameState::new(Some(7));
    s.uncover_at(pos(3, 4), 9, 25);
    assert!(s.is_uncovered(pos(3, 4)));
    assert!(!s.is_uncovered(pos(4, 3)));
    assert_eq!(s.board.len(), 1);
    assert_eq!(s.board[0].0, pos(3, 4));
    assert_eq!(s.board[0].1.player_id, 9);
    assert_eq!(s.board[0].1.uncovered, 25);
    assert_eq!(s.uncover_history, VecDeque::from(vec![pos(3, 4)]));
}

#[test]
fn uncover_is_idempotent() {
    let mut s = GameState::new(Some(7));
    s.uncover_at(pos(3, 4), 9, 25);
    let board_before: Vec<_> = s.board.clone();
    let history_before = s.uncover_history.clone();
    // a second uncover, even by another player at a later time, is a no-op
    s.uncover_at(pos(3, 4), 11, 1000);
    assert_eq!(s.board, board_before);
    assert_eq!(s.uncover_history, history_before);
    assert_eq!(s.board[0].1.player_id, 9);
    assert_eq!(s.board[0].1.uncovered, 25);
}

#[test]
fn clock_never_runs_backwards() {
    let mut s = GameState::new(Some(7));
    s.uncover_at(pos(0, 0), 1, 50);
    // an earlier wall-clock reading is clamped to the stored clock
    s.uncover_at(pos(1, 0), 1, 10);
    assert_eq!(s.board[1].1.uncovered, 50);
    s.uncover_at(pos(2, 0), 1, 51);
    assert_eq!(s.board[2].1.uncovered, 51);
}

#[test]
fn eviction_respects_age_and_floor() {
    let mut s = GameState::new(Some(7));
    for i in 0..150 {
        s.uncover_at(pos(i, 0), 1, 1);
    }
    assert_eq!(s.uncover_history.len(), 150);
    // every queued entry is now far older than the age bound: the pass
    // prunes the queue to the floor, and only the queue
    s.uncover_at(pos(999, 0), 1, 700);
    assert_eq!(s.uncover_history.len(), 100);
    assert_eq!(s.board.len(), 151);
    // the survivors are the youngest hundred, oldest first
    assert_eq!(s.uncover_history[0], pos(51, 0));
    assert_eq!(s.uncover_history[99], pos(999, 0));
}

#[test]
fn eviction_leaves_young_entries_alone() {
    let mut s = GameState::new(Some(7));
    for i in 0..150 {
        s.uncover_at(pos(i, 0), 1, 1);
    }
    // a fresh uncover within the age bound evicts nothing
    s.uncover_at(pos(999, 0), 1, 300);
    assert_eq!(s.uncover_history.len(), 151);
}

#[test]
fn eviction_floor_holds_below_hundred() {
    let mut s = GameState::new(Some(7));
    for i in 0..50 {
        s.uncover_at(pos(i, 0), 1, 1);
    }
    // all entries are ancient, but the queue is under the floor: untouched
    s.uncover_at(pos(999, 0), 1, 100000);
    assert_eq!(s.uncover_history.len(), 51);
}

#[test]
fn touches_own_area_needs_an_adjacent_owned_tile() {
    let mut s = GameState::new(Some(7));
    s.uncover_at(pos(0, 0), 1, 1);
    assert!(s.touches_own_area(pos(1, 1), 1));
    assert!(s.touches_own_area(pos(0, 1), 1));
    assert!(!s.touches_own_area(pos(2, 2), 1));
    // the right neighbourhood, but the wrong owner
    assert!(!s.touches_own_area(pos(1, 1), 2));
}

#[test]
fn spawn_walk_finds_a_safe_isolated_tile() {
    let s = GameState::new(Some(42));
    let start = s.find_start_from(0, 123456789);
    // from an empty world the bounded walk finds a proper tile
    assert_ne!(start, pos(0, 0));
    assert!(!is_mine(42, start));
    assert_eq!(adjacent_mine_count(42, start), 0);
    assert!(!s.is_uncovered(start));
}

#[test]
fn spawn_walk_is_deterministic_in_its_draws() {
    let s = GameState::new(Some(42));
    assert_eq!(s.find_start_from(5, 98765), s.find_start_from(5, 98765));
}

#[test]
fn spawn_origin_picked_from_recency_queue() {
    let mut s = GameState::new(Some(42));
    for i in 0..10 {
        s.uncover_at(pos(1000 + i, 0), 1, 1);
    }
    // pick selects a queue entry; the walk keeps a clear run of at least
    // six tiles, so the found tile sits away from the frontier
    let start = s.find_start_from(3, 424242);
    assert!(!is_mine(42, start));
    assert_eq!(adjacent_mine_count(42, start), 0);
    assert!(!s.is_uncovered(start));
}

#[test]
fn registry_connection_flags() {
    let mut s = GameState::new(Some(1));
    let (resp, _b) = s.handle_join_with(
        mineworld::geometry::Area { top_left: pos(0, 0), bottom_right: pos(20, 20) },
        None,
        5,
        0,
        12345,
        String::from("tok-a"),
    );
    let pid = match resp {
        mineworld::types::GameStateResponse::Joined { player_id, .. } => player_id,
        _ => panic!("expected a join response"),
    };
    assert!(!s.players[0].1.connected);
    s.set_player_sender(pid);
    assert!(s.players[0].1.connected);
    // an unknown id changes nothing
    s.set_player_sender(999);
    assert!(s.players[0].1.connected);
    s.remove_player(pid);
    assert!(!s.players[0].1.connected);
    // the record itself persists for reconnection
    assert_eq!(s.players.len(), 1);
}
