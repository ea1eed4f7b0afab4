use mineworld::color::{get_nth_color, get_player_color_hex};
use mineworld::engine::GameState;
use mineworld::geometry::{areas_intersect, tiles_around, Area, Position};
use mineworld::oracle::{adjacent_mine_count, is_mine};
use mineworld::text::{position_key, u64_to_dec};

fn pos(x: i64, y: i64) -> Position {
    Position { x, y }
}

fn area(left: i64, top: i64, right: i64, bottom: i64) -> Area {
    Area { top_left: pos(left, top), bottom_right: pos(right, bottom) }
}

#[test]
fn oracle_is_deterministic_across_calls() {
    for x in -20..20 {
        for y in -20..20 {
            let p = pos(x, y);
            assert_eq!(is_mine(42, p), is_mine(42, p));
            assert_eq!(adjacent_mine_count(42, p), adjacent_mine_count(42, p));
        }
    }
}

#[test]
fn oracle_is_deterministic_across_restarts() {
    let s1 = GameState::new(Some(42));
    let s2 = GameState::new(Some(42));
    for x in -20..20 {
        for y in -20..20 {
            let p = pos(x, y);
            assert_eq!(s1.is_mine(p), s2.is_mine(p));
            assert_eq!(s1.adjacent_mines(p), s2.adjacent_mines(p));
            assert_eq!(s1.is_mine(p), is_mine(42, p));
        }
    }
}

#[test]
fn adjacent_count_matches_neighbour_census() {
    for x in -10..10 {
        for y in -10..10 {
            let p = pos(x, y);
            let mut census: i8 = 0;
            for q in tiles_around(p) {
                if is_mine(7, q) {
                    census += 1;
                }
            }
            assert_eq!(adjacent_mine_count(7, p), census);
            assert!(adjacent_mine_count(7, p) >= 0);
            assert!(adjacent_mine_count(7, p) <= 8);
        }
    }
}

#[test]
fn mine_density_is_plausible() {
    let mut mines = 0;
    let mut total = 0;
    for x in -50..50 {
        for y in -50..50 {
            total += 1;
            if is_mine(1, pos(x, y)) {
                mines += 1;
            }
        }
    }
    // one fifth of the tiles, within a generous tolerance
    assert!(mines > total / 10);
    assert!(mines < total * 3 / 10);
}

#[test]
fn tiles_around_lists_the_eight_neighbours() {
    let around = tiles_around(pos(0, 0));
    let expected = vec![
        pos(-1, -1),
        pos(-1, 0),
        pos(-1, 1),
        pos(0, -1),
        pos(0, 1),
        pos(1, -1),
        pos(1, 0),
        pos(1, 1),
    ];
    assert_eq!(around, expected);
}

#[test]
fn areas_intersect_on_overlap_only() {
    let a = area(0, 0, 10, 10);
    assert!(areas_intersect(a, area(10, 10, 20, 20)));
    assert!(areas_intersect(a, area(-5, -5, 0, 0)));
    assert!(areas_intersect(a, area(3, 3, 4, 4)));
    assert!(!areas_intersect(a, area(11, 0, 20, 10)));
    assert!(!areas_intersect(a, area(0, 11, 10, 20)));
    assert!(!areas_intersect(a, area(-20, -20, -1, -1)));
}

#[test]
fn nth_color_formula() {
    assert_eq!(get_nth_color(0), (0, 0, 0));
    assert_eq!(get_nth_color(1), (54787, 25867, 9337));
    let n: u64 = 123456;
    let expected =
        (((54787 * n) % 65536) as u16, ((25867 * n) % 65536) as u16, ((9337 * n) % 65536) as u16);
    assert_eq!(get_nth_color(123456), expected);
}

#[test]
fn player_color_hex_rendering() {
    assert_eq!(get_player_color_hex(0), "#000000");
    assert_eq!(get_player_color_hex(1), "#D66524");
    let (r, g, b) = get_nth_color(77);
    let expected = format!("#{:02X}{:02X}{:02X}", r / 256, g / 256, b / 256);
    assert_eq!(get_player_color_hex(77), expected);
}

#[test]
fn decimal_rendering() {
    assert_eq!(u64_to_dec(0), "0");
    assert_eq!(u64_to_dec(9), "9");
    assert_eq!(u64_to_dec(10), "10");
    assert_eq!(u64_to_dec(1234567890123), "1234567890123");
    assert_eq!(u64_to_dec(u64::MAX), format!("{}", u64::MAX));
}

#[test]
fn position_keys_are_stable_strings() {
    assert_eq!(position_key(pos(0, 0)), "0,0");
    assert_eq!(position_key(pos(-5, 123)), "-5,123");
    assert_eq!(position_key(pos(42, -1)), "42,-1");
    assert_eq!(
        position_key(pos(i64::MIN, i64::MAX)),
        format!("{},{}", i64::MIN, i64::MAX)
    );
}
