//! Positions on the unbounded tile grid, axis-aligned areas (viewports),
//! and the two geometric tests the engine relies on: which tiles surround a
//! position, and whether two areas intersect.

use vstd::prelude::*;

verus! {

/// A tile position on the unbounded grid.
#[derive(Clone, Copy, Debug, PartialEq, Eq, Structural)]
pub struct Position {
    pub x: i64,
    pub y: i64,
}

/// An axis-aligned rectangle of tiles, both corners inclusive.
#[derive(Clone, Copy, Debug, PartialEq, Eq, Structural)]
pub struct Area {
    pub top_left: Position,
    pub bottom_right: Position,
}

/// A position whose neighbours can be formed without leaving `i64`.
pub open spec fn pos_interior(p: Position) -> bool {
    i64::MIN < p.x < i64::MAX && i64::MIN < p.y < i64::MAX
}

/// The neighbour of `p` at offset `(dx, dy)`.
pub open spec fn pos_offset(p: Position, dx: int, dy: int) -> Position {
    Position { x: (p.x + dx) as i64, y: (p.y + dy) as i64 }
}

/// The eight tiles around `p`, in row-major order, the tile itself excluded.
pub open spec fn tiles_around_spec(p: Position) -> Seq<Position> {
    seq![
        pos_offset(p, -1, -1),
        pos_offset(p, -1, 0),
        pos_offset(p, -1, 1),
        pos_offset(p, 0, -1),
        pos_offset(p, 0, 1),
        pos_offset(p, 1, -1),
        pos_offset(p, 1, 0),
        pos_offset(p, 1, 1),
    ]
}

/// The eight tiles around a position, the position itself excluded.
pub fn tiles_around(position: Position) -> (r: Vec<Position>)
    requires
        pos_interior(position),
    ensures
        r@ == tiles_around_spec(position),
{
    let mut r: Vec<Position> = Vec::new();
    r.push(Position { x: position.x - 1, y: position.y - 1 });
    r.push(Position { x: position.x - 1, y: position.y });
    r.push(Position { x: position.x - 1, y: position.y + 1 });
    r.push(Position { x: position.x, y: position.y - 1 });
    r.push(Position { x: position.x, y: position.y + 1 });
    r.push(Position { x: position.x + 1, y: position.y - 1 });
    r.push(Position { x: position.x + 1, y: position.y });
    r.push(Position { x: position.x + 1, y: position.y + 1 });
    proof {
        assert(r@ =~= tiles_around_spec(position));
    }
    r
}

/// Whether `a` contains the position `p`.
pub open spec fn area_contains(a: Area, p: Position) -> bool {
    &&& a.top_left.x <= p.x <= a.bottom_right.x
    &&& a.top_left.y <= p.y <= a.bottom_right.y
}

/// Two areas intersect when their projections overlap on both axes.
pub open spec fn areas_intersect_spec(area1: Area, area2: Area) -> bool {
    &&& area1.top_left.x <= area2.bottom_right.x
    &&& area1.bottom_right.x >= area2.top_left.x
    &&& area1.top_left.y <= area2.bottom_right.y
    &&& area1.bottom_right.y >= area2.top_left.y
}

/// Whether two axis-aligned areas share at least one tile (for areas whose
/// corners are ordered).
pub fn areas_intersect(area1: Area, area2: Area) -> (r: bool)
    ensures
        r == areas_intersect_spec(area1, area2),
{
    area1.top_left.x <= area2.bottom_right.x && area1.bottom_right.x >= area2.top_left.x
        && area1.top_left.y <= area2.bottom_right.y && area1.bottom_right.y >= area2.top_left.y
}

/// A viewport the engine accepts: corners ordered and no wider or taller
/// than `MAX_VIEWPORT_EXTENT` tiles, so that centering arithmetic stays
/// inside `i64`.
pub open spec fn area_wf(a: Area) -> bool {
    &&& a.top_left.x <= a.bottom_right.x
    &&& a.top_left.y <= a.bottom_right.y
    &&& a.bottom_right.x - a.top_left.x < MAX_VIEWPORT_EXTENT
    &&& a.bottom_right.y - a.top_left.y < MAX_VIEWPORT_EXTENT
}

/// Largest accepted viewport extent on either axis, in tiles.
pub const MAX_VIEWPORT_EXTENT: i64 = 16777216;

/// The singleton area holding exactly `p`.
pub open spec fn singleton_area(p: Position) -> Area {
    Area { top_left: p, bottom_right: p }
}

} // verus!
