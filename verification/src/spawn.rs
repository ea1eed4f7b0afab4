//! The spawn finder: walk outward from a recently active tile along a
//! pseudo-random direction, using an error-accumulator line-stepping rule,
//! until a stretch of untouched board ends in a tile that is neither a mine
//! nor next to one.  The walk is bounded, with the world origin as the
//! degraded fallback.

use vstd::prelude::*;

use crate::engine::{board_contains, GameState};
use crate::geometry::Position;
use crate::oracle::{adjacent_mine_count_spec, is_mine_spec};

verus! {

/// The walk gives up after this many grid steps.
pub const MAX_SPAWN_WALK_STEPS: u32 = 10000;

/// The walk never leaves this coordinate range, so that a found tile keeps
/// ample room for viewport arithmetic.
pub const WALK_BOUND: i64 = 0x2000000000000000;

/// A spawn tile must sit past this many consecutive untouched tiles.
pub const MIN_CLEAR_RUN: u32 = 5;

pub open spec fn abs_i32(v: int) -> int {
    if v >= 0 {
        v
    } else {
        -v
    }
}

pub open spec fn step_sign(v: int) -> int {
    if v > 0 {
        1
    } else {
        -1
    }
}

/// A candidate direction that gives a uniformly random angle: a nonzero
/// point of the disc of radius 10000.
pub open spec fn dir_in_disc(dx: int, dy: int) -> bool {
    &&& dx * dx + dy * dy <= 100000000
    &&& !(dx == 0 && dy == 0)
}

/// The direction the walk takes, derived from one random 64-bit draw.
/// The draw yields two candidate points of the square of side 20001; the
/// first one inside the disc is taken, so that the angle is uniform
/// (rejection sampling).  In the rare case that both candidates miss the
/// disc the first nonzero one is taken, and a unit step covers the rest.
pub open spec fn direction_spec(dir_seed: u64) -> (int, int) {
    let r0 = dir_seed as int;
    let c1x = r0 % 20001 - 10000;
    let r1 = r0 / 20001;
    let c1y = r1 % 20001 - 10000;
    let r2 = r1 / 20001;
    let c2x = r2 % 20001 - 10000;
    let r3 = r2 / 20001;
    let c2y = r3 % 20001 - 10000;
    if dir_in_disc(c1x, c1y) {
        (c1x, c1y)
    } else if dir_in_disc(c2x, c2y) {
        (c2x, c2y)
    } else if !(c1x == 0 && c1y == 0) {
        (c1x, c1y)
    } else if !(c2x == 0 && c2y == 0) {
        (c2x, c2y)
    } else {
        (1, 0)
    }
}

/// One step of the error-accumulator line rule: always advance the primary
/// axis; advance the secondary axis when the accumulated error crosses half
/// the primary delta.
pub open spec fn walk_step(
    x: int,
    y: int,
    err: int,
    dxa: int,
    dya: int,
    xs: int,
    ys: int,
) -> (int, int, int) {
    let primary = if dxa > dya {
        dxa
    } else {
        dya
    };
    let secondary = if dxa > dya {
        dya
    } else {
        dxa
    };
    let e2 = err + secondary;
    if dxa > dya {
        if 2 * e2 >= primary {
            (x + xs, y + ys, e2 - primary)
        } else {
            (x + xs, y, e2)
        }
    } else {
        if 2 * e2 >= primary {
            (x + xs, y + ys, e2 - primary)
        } else {
            (x, y + ys, e2)
        }
    }
}

/// The whole walk, one recursion step per visited tile: stop with the
/// current tile once the clear run is long enough and the tile is neither
/// a mine nor next to one; an uncovered tile resets the run; leaving the
/// bounded region or exhausting the fuel gives up.
pub open spec fn walk_spec(
    board: Seq<(Position, crate::types::DbTile)>,
    seed: u32,
    x: int,
    y: int,
    err: int,
    run: int,
    fuel: nat,
    dxa: int,
    dya: int,
    xs: int,
    ys: int,
) -> Option<Position>
    decreases fuel,
{
    if fuel == 0 {
        None
    } else if !(-WALK_BOUND <= x <= WALK_BOUND && -WALK_BOUND <= y <= WALK_BOUND) {
        None
    } else {
        let p = Position { x: x as i64, y: y as i64 };
        if board_contains(board, p) {
            let s = walk_step(x, y, err, dxa, dya, xs, ys);
            walk_spec(board, seed, s.0, s.1, s.2, 0, (fuel - 1) as nat, dxa, dya, xs, ys)
        } else if run + 1 > MIN_CLEAR_RUN && !is_mine_spec(seed, p) && adjacent_mine_count_spec(
            seed,
            p,
        ) == 0 {
            Some(p)
        } else {
            let s = walk_step(x, y, err, dxa, dya, xs, ys);
            walk_spec(board, seed, s.0, s.1, s.2, run + 1, (fuel - 1) as nat, dxa, dya, xs, ys)
        }
    }
}

/// Every tile the walk returns is untouched, mine-free, has no adjacent
/// mines, and lies inside the bounded region.
pub proof fn lemma_walk_safe(
    board: Seq<(Position, crate::types::DbTile)>,
    seed: u32,
    x: int,
    y: int,
    err: int,
    run: int,
    fuel: nat,
    dxa: int,
    dya: int,
    xs: int,
    ys: int,
)
    ensures
        walk_spec(board, seed, x, y, err, run, fuel, dxa, dya, xs, ys) matches Some(p) ==> {
            &&& !board_contains(board, p)
            &&& !is_mine_spec(seed, p)
            &&& adjacent_mine_count_spec(seed, p) == 0
            &&& -WALK_BOUND <= p.x <= WALK_BOUND
            &&& -WALK_BOUND <= p.y <= WALK_BOUND
        },
    decreases fuel,
{
    if fuel > 0 {
        let s = walk_step(x, y, err, dxa, dya, xs, ys);
        lemma_walk_safe(board, seed, s.0, s.1, s.2, 0, (fuel - 1) as nat, dxa, dya, xs, ys);
        lemma_walk_safe(board, seed, s.0, s.1, s.2, run + 1, (fuel - 1) as nat, dxa, dya, xs, ys);
    }
}

/// Where the walk starts: a queue entry picked by the random draw, or the
/// world origin when the queue is empty.
pub open spec fn spawn_origin_spec(hist: Seq<Position>, pick: u64) -> Position {
    if hist.len() == 0 {
        Position { x: 0, y: 0 }
    } else {
        hist[(pick as int) % (hist.len() as int)]
    }
}

/// The spawn tile for the given state and random draws: the walk's find,
/// or the world origin as the degraded fallback.
pub open spec fn spawn_spec(s: GameState, pick: u64, dir_seed: u64) -> Position {
    let origin = spawn_origin_spec(s.uncover_history@, pick);
    let d = direction_spec(dir_seed);
    match walk_spec(
        s.board@,
        s.epoch,
        origin.x as int,
        origin.y as int,
        0,
        0,
        MAX_SPAWN_WALK_STEPS as nat,
        abs_i32(d.0),
        abs_i32(d.1),
        step_sign(d.0),
        step_sign(d.1),
    ) {
        Some(p) => p,
        None => Position { x: 0, y: 0 },
    }
}

/// What every spawn result satisfies: bounded coordinates, and — except
/// for the fallback origin — a fresh, mine-free tile with no mines around
/// it.
pub open spec fn spawn_result_ok(s: GameState, r: Position) -> bool {
    &&& -WALK_BOUND <= r.x <= WALK_BOUND
    &&& -WALK_BOUND <= r.y <= WALK_BOUND
    &&& (r == (Position { x: 0, y: 0 }) || (!board_contains(s.board@, r) && !is_mine_spec(
        s.epoch,
        r,
    ) && adjacent_mine_count_spec(s.epoch, r) == 0))
}

proof fn lemma_square_bound(v: int)
    requires
        -10000 <= v <= 10000,
    ensures
        0 <= v * v <= 100000000,
{
    assert(0 <= v * v <= 100000000) by (nonlinear_arith)
        requires
            -10000 <= v <= 10000,
    ;
}

/// The direction components derived from one random draw.
pub fn direction_from(dir_seed: u64) -> (r: (i32, i32))
    ensures
        (r.0 as int, r.1 as int) == direction_spec(dir_seed),
        -10000 <= r.0 <= 10000,
        -10000 <= r.1 <= 10000,
        !(r.0 == 0 && r.1 == 0),
{
    let c1x = (dir_seed % 20001) as i32 - 10000;
    let r1 = dir_seed / 20001;
    let c1y = (r1 % 20001) as i32 - 10000;
    let r2 = r1 / 20001;
    let c2x = (r2 % 20001) as i32 - 10000;
    let r3 = r2 / 20001;
    let c2y = (r3 % 20001) as i32 - 10000;
    proof {
        lemma_square_bound(c1x as int);
        lemma_square_bound(c1y as int);
        lemma_square_bound(c2x as int);
        lemma_square_bound(c2y as int);
    }
    let s1: i64 = (c1x as i64) * (c1x as i64) + (c1y as i64) * (c1y as i64);
    let s2: i64 = (c2x as i64) * (c2x as i64) + (c2y as i64) * (c2y as i64);
    if s1 <= 100000000 && !(c1x == 0 && c1y == 0) {
        (c1x, c1y)
    } else if s2 <= 100000000 && !(c2x == 0 && c2y == 0) {
        (c2x, c2y)
    } else if !(c1x == 0 && c1y == 0) {
        (c1x, c1y)
    } else if !(c2x == 0 && c2y == 0) {
        (c2x, c2y)
    } else {
        (1, 0)
    }
}

impl GameState {
    /// Walk from `origin` in the direction `(dx, dy)` and return the first
    /// safe spawn tile found, if the bounded walk finds one.
    #[verifier::rlimit(100)]
    #[verifier::loop_isolation(false)]
    pub fn find_start_position(&self, origin: Position, dx: i32, dy: i32) -> (r: Option<
        Position,
    >)
        requires
            self.wf(),
            -10000 <= dx <= 10000,
            -10000 <= dy <= 10000,
            !(dx == 0 && dy == 0),
        ensures
            r == walk_spec(
                self.board@,
                self.epoch,
                origin.x as int,
                origin.y as int,
                0,
                0,
                MAX_SPAWN_WALK_STEPS as nat,
                abs_i32(dx as int),
                abs_i32(dy as int),
                step_sign(dx as int),
                step_sign(dy as int),
            ),
            r matches Some(p) ==> {
                &&& !board_contains(self.board@, p)
                &&& !is_mine_spec(self.epoch, p)
                &&& adjacent_mine_count_spec(self.epoch, p) == 0
                &&& -WALK_BOUND <= p.x <= WALK_BOUND
                &&& -WALK_BOUND <= p.y <= WALK_BOUND
            },
    {
        let dxa: i32 = if dx >= 0 {
            dx
        } else {
            -dx
        };
        let dya: i32 = if dy >= 0 {
            dy
        } else {
            -dy
        };
        let xs: i64 = if dx > 0 {
            1
        } else {
            -1
        };
        let ys: i64 = if dy > 0 {
            1
        } else {
            -1
        };
        let primary: i32 = if dxa > dya {
            dxa
        } else {
            dya
        };
        let secondary: i32 = if dxa > dya {
            dya
        } else {
            dxa
        };
        let primary_is_x = dxa > dya;
        let mut x: i64 = origin.x;
        let mut y: i64 = origin.y;
        let mut err: i32 = 0;
        let mut run: u32 = 0;
        let mut fuel: u32 = MAX_SPAWN_WALK_STEPS;
        let ghost goal = walk_spec(
            self.board@,
            self.epoch,
            origin.x as int,
            origin.y as int,
            0,
            0,
            MAX_SPAWN_WALK_STEPS as nat,
            abs_i32(dx as int),
            abs_i32(dy as int),
            step_sign(dx as int),
            step_sign(dy as int),
        );
        proof {
            lemma_walk_safe(
                self.board@,
                self.epoch,
                origin.x as int,
                origin.y as int,
                0,
                0,
                MAX_SPAWN_WALK_STEPS as nat,
                abs_i32(dx as int),
                abs_i32(dy as int),
                step_sign(dx as int),
                step_sign(dy as int),
            );
        }
        loop
            invariant
                -10000 <= err <= 10000,
                run as int + fuel as int <= MAX_SPAWN_WALK_STEPS as int + 5,
                goal == walk_spec(
                    self.board@,
                    self.epoch,
                    x as int,
                    y as int,
                    err as int,
                    run as int,
                    fuel as nat,
                    dxa as int,
                    dya as int,
                    xs as int,
                    ys as int,
                ),
            decreases fuel,
        {
            let ghost x0: int = x as int;
            let ghost y0: int = y as int;
            let ghost e0: int = err as int;
            let ghost r0: int = run as int;
            let ghost f0: nat = fuel as nat;
            if fuel == 0 {
                proof {
                    assert(walk_spec(
                        self.board@,
                        self.epoch,
                        x0,
                        y0,
                        e0,
                        r0,
                        f0,
                        dxa as int,
                        dya as int,
                        xs as int,
                        ys as int,
                    ) is None);
                }
                return None;
            }
            if !(x >= -WALK_BOUND && x <= WALK_BOUND && y >= -WALK_BOUND && y <= WALK_BOUND) {
                proof {
                    assert(walk_spec(
                        self.board@,
                        self.epoch,
                        x0,
                        y0,
                        e0,
                        r0,
                        f0,
                        dxa as int,
                        dya as int,
                        xs as int,
                        ys as int,
                    ) is None);
                }
                return None;
            }
            let p = Position { x, y };
            if self.is_uncovered(p) {
                run = 0;
            } else {
                run = run + 1;
                if run > MIN_CLEAR_RUN && !self.is_mine(p) && self.adjacent_mines(p) == 0 {
                    proof {
                        assert(walk_spec(
                            self.board@,
                            self.epoch,
                            x0,
                            y0,
                            e0,
                            r0,
                            f0,
                            dxa as int,
                            dya as int,
                            xs as int,
                            ys as int,
                        ) == Some(p));
                    }
                    return Some(p);
                }
            }
            let e2: i32 = err + secondary;
            if primary_is_x {
                x = x + xs;
                if 2 * e2 >= primary {
                    y = y + ys;
                    err = e2 - primary;
                } else {
                    err = e2;
                }
            } else {
                y = y + ys;
                if 2 * e2 >= primary {
                    x = x + xs;
                    err = e2 - primary;
                } else {
                    err = e2;
                }
            }
            fuel = fuel - 1;
            proof {
                let st = walk_step(
                    x0,
                    y0,
                    e0,
                    dxa as int,
                    dya as int,
                    xs as int,
                    ys as int,
                );
                assert(x as int == st.0);
                assert(y as int == st.1);
                assert(err as int == st.2);
                assert(goal == walk_spec(
                    self.board@,
                    self.epoch,
                    x as int,
                    y as int,
                    err as int,
                    run as int,
                    fuel as nat,
                    dxa as int,
                    dya as int,
                    xs as int,
                    ys as int,
                ));
            }
        }
    }

    /// The spawn tile for the given random draws: pick the walk origin
    /// from the recency queue, derive the direction, walk, and fall back
    /// to the world origin when the walk gives up.
    pub fn find_start_from(&self, pick: u64, dir_seed: u64) -> (r: Position)
        requires
            self.wf(),
        ensures
            r == spawn_spec(*self, pick, dir_seed),
            spawn_result_ok(*self, r),
    {
        let origin = if self.uncover_history.len() == 0 {
            Position { x: 0, y: 0 }
        } else {
            let len = self.uncover_history.len();
            let idx = (pick % (len as u64)) as usize;
            proof {
                assert(idx as int == (pick as int) % (len as int));
            }
            self.uncover_history[idx]
        };
        let (dx, dy) = direction_from(dir_seed);
        match self.find_start_position(origin, dx, dy) {
            Some(p) => p,
            None => Position { x: 0, y: 0 },
        }
    }

    /// The spawn tile under fresh random draws: biased toward recent
    /// activity, safe whenever the walk finds a tile.
    pub fn find_random_start_position(&self) -> (r: Position)
        requires
            self.wf(),
        ensures
            exists|pick: u64, dir_seed: u64| r == spawn_spec(*self, pick, dir_seed),
            spawn_result_ok(*self, r),
    {
        let pick = crate::external::random_u64();
        let dir_seed = crate::external::random_u64();
        let r = self.find_start_from(pick, dir_seed);
        proof {
            assert(r == spawn_spec(*self, pick, dir_seed));
        }
        r
    }
}

} // verus!
