//! The mine oracle: a pure, deterministic map from (world seed, position) to
//! mine / no mine, and the derived count of mines around a position.  The
//! board is never materialized; every answer is recomputed from the seed.
//!
//! The seed and the coordinates are combined through a 64-bit avalanche
//! mixer (xor-shift and wrapping multiplication rounds), and the mixed value
//! is compared against a fixed threshold equal to one fifth of the 64-bit
//! range, which realizes the fixed mine probability of 0.2.

use vstd::prelude::*;

use crate::geometry::{pos_interior, tiles_around, tiles_around_spec, Position};

verus! {

/// Mines cover one fifth of the hash range: floor(2^64 / 5).
pub const MINE_THRESHOLD: u64 = 3689348814741910323;

/// One avalanche round: xor-shift, then a wrapping multiply.
pub open spec fn mix64(z: u64) -> u64 {
    let a = (z ^ (z >> 33)).wrapping_mul(0xff51afd7ed558ccd);
    let b = (a ^ (a >> 33)).wrapping_mul(0xc4ceb9fe1a85ec53);
    b ^ (b >> 33)
}

/// The hash the oracle compares against the threshold: a function of the
/// seed and the coordinates alone.
pub open spec fn pos_hash(seed: u32, position: Position) -> u64 {
    let h0 = mix64(seed as u64);
    let h1 = mix64(h0 ^ (position.x as u64));
    mix64(h1 ^ (position.y as u64))
}

/// Whether the tile at `position` is a mine under `seed`.
pub open spec fn is_mine_spec(seed: u32, position: Position) -> bool {
    pos_hash(seed, position) < MINE_THRESHOLD
}

/// How many of the positions in `s` are mines under `seed`.
pub open spec fn count_mines(seed: u32, s: Seq<Position>) -> int
    decreases s.len(),
{
    if s.len() == 0 {
        0
    } else {
        count_mines(seed, s.drop_last()) + if is_mine_spec(seed, s.last()) {
            1int
        } else {
            0int
        }
    }
}

/// How many of the eight neighbours of `position` are mines under `seed`.
pub open spec fn adjacent_mine_count_spec(seed: u32, position: Position) -> int {
    count_mines(seed, tiles_around_spec(position))
}

proof fn lemma_count_mines_bounds(seed: u32, s: Seq<Position>)
    ensures
        0 <= count_mines(seed, s) <= s.len(),
    decreases s.len(),
{
    if s.len() > 0 {
        lemma_count_mines_bounds(seed, s.drop_last());
    }
}

/// Whether the tile at `position` is a mine under `seed`.  Pure: the result
/// depends on the two arguments alone.
pub fn is_mine(seed: u32, position: Position) -> (r: bool)
    ensures
        r == is_mine_spec(seed, position),
{
    let z: u64 = seed as u64;
    let h0 = mix_exec(z);
    let h1 = mix_exec(h0 ^ (position.x as u64));
    let h2 = mix_exec(h1 ^ (position.y as u64));
    h2 < MINE_THRESHOLD
}

fn mix_exec(z: u64) -> (r: u64)
    ensures
        r == mix64(z),
{
    let a = (z ^ (z >> 33)).wrapping_mul(0xff51afd7ed558ccd);
    let b = (a ^ (a >> 33)).wrapping_mul(0xc4ceb9fe1a85ec53);
    b ^ (b >> 33)
}

/// How many of the eight neighbours of `position` are mines under `seed`.
/// Pure: the result depends on the two arguments alone, and lies in 0..=8.
pub fn adjacent_mine_count(seed: u32, position: Position) -> (r: i8)
    requires
        pos_interior(position),
    ensures
        r as int == adjacent_mine_count_spec(seed, position),
        0 <= r <= 8,
{
    let around = tiles_around(position);
    let ghost s = tiles_around_spec(position);
    let mut count: i8 = 0;
    let mut i: usize = 0;
    while i < around.len()
        invariant
            around@ == s,
            0 <= i <= s.len(),
            s.len() == 8,
            count as int == count_mines(seed, s.take(i as int)),
            0 <= count <= i,
        decreases around.len() - i,
    {
        proof {
            lemma_count_mines_bounds(seed, s.take(i as int));
            assert(s.take(i + 1).drop_last() =~= s.take(i as int));
            assert(s.take(i + 1).last() == s[i as int]);
        }
        if is_mine(seed, around[i]) {
            count = count + 1;
        }
        i = i + 1;
    }
    proof {
        assert(s.take(8) =~= s);
    }
    count
}

} // verus!
