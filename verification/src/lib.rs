//! Server core of a persistent, infinite, multiplayer minesweeper world.
//!
//! The library holds the world-state engine: the deterministic mine oracle,
//! the uncover ledger with its bounded recency queue, the safe-spawn search,
//! the player registry with its auth rule, and the computation of which
//! connected players a tile change must be broadcast to.  Transport, TLS and
//! argument parsing live outside the library and talk to it in plain values.

pub mod geometry;
pub mod oracle;
pub mod color;
pub mod text;
pub mod types;
pub mod external;
pub mod engine;
pub mod views;
pub mod spawn;
pub mod actions;
pub mod laws;
