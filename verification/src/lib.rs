//! A verified multi-channel engine for Conway's Game of Life.
//!
//! Cell states live in `{0, 1}`; each generation is produced by counting the
//! live cells in every cell's 8-connected neighborhood (zero-padded at the
//! grid boundary) with a fixed 3x3 convolution kernel, and then applying the
//! closed-form update `next = current * can_exist + must_exist`, which is
//! proved equivalent to the canonical four-rule Game of Life table.

pub mod engine;
pub mod grid;
pub mod init;
pub mod props;
pub mod rng;
pub mod rules;
