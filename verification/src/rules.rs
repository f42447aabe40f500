//! The update rule of the automaton.
//!
//! The canonical Game of Life is stated as four rules over a cell's current
//! state and its live-neighbor count.  The engine instead evaluates the
//! closed-form expression `current * can_exist + must_exist`, where
//! `can_exist` holds exactly for a neighbor count of 2 and `must_exist`
//! exactly for a neighbor count of 3.  The two formulations agree on every
//! input; `lemma_rule_table_equivalence` proves it.

use vstd::prelude::*;

verus! {

/// Survival indicator: 1 when the neighbor count is exactly 2, else 0.
/// A live cell with exactly two neighbors keeps living; this factor is
/// multiplicative, so it never creates a cell that was dead.
pub open spec fn can_exist(neighbor_count: int) -> int {
    if neighbor_count == 2 {
        1
    } else {
        0
    }
}

/// Birth indicator: 1 when the neighbor count is exactly 3, else 0.
/// Any cell with exactly three neighbors is live in the next generation;
/// this term is additive, so it applies to live and dead cells alike.
pub open spec fn must_exist(neighbor_count: int) -> int {
    if neighbor_count == 3 {
        1
    } else {
        0
    }
}

/// The closed-form update: next state of a cell with state `current` and
/// `neighbor_count` live neighbors.
pub open spec fn next_cell(current: int, neighbor_count: int) -> int {
    current * can_exist(neighbor_count) + must_exist(neighbor_count)
}

/// The canonical four-rule Game of Life table:
/// a live cell with fewer than two neighbors dies (under-population),
/// a live cell with two or three neighbors survives,
/// a live cell with more than three neighbors dies (overcrowding),
/// a dead cell with exactly three neighbors becomes live (reproduction).
pub open spec fn rule_table(current: int, neighbor_count: int) -> int {
    if current == 1 && neighbor_count < 2 {
        0
    } else if current == 1 && (neighbor_count == 2 || neighbor_count == 3) {
        1
    } else if current == 1 && neighbor_count > 3 {
        0
    } else if current == 0 && neighbor_count == 3 {
        1
    } else {
        0
    }
}

/// Law: for every cell state in `{0, 1}` and every neighbor count in
/// `0..=8`, the closed-form update agrees with the canonical four-rule
/// table.
pub proof fn lemma_rule_table_equivalence(current: int, neighbor_count: int)
    requires
        current == 0 || current == 1,
        0 <= neighbor_count <= 8,
    ensures
        next_cell(current, neighbor_count) == rule_table(current, neighbor_count),
{
}

/// Computes the next state of one cell. The result is again a valid cell
/// state in `{0, 1}`.
pub fn next_cell_value(current: u8, neighbor_count: u8) -> (next: u8)
    requires
        current <= 1,
        neighbor_count <= 8,
    ensures
        next as int == next_cell(current as int, neighbor_count as int),
        next <= 1,
{
    let can: u8 = if neighbor_count == 2 {
        1
    } else {
        0
    };
    let must: u8 = if neighbor_count == 3 {
        1
    } else {
        0
    };
    current * can + must
}

} // verus!
