use conway::rules::next_cell_value;

/// The canonical four-rule Game of Life table, written out directly.
fn canonical_table(current: u8, neighbors: u8) -> u8 {
    if current == 1 && neighbors < 2 {
        0 // under-population
    } else if current == 1 && (neighbors == 2 || neighbors == 3) {
        1 // stable environment
    } else if current == 1 && neighbors > 3 {
        0 // overcrowding
    } else if current == 0 && neighbors == 3 {
        1 // reproduction
    } else {
        0
    }
}

#[test]
fn rule_table_exhaustive() {
    // All 18 combinations of cell state and neighbor count.
    for current in 0u8..=1 {
        for neighbors in 0u8..=8 {
            assert_eq!(
                next_cell_value(current, neighbors),
                canonical_table(current, neighbors),
                "state {} with {} neighbors",
                current,
                neighbors
            );
        }
    }
}

#[test]
fn rule_survival_values() {
    // A live cell survives with exactly 2 or 3 neighbors.
    assert_eq!(next_cell_value(1, 2), 1);
    assert_eq!(next_cell_value(1, 3), 1);
    // Under-population and overcrowding.
    assert_eq!(next_cell_value(1, 0), 0);
    assert_eq!(next_cell_value(1, 1), 0);
    assert_eq!(next_cell_value(1, 4), 0);
    assert_eq!(next_cell_value(1, 8), 0);
}

#[test]
fn rule_birth_values() {
    // A dead cell becomes live with exactly 3 neighbors, and only then.
    assert_eq!(next_cell_value(0, 3), 1);
    assert_eq!(next_cell_value(0, 0), 0);
    assert_eq!(next_cell_value(0, 2), 0);
    assert_eq!(next_cell_value(0, 4), 0);
    assert_eq!(next_cell_value(0, 8), 0);
}
