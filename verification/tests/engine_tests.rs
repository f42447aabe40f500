use conway::engine::Game;
use conway::grid::Grid;
use conway::grid::InvalidDimension;
use conway::rng::Rng;

/// Builds a single-channel-or-more grid with the given live cells.
fn grid_with(height: usize, width: usize, channels: usize, live: &[(usize, usize, usize)]) -> Grid {
    let mut grid = Grid::create(height, width, channels).unwrap();
    for &(channel, row, col) in live {
        grid.set_cell(channel, row, col, 1);
    }
    grid
}

/// One channel's cells, row-major, with the given live positions.
fn pattern(height: usize, width: usize, live: &[(usize, usize)]) -> Vec<u8> {
    let mut cells = vec![0u8; height * width];
    for &(row, col) in live {
        cells[row * width + col] = 1;
    }
    cells
}

#[test]
fn invalid_construction() {
    let rng = Rng::new(1);
    assert!(matches!(Game::new(0, 8, 3, rng), Err(InvalidDimension)));
    let rng = Rng::new(1);
    assert!(matches!(Game::new(8, 0, 3, rng), Err(InvalidDimension)));
    let rng = Rng::new(1);
    assert!(matches!(Game::new(8, 8, 0, rng), Err(InvalidDimension)));
    let rng = Rng::new(1);
    assert!(Game::new(8, 8, 3, rng).is_ok());
}

#[test]
fn invalid_grid_creation() {
    assert!(matches!(Grid::create(0, 4, 1), Err(InvalidDimension)));
    assert!(matches!(Grid::create(4, 0, 1), Err(InvalidDimension)));
    assert!(matches!(Grid::create(4, 4, 0), Err(InvalidDimension)));
    assert!(Grid::create(4, 4, 1).is_ok());
}

#[test]
fn dimension_preservation() {
    let rng = Rng::new(99);
    let mut game = Game::new(5, 7, 2, rng).unwrap();
    for _ in 0..3 {
        game.update();
        let state = game.state();
        assert_eq!(state.height, 5);
        assert_eq!(state.width, 7);
        assert_eq!(state.channels, 2);
        assert_eq!(state.cells.len(), 5 * 7 * 2);
    }
}

#[test]
fn determinism_same_seed() {
    let mut game_a = Game::new(8, 8, 3, Rng::new(12345)).unwrap();
    let mut game_b = Game::new(8, 8, 3, Rng::new(12345)).unwrap();
    assert_eq!(game_a.state().cells, game_b.state().cells);
    for _ in 0..5 {
        game_a.update();
        game_b.update();
        assert_eq!(game_a.state().cells, game_b.state().cells);
    }
}

#[test]
fn corner_cell_neighbor_counts() {
    // A single live cell in the top-left corner: its three in-grid
    // neighbors each count exactly 1, the corner itself counts 0, and no
    // count wraps around to the far edges.
    let game = Game::from_state(grid_with(4, 4, 1, &[(0, 0, 0)]));
    let counts = game.calculate_neighborhood_size();
    let at = |row: usize, col: usize| counts[row * 4 + col];
    assert_eq!(at(0, 1), 1);
    assert_eq!(at(1, 0), 1);
    assert_eq!(at(1, 1), 1);
    assert_eq!(at(0, 0), 0);
    assert_eq!(at(0, 3), 0);
    assert_eq!(at(3, 0), 0);
    assert_eq!(at(3, 3), 0);
    assert_eq!(at(2, 2), 0);
}

#[test]
fn center_cell_neighbor_counts() {
    // A single live cell at the center of a 5x5 grid: the center's own
    // count is 0 (the kernel's center weight is zero), each of the 8
    // surrounding cells counts exactly 1.
    let game = Game::from_state(grid_with(5, 5, 1, &[(0, 2, 2)]));
    let counts = game.calculate_neighborhood_size();
    let at = |row: usize, col: usize| counts[row * 5 + col];
    assert_eq!(at(2, 2), 0);
    for row in 1..=3 {
        for col in 1..=3 {
            if row != 2 || col != 2 {
                assert_eq!(at(row, col), 1, "at ({}, {})", row, col);
            }
        }
    }
    assert_eq!(at(0, 0), 0);
    assert_eq!(at(4, 4), 0);
}

#[test]
fn block_still_life() {
    // A 2x2 block far from the boundary never changes.
    let block = &[(0, 2, 2), (0, 2, 3), (0, 3, 2), (0, 3, 3)];
    let expected = pattern(6, 6, &[(2, 2), (2, 3), (3, 2), (3, 3)]);
    let mut game = Game::from_state(grid_with(6, 6, 1, block));
    for generation in 0..5 {
        game.update();
        assert_eq!(game.state().slice_channel(0), expected, "generation {}", generation);
    }
}

#[test]
fn blinker_oscillates() {
    // A horizontal three-cell line alternates between the horizontal and
    // the vertical orientation with period 2.
    let horizontal = pattern(5, 5, &[(2, 1), (2, 2), (2, 3)]);
    let vertical = pattern(5, 5, &[(1, 2), (2, 2), (3, 2)]);
    let mut game = Game::from_state(grid_with(5, 5, 1, &[(0, 2, 1), (0, 2, 2), (0, 2, 3)]));
    for generation in 0..4 {
        game.update();
        let expected = if generation % 2 == 0 { &vertical } else { &horizontal };
        assert_eq!(game.state().slice_channel(0), *expected, "generation {}", generation);
    }
}

#[test]
fn channel_independence() {
    // Channel 0 seeded as a blinker, channels 1 and 2 all dead: the dead
    // channels stay dead forever while channel 0 oscillates.
    let mut game = Game::from_state(grid_with(5, 5, 3, &[(0, 2, 1), (0, 2, 2), (0, 2, 3)]));
    let horizontal = pattern(5, 5, &[(2, 1), (2, 2), (2, 3)]);
    let vertical = pattern(5, 5, &[(1, 2), (2, 2), (3, 2)]);
    let dead = pattern(5, 5, &[]);
    for generation in 0..4 {
        game.update();
        let expected = if generation % 2 == 0 { &vertical } else { &horizontal };
        assert_eq!(game.state().slice_channel(0), *expected, "generation {}", generation);
        assert_eq!(game.state().slice_channel(1), dead, "generation {}", generation);
        assert_eq!(game.state().slice_channel(2), dead, "generation {}", generation);
    }
}

#[test]
fn lone_cell_dies() {
    let mut game = Game::from_state(grid_with(3, 3, 1, &[(0, 1, 1)]));
    game.update();
    assert_eq!(game.state().slice_channel(0), pattern(3, 3, &[]));
}

#[test]
fn tromino_becomes_block() {
    // An L-shaped tromino fills in to a 2x2 block in one generation.
    let mut game = Game::from_state(grid_with(4, 4, 1, &[(0, 1, 1), (0, 1, 2), (0, 2, 1)]));
    game.update();
    assert_eq!(
        game.state().slice_channel(0),
        pattern(4, 4, &[(1, 1), (1, 2), (2, 1), (2, 2)])
    );
}

#[test]
fn kernel_weights() {
    let kernel = Game::build_3x3_neighborhood_size_kernel();
    assert_eq!(kernel, vec![1u8, 1, 1, 1, 0, 1, 1, 1, 1]);
}

#[test]
fn grid_cell_access() {
    let mut grid = Grid::create(3, 4, 2).unwrap();
    assert_eq!(grid.get_cell(1, 2, 3), 0);
    grid.set_cell(1, 2, 3, 1);
    assert_eq!(grid.get_cell(1, 2, 3), 1);
    assert_eq!(grid.get_cell(0, 2, 3), 0);
    grid.set_cell(1, 2, 3, 0);
    assert_eq!(grid.get_cell(1, 2, 3), 0);
}

#[test]
fn slice_channel_contents() {
    let grid = grid_with(2, 3, 2, &[(0, 0, 1), (1, 1, 2)]);
    assert_eq!(grid.slice_channel(0), vec![0u8, 1, 0, 0, 0, 0]);
    assert_eq!(grid.slice_channel(1), vec![0u8, 0, 0, 0, 0, 1]);
}
