use conway::init::random_binary_state;
use conway::rng::Rng;
use conway::rng::RNG_INCREMENT;
use conway::rng::RNG_MULTIPLIER;

#[test]
fn rng_is_a_linear_congruential_stream() {
    let mut rng = Rng::new(1);
    let expected_first: u64 = 1u64.wrapping_mul(RNG_MULTIPLIER).wrapping_add(RNG_INCREMENT);
    let first = rng.next_u64();
    assert_eq!(first, expected_first);
    let expected_second: u64 =
        expected_first.wrapping_mul(RNG_MULTIPLIER).wrapping_add(RNG_INCREMENT);
    assert_eq!(rng.next_u64(), expected_second);
}

#[test]
fn rng_same_seed_same_stream() {
    let mut rng_a = Rng::new(777);
    let mut rng_b = Rng::new(777);
    for _ in 0..10 {
        assert_eq!(rng_a.next_u64(), rng_b.next_u64());
    }
}

#[test]
fn initial_state_is_binary() {
    let mut rng = Rng::new(2024);
    let grid = random_binary_state(16, 16, 3, &mut rng).unwrap();
    assert_eq!(grid.cells.len(), 16 * 16 * 3);
    for &cell in grid.cells.iter() {
        assert!(cell <= 1);
    }
    // A 768-cell uniform draw is all-dead or all-live only with negligible
    // probability; both values must occur for this seed.
    assert!(grid.cells.iter().any(|&cell| cell == 0));
    assert!(grid.cells.iter().any(|&cell| cell == 1));
}

#[test]
fn initial_state_matches_binarized_draws() {
    let mut rng = Rng::new(5);
    let grid = random_binary_state(4, 4, 1, &mut rng).unwrap();
    let mut check = Rng::new(5);
    for k in 0..16 {
        let draw = check.next_u64();
        let expected = if draw > 0x8000_0000_0000_0000 { 1u8 } else { 0u8 };
        assert_eq!(grid.cells[k], expected, "cell {}", k);
    }
}

#[test]
fn initial_state_deterministic() {
    let mut rng_a = Rng::new(31415);
    let mut rng_b = Rng::new(31415);
    let grid_a = random_binary_state(8, 8, 3, &mut rng_a).unwrap();
    let grid_b = random_binary_state(8, 8, 3, &mut rng_b).unwrap();
    assert_eq!(grid_a.cells, grid_b.cells);
}

#[test]
fn initial_state_invalid_dimensions() {
    let mut rng = Rng::new(1);
    assert!(random_binary_state(0, 8, 3, &mut rng).is_err());
    assert!(random_binary_state(8, 0, 3, &mut rng).is_err());
    assert!(random_binary_state(8, 8, 0, &mut rng).is_err());
}
