//! The initializer: a pseudo-random binary initial state.
//!
//! One independent uniform value is drawn per cell from a supplied random
//! source and binarized: a cell starts live exactly when its draw lies
//! above one half.  Because every draw is a pure function of the seed and
//! of the cell's position, the initial state is a pure function of the
//! dimensions and the seed.

use vstd::prelude::*;

verus! {

use crate::grid::Grid;
use crate::grid::GridModel;
use crate::grid::InvalidDimension;
use crate::grid::lemma_flat_index_in_range;
use crate::rng::Rng;
use crate::rng::rng_after;
use crate::rng::rng_next;

/// Binarization threshold: a draw `x` stands for the uniform value
/// `x / 2^64` in `[0, 1)`, and that value is above one half exactly when
/// `x` is above `2^63`.
pub const BINARIZE_THRESHOLD: u64 = 0x8000_0000_0000_0000;

/// 1 when the draw stands for a uniform value above one half, else 0.
pub open spec fn binarize(draw: u64) -> u8 {
    if draw > BINARIZE_THRESHOLD {
        1
    } else {
        0
    }
}

/// The cell at flat position `k` of the initial state: the binarized
/// `k + 1`-th draw of the stream seeded with `seed`.
pub open spec fn init_cell(seed: u64, k: int) -> u8 {
    binarize(rng_after(seed, (k + 1) as nat))
}

/// The initial grid drawn from `seed`: one draw per cell, in flat buffer
/// order, each binarized.
pub open spec fn init_model(height: int, width: int, channels: int, seed: u64) -> GridModel {
    GridModel {
        height,
        width,
        channels,
        cells: Seq::new((height * width * channels) as nat, |k: int| init_cell(seed, k)),
    }
}

/// Draws one uniform value per cell from `rng` and binarizes it.  Fails
/// exactly when a dimension is 0, in which case `rng` is not advanced; on
/// success `rng` has advanced once per cell.
pub fn random_binary_state(height: usize, width: usize, channels: usize, rng: &mut Rng) -> (result:
    Result<Grid, InvalidDimension>)
    requires
        height * width * channels <= usize::MAX,
    ensures
        result is Ok <==> (height >= 1 && width >= 1 && channels >= 1),
        result is Ok ==> (result->Ok_0)@.wf(),
        result is Ok ==> (result->Ok_0)@ == init_model(
            height as int,
            width as int,
            channels as int,
            old(rng)@,
        ),
        result is Ok ==> final(rng)@ == rng_after(
            old(rng)@,
            (height * width * channels) as nat,
        ),
        result is Err ==> final(rng)@ == old(rng)@,
    {
        if height == 0 || width == 0 || channels == 0 {
            return Err(InvalidDimension);
        }
        proof {
            lemma_flat_index_in_range(height as int, width as int, channels as int, 0, 0, 0);
        }
        let hw: usize = height * width;
        let total: usize = hw * channels;
        let ghost seed: u64 = rng@;
        let mut cells: Vec<u8> = Vec::new();
        let mut i: usize = 0;
        while i < total
            invariant
                i <= total,
                cells@.len() == i,
                rng@ == rng_after(seed, i as nat),
                forall|j: int| 0 <= j < i ==> cells@[j] == init_cell(seed, j),
            decreases total - i,
        {
            let draw: u64 = rng.next_u64();
            proof {
                assert(rng_after(seed, (i + 1) as nat) == rng_next(rng_after(seed, i as nat)));
            }
            if draw > BINARIZE_THRESHOLD {
                cells.push(1u8);
            } else {
                cells.push(0u8);
            }
            i += 1;
        }
        let state = Grid { height, width, channels, cells };
        proof {
            assert(state@ =~= init_model(height as int, width as int, channels as int, seed));
        }
        Ok(state)
    }

} // verus!
