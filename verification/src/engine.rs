//! The simulation engine.
//!
//! A [`Game`] holds the current grid and the fixed 3x3 neighborhood kernel.
//! Each call to [`Game::update`] advances every channel one generation
//! synchronously: neighbor counts are computed for the whole current grid
//! first (a convolution of each channel against the kernel, zero-padded at
//! the boundary), and only then is every cell rewritten by the update rule.
//! No cell ever reads an already-updated neighbor.

use vstd::prelude::*;

verus! {

use crate::grid::Grid;
use crate::grid::GridModel;
use crate::grid::InvalidDimension;
use crate::grid::lemma_cell_or_zero_bounds;
use crate::grid::lemma_index_decode;
use crate::grid::lemma_index_in_range;
use crate::grid::lemma_neighbor_count_bounds;
use crate::init::init_model;
use crate::init::random_binary_state;
use crate::rng::Rng;
use crate::rules::next_cell;
use crate::rules::next_cell_value;

/// Weight of the 3x3 neighborhood kernel at flat position `k` (row-major):
/// 1 everywhere except the center, which is 0 so that a cell does not
/// count itself as a neighbor.
pub open spec fn kernel_weight(k: int) -> int {
    if k == 4 {
        0
    } else {
        1
    }
}

/// A buffer holds the neighborhood kernel when it has exactly the nine
/// weights in row-major order.
pub open spec fn kernel_wf(s: Seq<u8>) -> bool {
    s.len() == 9 && forall|k: int| 0 <= k < 9 ==> s[k] as int == kernel_weight(k)
}

/// The convolution sum at `(channel, row, col)` restricted to the first
/// `k` of the nine kernel positions.
pub open spec fn partial_neighbor_count(
    m: GridModel,
    channel: int,
    row: int,
    col: int,
    k: int,
) -> int
    decreases k,
{
    if k <= 0 {
        0
    } else {
        partial_neighbor_count(m, channel, row, col, k - 1) + kernel_weight(k - 1)
            * m.cell_or_zero(channel, row + (k - 1) / 3 - 1, col + (k - 1) % 3 - 1)
    }
}

/// The full convolution sum at a cell is exactly its neighbor count: the
/// zero center weight drops the cell itself, and the eight unit weights
/// pick up the eight adjacent positions.
pub proof fn lemma_convolution_is_neighbor_count(m: GridModel, channel: int, row: int, col: int)
    ensures
        partial_neighbor_count(m, channel, row, col, 9) == m.neighbor_count(channel, row, col),
{
    reveal_with_fuel(partial_neighbor_count, 10);
}

/// One synchronous generation: every cell of the next grid is the update
/// rule applied to that cell's current state and current neighbor count.
/// Dimensions do not change.
pub open spec fn step_model(m: GridModel) -> GridModel {
    GridModel {
        height: m.height,
        width: m.width,
        channels: m.channels,
        cells: Seq::new(
            m.cells.len(),
            |k: int|
                next_cell(
                    m.cells[k] as int,
                    m.neighbor_count(m.channel_of(k), m.row_of(k), m.col_of(k)),
                ) as u8,
        ),
    }
}

/// The grid after `n` generations.
pub open spec fn step_n(m: GridModel, n: nat) -> GridModel
    decreases n,
{
    if n == 0 {
        m
    } else {
        step_model(step_n(m, (n - 1) as nat))
    }
}

/// The simulation engine: the current grid and the fixed neighborhood
/// kernel.  There is no halting state; the owner decides when to stop
/// calling `update`.
pub struct Game {
    pub neighborhood_kernel: Vec<u8>,
    pub state: Grid,
}

impl View for Game {
    type V = GridModel;

    open spec fn view(&self) -> GridModel {
        self.state@
    }
}

impl Game {
    /// The engine invariant: a well-formed grid and the fixed kernel.
    pub open spec fn wf(self) -> bool {
        self.state@.wf() && kernel_wf(self.neighborhood_kernel@)
    }

    /// Creates an engine in the ready state: the initializer draws the
    /// first grid from `rng`.  Fails with [`InvalidDimension`] exactly
    /// when `height`, `width` or `channels` is 0.
    pub fn new(height: usize, width: usize, channels: usize, rng: Rng) -> (result: Result<
        Game,
        InvalidDimension,
    >)
        requires
            height * width * channels <= usize::MAX,
        ensures
            result is Ok <==> (height >= 1 && width >= 1 && channels >= 1),
            result is Ok ==> (result->Ok_0).wf(),
            result is Ok ==> (result->Ok_0)@ == init_model(
                height as int,
                width as int,
                channels as int,
                rng@,
            ),
    {
        let mut source: Rng = rng;
        match random_binary_state(height, width, channels, &mut source) {
            Ok(state) => Ok(
                Game { neighborhood_kernel: Game::build_3x3_neighborhood_size_kernel(), state },
            ),
            Err(e) => Err(e),
        }
    }

    /// Wraps an existing grid as the engine's current state; used to start
    /// from a chosen pattern rather than a random one.
    pub fn from_state(state: Grid) -> (game: Game)
        requires
            state@.wf(),
        ensures
            game.wf(),
            game@ == state@,
    {
        Game { neighborhood_kernel: Game::build_3x3_neighborhood_size_kernel(), state }
    }

    /// The current grid, read-only.
    pub fn state(&self) -> (state: &Grid)
        ensures
            state@ == self@,
    {
        &self.state
    }

    /// Builds the 3x3 kernel that measures the size of a cell's
    /// neighborhood: unit weights all around, zero at the center.
    pub fn build_3x3_neighborhood_size_kernel() -> (kernel: Vec<u8>)
        ensures
            kernel_wf(kernel@),
    {
        let mut kernel: Vec<u8> = Vec::new();
        kernel.push(1u8);
        kernel.push(1u8);
        kernel.push(1u8);
        kernel.push(1u8);
        kernel.push(0u8);
        kernel.push(1u8);
        kernel.push(1u8);
        kernel.push(1u8);
        kernel.push(1u8);
        kernel
    }

    /// Neighbor count of one cell: the convolution of the kernel with the
    /// grid around `(channel, row, col)`, zero-padded at the boundary.
    pub fn neighborhood_at(&self, channel: usize, row: usize, col: usize) -> (count: u8)
        requires
            self.wf(),
            (channel as int) < self@.channels,
            (row as int) < self@.height,
            (col as int) < self@.width,
        ensures
            count as int == self@.neighbor_count(channel as int, row as int, col as int),
            count <= 8,
    {
        let mut count: u8 = 0;
        let mut k: usize = 0;
        while k < 9
            invariant
                self.wf(),
                (channel as int) < self@.channels,
                (row as int) < self@.height,
                (col as int) < self@.width,
                k <= 9,
                count as int == partial_neighbor_count(
                    self@,
                    channel as int,
                    row as int,
                    col as int,
                    k as int,
                ),
                count <= k,
            decreases 9 - k,
        {
            let weight: u8 = self.neighborhood_kernel[k];
            let di: usize = k / 3;
            let dj: usize = k % 3;
            let mut value: u8 = 0;
            if (row > 0 || di > 0) && (col > 0 || dj > 0) {
                let r2: usize = if di == 0 {
                    row - 1
                } else {
                    row + (di - 1)
                };
                let c2: usize = if dj == 0 {
                    col - 1
                } else {
                    col + (dj - 1)
                };
                if r2 < self.state.height && c2 < self.state.width {
                    let idx: usize = self.state.index_at(channel, r2, c2);
                    value = self.state.cells[idx];
                }
            }
            proof {
                lemma_cell_or_zero_bounds(
                    self@,
                    channel as int,
                    row as int + (k as int) / 3 - 1,
                    col as int + (k as int) % 3 - 1,
                );
                assert(value as int == self@.cell_or_zero(
                    channel as int,
                    row as int + (k as int) / 3 - 1,
                    col as int + (k as int) % 3 - 1,
                ));
                assert(partial_neighbor_count(
                    self@,
                    channel as int,
                    row as int,
                    col as int,
                    k as int + 1,
                ) == partial_neighbor_count(self@, channel as int, row as int, col as int, k as int)
                    + kernel_weight(k as int) * self@.cell_or_zero(
                    channel as int,
                    row as int + (k as int) / 3 - 1,
                    col as int + (k as int) % 3 - 1,
                ));
            }
            count = count + weight * value;
            k += 1;
        }
        proof {
            lemma_convolution_is_neighbor_count(self@, channel as int, row as int, col as int);
            lemma_neighbor_count_bounds(self@, channel as int, row as int, col as int);
        }
        count
    }

    /// Computes the neighbor count of every cell of every channel, as a
    /// buffer parallel to the grid's own: entry `k` is the neighbor count
    /// of the cell stored at flat position `k`.
    pub fn calculate_neighborhood_size(&self) -> (counts: Vec<u8>)
        requires
            self.wf(),
        ensures
            counts@.len() == self@.cells.len(),
            forall|k: int|
                0 <= k < counts@.len() ==> counts@[k] as int == self@.neighbor_count(
                    self@.channel_of(k),
                    self@.row_of(k),
                    self@.col_of(k),
                ) && counts@[k] <= 8,
    {
        let mut counts: Vec<u8> = Vec::new();
        let mut channel: usize = 0;
        while channel < self.state.channels
            invariant
                self.wf(),
                channel <= self@.channels,
                counts@.len() == channel * (self@.height * self@.width),
                forall|k: int|
                    0 <= k < counts@.len() ==> counts@[k] as int == self@.neighbor_count(
                        self@.channel_of(k),
                        self@.row_of(k),
                        self@.col_of(k),
                    ) && counts@[k] <= 8,
            decreases self@.channels - channel,
        {
            let mut row: usize = 0;
            while row < self.state.height
                invariant
                    self.wf(),
                    (channel as int) < self@.channels,
                    row <= self@.height,
                    counts@.len() == channel * (self@.height * self@.width) + row * self@.width,
                    forall|k: int|
                        0 <= k < counts@.len() ==> counts@[k] as int == self@.neighbor_count(
                            self@.channel_of(k),
                            self@.row_of(k),
                            self@.col_of(k),
                        ) && counts@[k] <= 8,
                decreases self@.height - row,
            {
                let mut col: usize = 0;
                while col < self.state.width
                    invariant
                        self.wf(),
                        (channel as int) < self@.channels,
                        (row as int) < self@.height,
                        col <= self@.width,
                        counts@.len() == channel * (self@.height * self@.width) + row * self@.width
                            + col,
                        forall|k: int|
                            0 <= k < counts@.len() ==> counts@[k] as int == self@.neighbor_count(
                                self@.channel_of(k),
                                self@.row_of(k),
                                self@.col_of(k),
                            ) && counts@[k] <= 8,
                    decreases self@.width - col,
                {
                    let count: u8 = self.neighborhood_at(channel, row, col);
                    proof {
                        lemma_index_in_range(self@, channel as int, row as int, col as int);
                        lemma_index_decode(self@, channel as int, row as int, col as int);
                    }
                    counts.push(count);
                    col += 1;
                }
                proof {
                    assert(channel * (self@.height * self@.width) + (row + 1) * self@.width
                        == channel * (self@.height * self@.width) + row * self@.width
                        + self@.width) by (nonlinear_arith);
                }
                row += 1;
            }
            proof {
                assert((channel + 1) * (self@.height * self@.width) == channel * (self@.height
                    * self@.width) + self@.height * self@.width) by (nonlinear_arith);
            }
            channel += 1;
        }
        proof {
            assert(self@.channels * (self@.height * self@.width) == self@.height * self@.width
                * self@.channels) by (nonlinear_arith);
        }
        counts
    }

    /// Advances the automaton one generation, every channel independently
    /// and all cells synchronously: the whole grid of neighbor counts is
    /// read before any cell is rewritten.  Dimensions never change; the
    /// new grid can be read through [`Game::state`].
    pub fn update(&mut self)
        requires
            old(self).wf(),
        ensures
            final(self).wf(),
            final(self)@ == step_model(old(self)@),
            final(self)@.height == old(self)@.height,
            final(self)@.width == old(self)@.width,
            final(self)@.channels == old(self)@.channels,
    {
        let counts: Vec<u8> = self.calculate_neighborhood_size();
        let total: usize = self.state.cells.len();
        let mut next_cells: Vec<u8> = Vec::new();
        let mut k: usize = 0;
        while k < total
            invariant
                self.wf(),
                total == self@.cells.len(),
                counts@.len() == self@.cells.len(),
                forall|j: int|
                    0 <= j < counts@.len() ==> counts@[j] as int == self@.neighbor_count(
                        self@.channel_of(j),
                        self@.row_of(j),
                        self@.col_of(j),
                    ) && counts@[j] <= 8,
                k <= total,
                next_cells@.len() == k,
                forall|j: int| 0 <= j < k ==> next_cells@[j] == step_model(self@).cells[j],
                forall|j: int| 0 <= j < k ==> next_cells@[j] <= 1,
            decreases total - k,
        {
            let cur: u8 = self.state.cells[k];
            let n: u8 = counts[k];
            let next: u8 = next_cell_value(cur, n);
            next_cells.push(next);
            k += 1;
        }
        self.state.cells = next_cells;
        proof {
            assert(self@ =~= step_model(old(self)@));
        }
    }
}

} // verus!
