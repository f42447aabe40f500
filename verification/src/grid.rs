//! The grid buffer: a dense rectangular array of binary cells with an
//! independent channel dimension.
//!
//! A grid has fixed height `H`, width `W` and channel count `C`, all at
//! least 1.  Cells are stored in one contiguous buffer, channel-planar:
//! the cell at channel `ch`, row `row`, column `col` lives at index
//! `ch * (H * W) + row * W + col`.  Every cell value is 0 (dead) or 1
//! (live).  The mathematical model of a grid is [`GridModel`]; the
//! neighbor-count and boundary (zero-padding) semantics are defined here as
//! spec functions over that model.

use vstd::prelude::*;

verus! {

use vstd::arithmetic::div_mod::lemma_fundamental_div_mod;
use vstd::arithmetic::div_mod::lemma_fundamental_div_mod_converse;
use vstd::arithmetic::div_mod::lemma_mod_pos_bound;

/// The only construction error: a height, width or channel count of 0.
#[derive(Clone, Copy, Debug, PartialEq, Eq, Structural)]
pub struct InvalidDimension;

/// Mathematical model of a grid: its three dimensions and the flat
/// sequence of cell values.
#[verifier::ext_equal]
pub ghost struct GridModel {
    pub height: int,
    pub width: int,
    pub channels: int,
    pub cells: Seq<u8>,
}

impl GridModel {
    /// Well-formedness: all dimensions at least 1, the buffer holds exactly
    /// one value per cell, and every value is 0 or 1.
    pub open spec fn wf(self) -> bool {
        &&& self.height >= 1
        &&& self.width >= 1
        &&& self.channels >= 1
        &&& self.cells.len() == self.height * self.width * self.channels
        &&& forall|k: int| 0 <= k < self.cells.len() ==> self.cells[k] <= 1
    }

    /// Position of the cell at `(channel, row, col)` in the flat buffer.
    pub open spec fn index_of(self, channel: int, row: int, col: int) -> int {
        channel * (self.height * self.width) + row * self.width + col
    }

    /// Channel of the cell stored at flat position `k`.
    pub open spec fn channel_of(self, k: int) -> int {
        k / (self.height * self.width)
    }

    /// Row of the cell stored at flat position `k`.
    pub open spec fn row_of(self, k: int) -> int {
        (k % (self.height * self.width)) / self.width
    }

    /// Column of the cell stored at flat position `k`.
    pub open spec fn col_of(self, k: int) -> int {
        (k % (self.height * self.width)) % self.width
    }

    /// Value of the cell at `(channel, row, col)`.
    pub open spec fn cell(self, channel: int, row: int, col: int) -> int {
        self.cells[self.index_of(channel, row, col)] as int
    }

    /// Value of the cell at `(channel, row, col)`, where positions outside
    /// the grid count as dead.  This is the zero-padding boundary rule: a
    /// neighbor that falls off the grid contributes 0, with no wraparound.
    pub open spec fn cell_or_zero(self, channel: int, row: int, col: int) -> int {
        if 0 <= row < self.height && 0 <= col < self.width {
            self.cell(channel, row, col)
        } else {
            0
        }
    }

    /// Number of live cells among the 8 orthogonally and diagonally
    /// adjacent positions, with zero padding outside the grid.
    pub open spec fn neighbor_count(self, channel: int, row: int, col: int) -> int {
        self.cell_or_zero(channel, row - 1, col - 1) + self.cell_or_zero(channel, row - 1, col)
            + self.cell_or_zero(channel, row - 1, col + 1) + self.cell_or_zero(
            channel,
            row,
            col - 1,
        ) + self.cell_or_zero(channel, row, col + 1) + self.cell_or_zero(
            channel,
            row + 1,
            col - 1,
        ) + self.cell_or_zero(channel, row + 1, col) + self.cell_or_zero(channel, row + 1, col + 1)
    }

    /// The sub-sequence of cells that make up one channel.
    pub open spec fn channel_slice(self, channel: int) -> Seq<u8> {
        self.cells.subrange(
            channel * (self.height * self.width),
            (channel + 1) * (self.height * self.width),
        )
    }
}

/// Arithmetic bounds of the flat index: for in-range coordinates the index
/// lands inside the buffer, and every partial sum of the index expression
/// is nonnegative.
pub proof fn lemma_flat_index_in_range(
    h: int,
    w: int,
    c: int,
    channel: int,
    row: int,
    col: int,
) by (nonlinear_arith)
    requires
        1 <= h,
        1 <= w,
        1 <= c,
        0 <= channel < c,
        0 <= row < h,
        0 <= col < w,
    ensures
        0 <= channel * (h * w),
        0 <= row * w,
        channel * (h * w) + row * w + col < h * w * c,
        h * w <= h * w * c,
{
}

/// The flat index of in-range coordinates lies inside the cell buffer.
pub proof fn lemma_index_in_range(m: GridModel, channel: int, row: int, col: int)
    requires
        m.wf(),
        0 <= channel < m.channels,
        0 <= row < m.height,
        0 <= col < m.width,
    ensures
        0 <= m.index_of(channel, row, col) < m.cells.len(),
        0 <= channel * (m.height * m.width),
        0 <= row * m.width,
        m.height * m.width <= m.cells.len(),
{
    lemma_flat_index_in_range(m.height, m.width, m.channels, channel, row, col);
}

/// Decoding the flat index of in-range coordinates gives those coordinates
/// back.
pub proof fn lemma_index_decode(m: GridModel, channel: int, row: int, col: int)
    requires
        m.wf(),
        0 <= channel < m.channels,
        0 <= row < m.height,
        0 <= col < m.width,
    ensures
        m.channel_of(m.index_of(channel, row, col)) == channel,
        m.row_of(m.index_of(channel, row, col)) == row,
        m.col_of(m.index_of(channel, row, col)) == col,
{
    let hw: int = m.height * m.width;
    let rest: int = row * m.width + col;
    let k: int = m.index_of(channel, row, col);
    assert(1 <= hw && 0 <= rest < hw) by (nonlinear_arith)
        requires
            1 <= m.height,
            1 <= m.width,
            0 <= row < m.height,
            0 <= col < m.width,
            hw == m.height * m.width,
            rest == row * m.width + col,
    ;
    lemma_fundamental_div_mod_converse(k, hw, channel, rest);
    lemma_fundamental_div_mod_converse(rest, m.width, row, col);
}

/// Every flat position of the buffer decodes to in-range coordinates, and
/// re-encoding them gives the position back.
pub proof fn lemma_decode_in_range(m: GridModel, k: int)
    requires
        m.wf(),
        0 <= k < m.cells.len(),
    ensures
        0 <= m.channel_of(k) < m.channels,
        0 <= m.row_of(k) < m.height,
        0 <= m.col_of(k) < m.width,
        m.index_of(m.channel_of(k), m.row_of(k), m.col_of(k)) == k,
{
    let hw: int = m.height * m.width;
    assert(1 <= hw) by (nonlinear_arith)
        requires
            1 <= m.height,
            1 <= m.width,
            hw == m.height * m.width,
    ;
    lemma_fundamental_div_mod(k, hw);
    lemma_mod_pos_bound(k, hw);
    let t: int = k % hw;
    lemma_fundamental_div_mod(t, m.width);
    lemma_mod_pos_bound(t, m.width);
    assert(0 <= k / hw < m.channels) by (nonlinear_arith)
        requires
            1 <= hw,
            0 <= k,
            k < hw * m.channels,
            k == hw * (k / hw) + k % hw,
            0 <= k % hw < hw,
    ;
    assert(0 <= t / m.width < m.height) by (nonlinear_arith)
        requires
            1 <= m.width,
            0 <= t < m.height * m.width,
            t == m.width * (t / m.width) + t % m.width,
            0 <= t % m.width < m.width,
    ;
    assert(m.index_of(m.channel_of(k), m.row_of(k), m.col_of(k)) == k) by (nonlinear_arith)
        requires
            m.index_of(m.channel_of(k), m.row_of(k), m.col_of(k)) == m.channel_of(k) * hw
                + m.row_of(k) * m.width + m.col_of(k),
            hw == m.height * m.width,
            m.channel_of(k) == k / hw,
            m.row_of(k) == t / m.width,
            m.col_of(k) == t % m.width,
            t == k % hw,
            k == hw * (k / hw) + k % hw,
            t == m.width * (t / m.width) + t % m.width,
    ;
}

/// The cells of one channel occupy a contiguous block of the buffer.
pub proof fn lemma_channel_bounds(m: GridModel, channel: int)
    requires
        m.wf(),
        0 <= channel < m.channels,
    ensures
        0 <= channel * (m.height * m.width),
        channel * (m.height * m.width) + m.height * m.width <= m.cells.len(),
        (channel + 1) * (m.height * m.width) == channel * (m.height * m.width) + m.height
            * m.width,
        m.height * m.width <= m.cells.len(),
{
    assert(0 <= channel * (m.height * m.width) && channel * (m.height * m.width) + m.height
        * m.width <= m.height * m.width * m.channels && (channel + 1) * (m.height * m.width)
        == channel * (m.height * m.width) + m.height * m.width && m.height * m.width <= m.height
        * m.width * m.channels) by (nonlinear_arith)
        requires
            1 <= m.height,
            1 <= m.width,
            1 <= m.channels,
            0 <= channel < m.channels,
    ;
}

/// A padded cell read is 0 or 1.
pub proof fn lemma_cell_or_zero_bounds(m: GridModel, channel: int, row: int, col: int)
    requires
        m.wf(),
        0 <= channel < m.channels,
    ensures
        0 <= m.cell_or_zero(channel, row, col) <= 1,
{
    if 0 <= row < m.height && 0 <= col < m.width {
        lemma_index_in_range(m, channel, row, col);
    }
}

/// A neighbor count is an integer between 0 and 8.
pub proof fn lemma_neighbor_count_bounds(m: GridModel, channel: int, row: int, col: int)
    requires
        m.wf(),
        0 <= channel < m.channels,
    ensures
        0 <= m.neighbor_count(channel, row, col) <= 8,
{
    lemma_cell_or_zero_bounds(m, channel, row - 1, col - 1);
    lemma_cell_or_zero_bounds(m, channel, row - 1, col);
    lemma_cell_or_zero_bounds(m, channel, row - 1, col + 1);
    lemma_cell_or_zero_bounds(m, channel, row, col - 1);
    lemma_cell_or_zero_bounds(m, channel, row, col + 1);
    lemma_cell_or_zero_bounds(m, channel, row + 1, col - 1);
    lemma_cell_or_zero_bounds(m, channel, row + 1, col);
    lemma_cell_or_zero_bounds(m, channel, row + 1, col + 1);
}

/// A dense rectangular buffer of binary cells.
pub struct Grid {
    pub height: usize,
    pub width: usize,
    pub channels: usize,
    pub cells: Vec<u8>,
}

impl View for Grid {
    type V = GridModel;

    open spec fn view(&self) -> GridModel {
        GridModel {
            height: self.height as int,
            width: self.width as int,
            channels: self.channels as int,
            cells: self.cells@,
        }
    }
}

impl Grid {
    /// Allocates a grid of `height * width * channels` cells, all dead.
    /// Fails exactly when one of the dimensions is 0.
    pub fn create(height: usize, width: usize, channels: usize) -> (result: Result<
        Grid,
        InvalidDimension,
    >)
        requires
            height * width * channels <= usize::MAX,
        ensures
            result is Ok <==> (height >= 1 && width >= 1 && channels >= 1),
            result is Ok ==> (result->Ok_0)@.wf(),
            result is Ok ==> (result->Ok_0)@.height == height && (result->Ok_0)@.width == width
                && (result->Ok_0)@.channels == channels,
            result is Ok ==> forall|k: int|
                0 <= k < (result->Ok_0)@.cells.len() ==> (result->Ok_0)@.cells[k] == 0,
    {
        if height == 0 || width == 0 || channels == 0 {
            return Err(InvalidDimension);
        }
        proof {
            lemma_flat_index_in_range(
                height as int,
                width as int,
                channels as int,
                0,
                0,
                0,
            );
        }
        let hw: usize = height * width;
        let total: usize = hw * channels;
        let mut cells: Vec<u8> = Vec::new();
        let mut i: usize = 0;
        while i < total
            invariant
                i <= total,
                cells@.len() == i,
                forall|j: int| 0 <= j < i ==> cells@[j] == 0,
            decreases total - i,
        {
            cells.push(0u8);
            i += 1;
        }
        Ok(Grid { height, width, channels, cells })
    }

    /// Position of the cell at `(channel, row, col)` in the flat buffer.
    pub fn index_at(&self, channel: usize, row: usize, col: usize) -> (idx: usize)
        requires
            self@.wf(),
            (channel as int) < self@.channels,
            (row as int) < self@.height,
            (col as int) < self@.width,
        ensures
            idx as int == self@.index_of(channel as int, row as int, col as int),
            idx < self.cells.len(),
    {
        let n: usize = self.cells.len();
        proof {
            lemma_index_in_range(self@, channel as int, row as int, col as int);
        }
        let hw: usize = self.height * self.width;
        channel * hw + row * self.width + col
    }

    /// Reads the cell at `(channel, row, col)`.
    pub fn get_cell(&self, channel: usize, row: usize, col: usize) -> (value: u8)
        requires
            self@.wf(),
            (channel as int) < self@.channels,
            (row as int) < self@.height,
            (col as int) < self@.width,
        ensures
            value as int == self@.cell(channel as int, row as int, col as int),
            value <= 1,
    {
        let idx: usize = self.index_at(channel, row, col);
        self.cells[idx]
    }

    /// Writes the cell at `(channel, row, col)`.  Only the addressed cell
    /// changes; dimensions and all other cells stay as they were.
    pub fn set_cell(&mut self, channel: usize, row: usize, col: usize, value: u8)
        requires
            old(self)@.wf(),
            (channel as int) < old(self)@.channels,
            (row as int) < old(self)@.height,
            (col as int) < old(self)@.width,
            value <= 1,
        ensures
            final(self)@.wf(),
            final(self)@.height == old(self)@.height,
            final(self)@.width == old(self)@.width,
            final(self)@.channels == old(self)@.channels,
            final(self)@.cells == old(self)@.cells.update(
                old(self)@.index_of(channel as int, row as int, col as int),
                value,
            ),
    {
        let idx: usize = self.index_at(channel, row, col);
        self.cells[idx] = value;
    }

    /// Copies out the cells of one channel, in row-major order.
    pub fn slice_channel(&self, channel: usize) -> (out: Vec<u8>)
        requires
            self@.wf(),
            (channel as int) < self@.channels,
        ensures
            out@ == self@.channel_slice(channel as int),
            out@.len() == self@.height * self@.width,
    {
        let n: usize = self.cells.len();
        proof {
            lemma_channel_bounds(self@, channel as int);
        }
        let hw: usize = self.height * self.width;
        let start: usize = channel * hw;
        let mut out: Vec<u8> = Vec::new();
        let mut t: usize = 0;
        while t < hw
            invariant
                t <= hw,
                start + hw <= self.cells.len(),
                out@.len() == t,
                forall|j: int| 0 <= j < t ==> out@[j] == self.cells@[start + j],
            decreases hw - t,
        {
            out.push(self.cells[start + t]);
            t += 1;
        }
        proof {
            assert(out@ =~= self@.channel_slice(channel as int));
        }
        out
    }
}

} // verus!
