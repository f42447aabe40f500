//! Properties of the engine that hold for every grid, proved once and for
//! all at the level of the mathematical model.

use vstd::prelude::*;

verus! {

use vstd::arithmetic::div_mod::lemma_fundamental_div_mod_converse;

use crate::engine::step_model;
use crate::engine::step_n;
use crate::grid::GridModel;
use crate::grid::lemma_channel_bounds;
use crate::grid::lemma_decode_in_range;
use crate::init::init_model;

/// Law: determinism.  The grid after `n` generations is a pure function of
/// the dimensions and the seed: two runs built from the same seed agree
/// bit for bit at every generation.  `Game::new` pins its grid to
/// `init_model` and `Game::update` pins each generation to `step_model`,
/// so any two engines constructed and stepped alike hold equal grids.
pub proof fn lemma_determinism(
    height: int,
    width: int,
    channels: int,
    seed: u64,
    n: nat,
    m1: GridModel,
    m2: GridModel,
)
    requires
        m1 == step_n(init_model(height, width, channels, seed), n),
        m2 == step_n(init_model(height, width, channels, seed), n),
    ensures
        m1 == m2,
{
}

/// Two grids of equal dimensions that agree on one channel have equal
/// padded cell reads everywhere in that channel.
proof fn lemma_cell_or_zero_from_slice(
    m1: GridModel,
    m2: GridModel,
    channel: int,
    row: int,
    col: int,
)
    requires
        m1.wf(),
        m2.wf(),
        m1.height == m2.height,
        m1.width == m2.width,
        m1.channels == m2.channels,
        0 <= channel < m1.channels,
        m1.channel_slice(channel) == m2.channel_slice(channel),
    ensures
        m1.cell_or_zero(channel, row, col) == m2.cell_or_zero(channel, row, col),
{
    if 0 <= row < m1.height && 0 <= col < m1.width {
        let hw: int = m1.height * m1.width;
        let t: int = row * m1.width + col;
        assert(0 <= t < hw) by (nonlinear_arith)
            requires
                1 <= m1.width,
                0 <= row < m1.height,
                0 <= col < m1.width,
                hw == m1.height * m1.width,
                t == row * m1.width + col,
        ;
        lemma_channel_bounds(m1, channel);
        lemma_channel_bounds(m2, channel);
        assert(m1.channel_slice(channel)[t] == m1.cells[channel * hw + t]);
        assert(m2.channel_slice(channel)[t] == m2.cells[channel * hw + t]);
    }
}

/// Law: channel independence.  Each channel is a fully independent
/// automaton: what one generation does to a channel depends only on that
/// channel's own cells.  Two grids of equal dimensions that agree on a
/// channel still agree on it after a generation, whatever their other
/// channels hold — there is no cross-channel leakage.
pub proof fn lemma_channel_independence(m1: GridModel, m2: GridModel, channel: int)
    requires
        m1.wf(),
        m2.wf(),
        m1.height == m2.height,
        m1.width == m2.width,
        m1.channels == m2.channels,
        0 <= channel < m1.channels,
        m1.channel_slice(channel) == m2.channel_slice(channel),
    ensures
        step_model(m1).channel_slice(channel) == step_model(m2).channel_slice(channel),
{
    let hw: int = m1.height * m1.width;
    assert(1 <= hw) by (nonlinear_arith)
        requires
            1 <= m1.height,
            1 <= m1.width,
            hw == m1.height * m1.width,
    ;
    lemma_channel_bounds(m1, channel);
    lemma_channel_bounds(m2, channel);
    assert forall|t: int|
        0 <= t < hw implies step_model(m1).channel_slice(channel)[t] == step_model(
        m2,
    ).channel_slice(channel)[t] by {
        let k: int = channel * hw + t;
        assert(0 <= k < m1.cells.len());
        lemma_decode_in_range(m1, k);
        lemma_fundamental_div_mod_converse(k, hw, channel, t);
        let row: int = m1.row_of(k);
        let col: int = m1.col_of(k);
        assert(m1.channel_slice(channel)[t] == m1.cells[k]);
        assert(m2.channel_slice(channel)[t] == m2.cells[k]);
        lemma_cell_or_zero_from_slice(m1, m2, channel, row - 1, col - 1);
        lemma_cell_or_zero_from_slice(m1, m2, channel, row - 1, col);
        lemma_cell_or_zero_from_slice(m1, m2, channel, row - 1, col + 1);
        lemma_cell_or_zero_from_slice(m1, m2, channel, row, col - 1);
        lemma_cell_or_zero_from_slice(m1, m2, channel, row, col + 1);
        lemma_cell_or_zero_from_slice(m1, m2, channel, row + 1, col - 1);
        lemma_cell_or_zero_from_slice(m1, m2, channel, row + 1, col);
        lemma_cell_or_zero_from_slice(m1, m2, channel, row + 1, col + 1);
        assert(step_model(m1).cells[k] == step_model(m2).cells[k]);
        assert(step_model(m1).channel_slice(channel)[t] == step_model(m1).cells[k]);
        assert(step_model(m2).channel_slice(channel)[t] == step_model(m2).cells[k]);
    };
    assert(step_model(m1).channel_slice(channel) =~= step_model(m2).channel_slice(channel));
}

} // verus!
