//! Counting air: why the simulation comes to rest.
//!
//! A step that moves water turns air into water and changes nothing else, so
//! every such step leaves less air than it found.

use crate::cell::{Color, Mode};
use crate::engine::{
    active_row, can_move, fills, lemma_active_row_is_lowest, moved, row_move, spec_step,
};
use crate::grid::GridView;
use vstd::prelude::*;

verus! {

/// The number of cells that hold air among the first `n` of row `y`.
pub open spec fn air_in_row(g: GridView, y: int, n: int, mode: Mode) -> nat
    decreases n,
{
    if n <= 0 {
        0
    } else {
        air_in_row(g, y, n - 1, mode) + if g.is_air(n - 1, y, mode) {
            1nat
        } else {
            0nat
        }
    }
}

/// The number of cells that hold air in the first `m` rows.
pub open spec fn air_in_rows(g: GridView, m: int, mode: Mode) -> nat
    decreases m,
{
    if m <= 0 {
        0
    } else {
        air_in_rows(g, m - 1, mode) + air_in_row(g, m - 1, g.width as int, mode)
    }
}

/// The number of cells of the grid that hold air.
pub open spec fn air_count(g: GridView, mode: Mode) -> nat {
    air_in_rows(g, g.height as int, mode)
}

/// Whether `after` has the extent of `before` and holds air only where
/// `before` does.
pub open spec fn no_new_air(before: GridView, after: GridView, mode: Mode) -> bool {
    &&& after.width == before.width
    &&& after.height == before.height
    &&& forall|x: int, y: int| #[trigger] after.is_air(x, y, mode) ==> before.is_air(x, y, mode)
}

/// A row holds no more air among its first `n` cells than `n`.
proof fn lemma_row_air_bounded(g: GridView, y: int, n: int, mode: Mode)
    requires
        0 <= n,
    ensures
        air_in_row(g, y, n, mode) <= n,
    decreases n,
{
    if n > 0 {
        lemma_row_air_bounded(g, y, n - 1, mode);
    }
}

/// The first `m` rows hold no more air than they have cells.
proof fn lemma_rows_air_bounded(g: GridView, m: int, mode: Mode)
    requires
        0 <= m,
    ensures
        air_in_rows(g, m, mode) <= m * g.width,
    decreases m,
{
    if m > 0 {
        lemma_rows_air_bounded(g, m - 1, mode);
        lemma_row_air_bounded(g, m - 1, g.width as int, mode);
        assert((m - 1) * g.width + g.width == m * g.width) by (nonlinear_arith);
    }
}

/// Where no air is new, a row holds no more air than before.
proof fn lemma_row_no_gain(before: GridView, after: GridView, y: int, n: int, mode: Mode)
    requires
        no_new_air(before, after, mode),
    ensures
        air_in_row(after, y, n, mode) <= air_in_row(before, y, n, mode),
    decreases n,
{
    if n > 0 {
        lemma_row_no_gain(before, after, y, n - 1, mode);
    }
}

/// Where no air is new and the air at `(x, y)` is gone, row `y` holds less
/// air than before.
proof fn lemma_row_loss(before: GridView, after: GridView, y: int, n: int, mode: Mode, x: int)
    requires
        no_new_air(before, after, mode),
        0 <= x < n,
        before.is_air(x, y, mode),
        !after.is_air(x, y, mode),
    ensures
        air_in_row(after, y, n, mode) < air_in_row(before, y, n, mode),
    decreases n,
{
    if x == n - 1 {
        lemma_row_no_gain(before, after, y, n - 1, mode);
    } else {
        lemma_row_loss(before, after, y, n - 1, mode, x);
    }
}

/// Where no air is new, the first `m` rows hold no more air than before.
proof fn lemma_rows_no_gain(before: GridView, after: GridView, m: int, mode: Mode)
    requires
        no_new_air(before, after, mode),
    ensures
        air_in_rows(after, m, mode) <= air_in_rows(before, m, mode),
    decreases m,
{
    if m > 0 {
        lemma_rows_no_gain(before, after, m - 1, mode);
        lemma_row_no_gain(before, after, m - 1, before.width as int, mode);
    }
}

/// Where no air is new and the air at `(x, y)` is gone, the rows down to
/// row `y` and beyond hold less air than before.
proof fn lemma_rows_loss(
    before: GridView,
    after: GridView,
    m: int,
    mode: Mode,
    x: int,
    y: int,
)
    requires
        no_new_air(before, after, mode),
        0 <= y < m,
        before.is_air(x, y, mode),
        !after.is_air(x, y, mode),
    ensures
        air_in_rows(after, m, mode) < air_in_rows(before, m, mode),
    decreases m,
{
    if y == m - 1 {
        lemma_rows_no_gain(before, after, m - 1, mode);
        lemma_row_loss(before, after, y, before.width as int, mode, x);
    } else {
        lemma_rows_loss(before, after, m - 1, mode, x, y);
        lemma_row_no_gain(before, after, m - 1, before.width as int, mode);
    }
}

/// A grid holds no more air than it has cells.
pub proof fn lemma_air_count_bounded(g: GridView, mode: Mode)
    ensures
        air_count(g, mode) <= g.height * g.width,
{
    lemma_rows_air_bounded(g, g.height as int, mode);
}

/// A step changes a cell in one way only: a cell that held air holds water
/// afterwards. Walls and water stay where they are, and so does the grid's
/// extent.
pub proof fn lemma_step_only_fills_air(g: GridView, cached_max_y: int, mode: Mode)
    requires
        g.wf(),
    ensures
        spec_step(g, cached_max_y, mode).grid.wf(),
        spec_step(g, cached_max_y, mode).grid.width == g.width,
        spec_step(g, cached_max_y, mode).grid.height == g.height,
        forall|x: int, y: int| #[trigger]
            g.contains(x, y) ==> {
                let after = spec_step(g, cached_max_y, mode).grid;
                ||| after.color_at(x, y) == g.color_at(x, y)
                ||| g.is_air(x, y, mode) && after.color_at(x, y) == Color::water()
            },
{
}

/// A step that moves water leaves less air than it found.
pub proof fn lemma_step_uses_air(g: GridView, cached_max_y: int, mode: Mode)
    requires
        g.wf(),
        spec_step(g, cached_max_y, mode).progressed,
    ensures
        air_count(spec_step(g, cached_max_y, mode).grid, mode) < air_count(g, mode),
{
    lemma_active_row_is_lowest(g, cached_max_y, mode);
    let y = active_row(g, cached_max_y, mode).unwrap();
    let direction = row_move(g, y, mode).unwrap();
    let after = moved(g, y, direction, mode);
    let (tx, ty) = choose|tx: int, ty: int| fills(g, y, direction, mode, tx, ty);
    lemma_rows_loss(g, after, g.height as int, mode, tx, ty);
}

} // verus!
