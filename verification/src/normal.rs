//! Normalized grids: why a run may read a normalized grid exactly.
//!
//! A grid redrawn in canonical colours shows under the exact policy what the
//! grid showed under the policy by which it was redrawn, and it goes on doing
//! so step after step.

use crate::cell::Mode;
use crate::driver::DriverView;
use crate::engine::{active_row, can_move, fills, moved, row_move, spec_step, Direction};
use crate::grid::GridView;
use vstd::prelude::*;

verus! {

/// A move fills the same cells on a grid and on its normal form.
proof fn lemma_normalized_fills(
    g: GridView,
    mode: Mode,
    y: int,
    direction: Direction,
    tx: int,
    ty: int,
)
    ensures
        fills(g.normalized(mode), y, direction, Mode::Exact, tx, ty) == fills(
            g,
            y,
            direction,
            mode,
            tx,
            ty,
        ),
{
}

/// Water moves in the same rows, and in the same direction, on a grid and on
/// its normal form.
proof fn lemma_normalized_row_move(g: GridView, mode: Mode, y: int)
    ensures
        row_move(g.normalized(mode), y, Mode::Exact) == row_move(g, y, mode),
{
    let normal = g.normalized(mode);
    assert forall|direction: Direction|
        can_move(normal, y, direction, Mode::Exact) == can_move(g, y, direction, mode) by {
        if can_move(normal, y, direction, Mode::Exact) {
            let (tx, ty) = choose|tx: int, ty: int|
                fills(normal, y, direction, Mode::Exact, tx, ty);
            lemma_normalized_fills(g, mode, y, direction, tx, ty);
        }
        if can_move(g, y, direction, mode) {
            let (tx, ty) = choose|tx: int, ty: int| fills(g, y, direction, mode, tx, ty);
            lemma_normalized_fills(g, mode, y, direction, tx, ty);
        }
    }
}

/// A step picks the same row on a grid and on its normal form.
proof fn lemma_normalized_active_row(g: GridView, mode: Mode, bound: int)
    ensures
        active_row(g.normalized(mode), bound, Mode::Exact) == active_row(g, bound, mode),
    decreases bound,
{
    if bound > 0 {
        lemma_normalized_row_move(g, mode, bound - 1);
        lemma_normalized_active_row(g, mode, bound - 1);
    }
}

/// A step on the normal form of a grid, read exactly, leaves the normal form
/// of what the step leaves on the grid itself, and hands back the same bound.
pub proof fn lemma_step_of_normalized(g: GridView, mode: Mode, cached_max_y: int)
    ensures
        spec_step(g.normalized(mode), cached_max_y, Mode::Exact).grid == spec_step(
            g,
            cached_max_y,
            mode,
        ).grid.normalized(mode),
        spec_step(g.normalized(mode), cached_max_y, Mode::Exact).progressed == spec_step(
            g,
            cached_max_y,
            mode,
        ).progressed,
        spec_step(g.normalized(mode), cached_max_y, Mode::Exact).cached_max_y == spec_step(
            g,
            cached_max_y,
            mode,
        ).cached_max_y,
{
    lemma_normalized_active_row(g, mode, cached_max_y);
    match active_row(g, cached_max_y, mode) {
        Some(y) => {
            lemma_normalized_row_move(g, mode, y);
            let direction = row_move(g, y, mode).unwrap();
            assert forall|tx: int, ty: int|
                fills(g.normalized(mode), y, direction, Mode::Exact, tx, ty) == fills(
                    g,
                    y,
                    direction,
                    mode,
                    tx,
                    ty,
                ) by {
                lemma_normalized_fills(g, mode, y, direction, tx, ty);
            }
            assert(moved(g.normalized(mode), y, direction, Mode::Exact).pixels =~= moved(
                g,
                y,
                direction,
                mode,
            ).normalized(mode).pixels);
        },
        None => {},
    }
}

/// The normal form of a driver's state: the grid in canonical colours, read
/// exactly.
pub open spec fn normalized_driver(driver: DriverView) -> DriverView {
    DriverView {
        grid: driver.grid.normalized(driver.mode),
        cached_max_y: driver.cached_max_y,
        mode: Mode::Exact,
        dispatched: driver.dispatched,
        done: driver.done,
    }
}

/// A run on a normalized grid shows, tick by tick, the normal form of the
/// run on the grid itself.
pub proof fn lemma_run_of_normalized(driver: DriverView, n: nat)
    ensures
        normalized_driver(driver).ticks(n) == normalized_driver(driver.ticks(n)),
    decreases n,
{
    if n > 0 {
        lemma_step_of_normalized(driver.grid, driver.mode, driver.cached_max_y);
        lemma_run_of_normalized(driver.tick(), (n - 1) as nat);
    }
}

} // verus!
