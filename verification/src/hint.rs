//! The scan-range hint: why a step may leave the lower rows unread.
//!
//! A step hands back a bound, and the next step looks only at the rows above
//! it. The proofs here show that this changes the work done and never the
//! outcome.

use crate::cell::Mode;
use crate::engine::{
    active_row, can_move, fills, lemma_active_row_is_lowest, moved, next_bound, row_move,
    spec_step, Direction, StepView,
};
use crate::grid::GridView;
use vstd::prelude::*;

verus! {

/// A bound is sound for a grid when no water can move in the rows from the
/// bound downwards.
pub open spec fn hint_valid(g: GridView, cached_max_y: int, mode: Mode) -> bool {
    forall|y: int| cached_max_y <= y < g.height ==> #[trigger] row_move(g, y, mode) is None
}

/// Two steps agree when they leave the same grid, both moved water or
/// neither did, and where they moved water they hand back the same bound.
pub open spec fn same_outcome(a: StepView, b: StepView) -> bool {
    &&& a.grid == b.grid
    &&& a.progressed == b.progressed
    &&& a.progressed ==> a.cached_max_y == b.cached_max_y
}

/// Rows in which no water can move may be left out of the scan.
pub proof fn lemma_still_rows_are_skipped(g: GridView, low: int, high: int, mode: Mode)
    requires
        low <= high,
        forall|r: int| low <= r < high ==> #[trigger] row_move(g, r, mode) is None,
    ensures
        active_row(g, high, mode) == active_row(g, low, mode),
    decreases high - low,
{
    if low < high && high > 0 {
        lemma_still_rows_are_skipped(g, low, high - 1, mode);
    }
}

/// A step under a sound bound does what a step over the whole grid does.
pub proof fn lemma_sound_hint_changes_nothing(g: GridView, cached_max_y: int, mode: Mode)
    requires
        cached_max_y <= g.height,
        hint_valid(g, cached_max_y, mode),
    ensures
        same_outcome(spec_step(g, cached_max_y, mode), spec_step(g, g.height as int, mode)),
{
    lemma_still_rows_are_skipped(g, cached_max_y, g.height as int, mode);
}

/// A row in which no water could move before the water of row `y` moved is
/// still such a row afterwards, if it lies at or below the bound that the
/// move gives. So is row `y` itself after its water has moved up.
proof fn lemma_row_stays_still(g: GridView, y: int, direction: Direction, mode: Mode, r: int)
    requires
        g.wf(),
        row_move(g, y, mode) == Some(direction),
        next_bound(y, direction) <= r,
        r != y ==> row_move(g, r, mode) is None,
    ensures
        row_move(moved(g, y, direction, mode), r, mode) is None,
{
    let after = moved(g, y, direction, mode);
    assert forall|d: Direction, tx: int, ty: int| !fills(after, r, d, mode, tx, ty) by {
        if fills(after, r, d, mode, tx, ty) {
            assert(fills(g, r, d, mode, tx, ty));
        }
    }
}

/// The bound that a step hands back is sound for the grid that it leaves, if
/// the bound that it was given was sound for the grid that it found.
pub proof fn lemma_step_keeps_hint_valid(g: GridView, cached_max_y: int, mode: Mode)
    requires
        g.wf(),
        0 <= cached_max_y <= g.height,
        hint_valid(g, cached_max_y, mode),
    ensures
        0 <= spec_step(g, cached_max_y, mode).cached_max_y <= g.height,
        hint_valid(
            spec_step(g, cached_max_y, mode).grid,
            spec_step(g, cached_max_y, mode).cached_max_y,
            mode,
        ),
{
    lemma_active_row_is_lowest(g, cached_max_y, mode);
    match active_row(g, cached_max_y, mode) {
        Some(y) => {
            let direction = row_move(g, y, mode).unwrap();
            let after = moved(g, y, direction, mode);
            assert forall|r: int| next_bound(y, direction) <= r < after.height implies #[trigger]
                row_move(after, r, mode) is None by {
                lemma_row_stays_still(g, y, direction, mode, r);
            }
        },
        None => {},
    }
}

/// After a step under a sound bound, the next step finds under the bound
/// handed back the very move that a scan of the whole grid would find.
pub proof fn lemma_narrowed_scan_finds_the_same_move(g: GridView, cached_max_y: int, mode: Mode)
    requires
        g.wf(),
        0 <= cached_max_y <= g.height,
        hint_valid(g, cached_max_y, mode),
    ensures
        ({
            let first = spec_step(g, cached_max_y, mode);
            same_outcome(
                spec_step(first.grid, first.cached_max_y, mode),
                spec_step(first.grid, first.grid.height as int, mode),
            )
        }),
{
    let first = spec_step(g, cached_max_y, mode);
    lemma_step_keeps_hint_valid(g, cached_max_y, mode);
    lemma_sound_hint_changes_nothing(first.grid, first.cached_max_y, mode);
}

} // verus!
