//! The step engine: one step moves the water of one row by one cell.

use crate::cell::{Cell, Color, Mode};
use crate::grid::{lemma_view_wf, Grid, GridView};
use rayon::iter::{IntoParallelIterator, ParallelIterator};
use vstd::prelude::*;

verus! {

/// The ways in which water leaves a row, in the order in which they are
/// tried.
#[derive(Clone, Copy, PartialEq, Eq, Structural, Debug)]
pub enum Direction {
    /// Into the cell below.
    Down,
    /// Into the cells to the left and to the right.
    Side,
    /// Into the cell above.
    Up,
}

/// Whether `(tx, ty)` turns into water when the water of row `y` moves in
/// `direction`: it holds air, and water of row `y` moves towards it.
pub open spec fn fills(
    g: GridView,
    y: int,
    direction: Direction,
    mode: Mode,
    tx: int,
    ty: int,
) -> bool {
    g.is_air(tx, ty, mode) && match direction {
        Direction::Down => ty == y + 1 && g.is_water(tx, y, mode),
        Direction::Side => ty == y && (g.is_water(tx - 1, y, mode) || g.is_water(tx + 1, y, mode)),
        Direction::Up => ty == y - 1 && g.is_water(tx, y, mode),
    }
}

/// Whether the water of row `y` has anywhere to go in `direction`.
pub open spec fn can_move(g: GridView, y: int, direction: Direction, mode: Mode) -> bool {
    exists|tx: int, ty: int| fills(g, y, direction, mode, tx, ty)
}

/// The grid after the water of row `y` has moved in `direction`: every cell
/// that it fills holds water, and every other cell is as it was.
pub open spec fn moved(g: GridView, y: int, direction: Direction, mode: Mode) -> GridView {
    g.painted(
        |tx: int, ty: int|
            if fills(g, y, direction, mode, tx, ty) {
                Color::water()
            } else {
                g.color_at(tx, ty)
            },
    )
}

/// The direction in which the water of row `y` moves: the first of down,
/// side and up in which it has anywhere to go, if there is one.
pub open spec fn row_move(g: GridView, y: int, mode: Mode) -> Option<Direction> {
    if can_move(g, y, Direction::Down, mode) {
        Some(Direction::Down)
    } else if can_move(g, y, Direction::Side, mode) {
        Some(Direction::Side)
    } else if can_move(g, y, Direction::Up, mode) {
        Some(Direction::Up)
    } else {
        None
    }
}

/// The lowest row above `bound` whose water can move, if there is one.
pub open spec fn active_row(g: GridView, bound: int, mode: Mode) -> Option<int>
    decreases bound,
{
    if bound <= 0 {
        None
    } else if row_move(g, bound - 1, mode) is Some {
        Some(bound - 1)
    } else {
        active_row(g, bound - 1, mode)
    }
}

/// The bound under which the next step has to look after the water of row
/// `y` has moved in `direction`.
pub open spec fn next_bound(y: int, direction: Direction) -> int {
    match direction {
        Direction::Down => y + 2,
        Direction::Side => y + 1,
        Direction::Up => y,
    }
}

/// What a step leaves behind.
pub struct StepView {
    /// The grid after the step.
    pub grid: GridView,
    /// Whether any cell changed.
    pub progressed: bool,
    /// The bound for the step after this one.
    pub cached_max_y: int,
}

/// One step on `g` that looks at the rows above `cached_max_y`: the water of
/// the lowest of them in which water can move does so, in the first direction
/// open to it. Where no water can move, nothing changes.
pub open spec fn spec_step(g: GridView, cached_max_y: int, mode: Mode) -> StepView {
    match active_row(g, cached_max_y, mode) {
        Some(y) => {
            let direction = row_move(g, y, mode).unwrap();
            StepView {
                grid: moved(g, y, direction, mode),
                progressed: true,
                cached_max_y: next_bound(y, direction),
            }
        },
        None => StepView { grid: g, progressed: false, cached_max_y },
    }
}

/// The row that a step picks lies above the bound, its water can move, and
/// no water can move in the rows between it and the bound. Where a step picks
/// no row, no water can move in any row above the bound.
pub proof fn lemma_active_row_is_lowest(g: GridView, bound: int, mode: Mode)
    ensures
        match active_row(g, bound, mode) {
            Some(y) => {
                &&& 0 <= y < bound
                &&& row_move(g, y, mode) is Some
                &&& forall|r: int| y < r < bound ==> #[trigger] row_move(g, r, mode) is None
            },
            None => forall|r: int| 0 <= r < bound ==> #[trigger] row_move(g, r, mode) is None,
        },
    decreases bound,
{
    if bound > 0 && row_move(g, bound - 1, mode) is None {
        lemma_active_row_is_lowest(g, bound - 1, mode);
    }
}

/// Performs one step of the simulation on the rows above `cached_max_y`, from
/// the lowest upwards. In the first row whose water can move, all of it
/// moves: down where it can, else sideways, else up. Returns whether anything
/// moved, and the bound for the next step: two rows below the row that moved
/// down, one below the row that moved sideways, the row itself if it moved
/// up, and `cached_max_y` as it was if nothing moved. The bound given must
/// not lie beyond the last row.
pub fn step(grid: &mut Grid, cached_max_y: u32, mode: Mode) -> (outcome: (bool, u32))
    requires
        cached_max_y <= old(grid)@.height,
    ensures
        final(grid)@ == spec_step(old(grid)@, cached_max_y as int, mode).grid,
        outcome.0 == spec_step(old(grid)@, cached_max_y as int, mode).progressed,
        outcome.1 == spec_step(old(grid)@, cached_max_y as int, mode).cached_max_y,
{
    let width = grid.width();
    let mut y = cached_max_y;
    while y > 0
        invariant
            y <= cached_max_y <= grid@.height,
            width == grid@.width,
            grid@ == old(grid)@,
            active_row(grid@, cached_max_y as int, mode) == active_row(grid@, y as int, mode),
        decreases y,
    {
        y = y - 1;
        let columns = water_columns(grid, width, y, mode);
        if flow(grid, &columns, y, Direction::Down, mode) {
            return (true, y + 2);
        }
        if flow(grid, &columns, y, Direction::Side, mode) {
            return (true, y + 1);
        }
        if flow(grid, &columns, y, Direction::Up, mode) {
            return (true, y);
        }
    }
    (false, cached_max_y)
}

/// A move that fills nothing leaves the grid as it was.
pub proof fn lemma_no_move_no_change(g: GridView, y: int, direction: Direction, mode: Mode)
    requires
        g.wf(),
        !can_move(g, y, direction, mode),
    ensures
        moved(g, y, direction, mode) == g,
{
    assert forall|p: (int, int)| g.contains(p.0, p.1) implies !fills(
        g,
        y,
        direction,
        mode,
        p.0,
        p.1,
    ) by {}
    assert(moved(g, y, direction, mode).pixels =~= g.pixels);
}

/// Whether `columns` lists the columns in which row `y` holds water: each of
/// them once and nothing else, in any order.
pub open spec fn holds_water_columns(columns: Seq<u32>, g: GridView, y: int, mode: Mode) -> bool {
    &&& forall|i: int| 0 <= i < columns.len() ==> g.is_water(#[trigger] columns[i] as int, y, mode)
    &&& forall|x: int| #[trigger]
        g.is_water(x, y, mode) ==> exists|i: int| 0 <= i < columns.len() && columns[i] == x
    &&& columns.no_duplicates()
}

/// The column itself where the cell at `(x, y)` holds water.
fn water_column(grid: &Grid, x: u32, y: u32, mode: Mode) -> (column: Option<u32>)
    requires
        grid@.contains(x as int, y as int),
    ensures
        column == if grid@.is_water(x as int, y as int, mode) {
            Some(x)
        } else {
            None
        },
{
    match grid.cell_at(x, y, mode) {
        Cell::Water => Some(x),
        _ => None,
    }
}

/// rayon's parallel iterator over `0..width`, with `filter_map` and `collect`
/// into a `Vec`: `water_column` is asked once for each column of the row, and
/// the vector holds the columns that it gave. Nothing is claimed of the order
/// in which they stand there.
#[verifier::external_body]
fn water_columns(grid: &Grid, width: u32, y: u32, mode: Mode) -> (columns: Vec<u32>)
    requires
        width == grid@.width,
        y < grid@.height,
    ensures
        holds_water_columns(columns@, grid@, y as int, mode),
{
    (0..width).into_par_iter().filter_map(|x| water_column(grid, x, y, mode)).collect()
}

/// Turns the cell at `(x, y)` into water if it holds air.
fn fill_if_air(grid: &mut Grid, x: u32, y: u32, mode: Mode) -> (filled: bool)
    requires
        old(grid)@.contains(x as int, y as int),
    ensures
        filled == old(grid)@.is_air(x as int, y as int, mode),
        final(grid)@ == if filled {
            old(grid)@.with_color(x as int, y as int, Color::water())
        } else {
            old(grid)@
        },
{
    match grid.cell_at(x, y, mode) {
        Cell::Air => {
            grid.set(x, y, Cell::Water.color());
            true
        },
        _ => false,
    }
}

/// Moves the water of row `y` in one direction: for each of `columns` in
/// turn, the cells that its water moves towards are filled where they hold
/// air. A cell filled for one column is seen as water for the next; the
/// outcome is nonetheless the same for every order of the columns. Tells
/// whether any cell was filled.
fn flow(grid: &mut Grid, columns: &Vec<u32>, y: u32, direction: Direction, mode: Mode) -> (changed: bool)
    requires
        y < old(grid)@.height,
        holds_water_columns(columns@, old(grid)@, y as int, mode),
    ensures
        changed == can_move(old(grid)@, y as int, direction, mode),
        final(grid)@ == moved(old(grid)@, y as int, direction, mode),
        !changed ==> final(grid)@ == old(grid)@,
{
    let width = grid.width();
    let height = grid.height();
    let ghost before = grid@;
    let ghost mut witness: (int, int) = (0, 0);
    let mut changed = false;
    let mut i: usize = 0;
    proof {
        lemma_view_wf(*grid);
        assert(grid@.pixels =~= soaked(before, columns@, 0, y as int, direction, mode).pixels);
    }
    while i < columns.len()
        invariant
            i <= columns.len(),
            before.wf(),
            width == before.width,
            height == before.height,
            y < height,
            holds_water_columns(columns@, before, y as int, mode),
            grid@ == soaked(before, columns@, i as int, y as int, direction, mode),
            changed ==> before.is_air(witness.0, witness.1, mode) && reached(
                columns@,
                i as int,
                direction,
                y as int,
                witness.0,
                witness.1,
            ),
            !changed ==> forall|tx: int, ty: int| #[trigger]
                reached(columns@, i as int, direction, y as int, tx, ty) ==> !before.is_air(
                    tx,
                    ty,
                    mode,
                ),
        decreases columns.len() - i,
    {
        let x = columns[i];
        let ghost start = grid@;
        match direction {
            Direction::Down => {
                if y + 1 < height {
                    if fill_if_air(grid, x, y + 1, mode) {
                        changed = true;
                        proof {
                            witness = (x as int, y + 1);
                        }
                    }
                }
            },
            Direction::Side => {
                if x > 0 {
                    if fill_if_air(grid, x - 1, y, mode) {
                        changed = true;
                        proof {
                            witness = (x - 1, y as int);
                        }
                    }
                }
                if x + 1 < width {
                    if fill_if_air(grid, x + 1, y, mode) {
                        changed = true;
                        proof {
                            witness = (x + 1, y as int);
                        }
                    }
                }
            },
            Direction::Up => {
                if y > 0 {
                    if fill_if_air(grid, x, y - 1, mode) {
                        changed = true;
                        proof {
                            witness = (x as int, y - 1);
                        }
                    }
                }
            },
        }
        proof {
            assert(grid@.pixels =~= soaked(
                before,
                columns@,
                i + 1,
                y as int,
                direction,
                mode,
            ).pixels);
            if !changed {
                assert forall|tx: int, ty: int| #[trigger]
                    reached(columns@, i + 1, direction, y as int, tx, ty) implies !before.is_air(
                    tx,
                    ty,
                    mode,
                ) by {
                    if before.is_air(tx, ty, mode) {
                        assert(start.color_at(tx, ty) == before.color_at(tx, ty));
                    }
                }
            }
        }
        i += 1;
    }
    proof {
        assert forall|tx: int, ty: int|
            (before.is_air(tx, ty, mode) && reached(
                columns@,
                columns@.len() as int,
                direction,
                y as int,
                tx,
                ty,
            )) == #[trigger] fills(before, y as int, direction, mode, tx, ty) by {
            lemma_reached_means_fills(before, columns@, y as int, direction, mode, tx, ty);
        }
        assert(grid@.pixels =~= moved(before, y as int, direction, mode).pixels);
        if changed {
            assert(fills(before, y as int, direction, mode, witness.0, witness.1));
        } else {
            lemma_no_move_no_change(before, y as int, direction, mode);
        }
    }
    changed
}

/// Whether water at column `sx` of row `y` that moves in `direction` moves
/// towards `(tx, ty)`.
spec fn feeds(direction: Direction, sx: int, y: int, tx: int, ty: int) -> bool {
    match direction {
        Direction::Down => tx == sx && ty == y + 1,
        Direction::Side => ty == y && (tx == sx - 1 || tx == sx + 1),
        Direction::Up => tx == sx && ty == y - 1,
    }
}

/// Whether water of one of the first `n` of `columns` moves towards
/// `(tx, ty)`.
spec fn reached(
    columns: Seq<u32>,
    n: int,
    direction: Direction,
    y: int,
    tx: int,
    ty: int,
) -> bool
    decreases n,
{
    n > 0 && (feeds(direction, columns[n - 1] as int, y, tx, ty) || reached(
        columns,
        n - 1,
        direction,
        y,
        tx,
        ty,
    ))
}

/// The grid after the water in the first `n` of `columns` has moved.
spec fn soaked(
    g: GridView,
    columns: Seq<u32>,
    n: int,
    y: int,
    direction: Direction,
    mode: Mode,
) -> GridView {
    g.painted(
        |tx: int, ty: int|
            if g.is_air(tx, ty, mode) && reached(columns, n, direction, y, tx, ty) {
                Color::water()
            } else {
                g.color_at(tx, ty)
            },
    )
}

/// A cell is reached from the first `n` columns exactly if one of them feeds
/// it.
proof fn lemma_reached_by_some_column(
    columns: Seq<u32>,
    n: int,
    direction: Direction,
    y: int,
    tx: int,
    ty: int,
)
    requires
        0 <= n <= columns.len(),
    ensures
        reached(columns, n, direction, y, tx, ty) <==> exists|j: int|
            0 <= j < n && feeds(direction, #[trigger] columns[j] as int, y, tx, ty),
    decreases n,
{
    if n > 0 {
        lemma_reached_by_some_column(columns, n - 1, direction, y, tx, ty);
    }
}

/// Once the water of every column of the row has moved, the cells that hold
/// air and were reached are the cells that the move fills.
proof fn lemma_reached_means_fills(
    g: GridView,
    columns: Seq<u32>,
    y: int,
    direction: Direction,
    mode: Mode,
    tx: int,
    ty: int,
)
    requires
        holds_water_columns(columns, g, y, mode),
    ensures
        (g.is_air(tx, ty, mode) && reached(columns, columns.len() as int, direction, y, tx, ty))
            <==> fills(g, y, direction, mode, tx, ty),
{
    lemma_reached_by_some_column(columns, columns.len() as int, direction, y, tx, ty);
    if fills(g, y, direction, mode, tx, ty) {
        let sx = match direction {
            Direction::Down => tx,
            Direction::Side => if g.is_water(tx - 1, y, mode) {
                tx - 1
            } else {
                tx + 1
            },
            Direction::Up => tx,
        };
        let j = choose|j: int| 0 <= j < columns.len() && columns[j] == sx;
        assert(feeds(direction, columns[j] as int, y, tx, ty));
    }
}

} // verus!
