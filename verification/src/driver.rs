//! The frame driver: steps the grid until the water rests, and hands out a
//! numbered snapshot after every step.

use crate::cell::Mode;
use crate::engine::{
    fills, lemma_active_row_is_lowest, row_move, spec_step, step, Direction,
};
use crate::grid::{lemma_view_wf, Grid, GridView};
use crate::hint::{
    hint_valid, lemma_sound_hint_changes_nothing, lemma_step_keeps_hint_valid, same_outcome,
};
use crate::measure::{
    air_count, lemma_air_count_bounded, lemma_step_only_fills_air, lemma_step_uses_air,
};
use vstd::prelude::*;

verus! {

/// A snapshot of the grid after a step, with its place in the run. The first
/// frame has the number 1.
pub struct Frame {
    pub sequence: u64,
    pub grid: Grid,
}

/// What a frame is: its number and the grid that it shows.
pub struct FrameView {
    pub sequence: nat,
    pub grid: GridView,
}

impl View for Frame {
    type V = FrameView;

    open spec fn view(&self) -> FrameView {
        FrameView { sequence: self.sequence as nat, grid: self.grid@ }
    }
}

/// What a driver is: the grid as it stands, the bound for the next step, the
/// policy, the number of frames handed out, and whether the run is over.
pub struct DriverView {
    pub grid: GridView,
    pub cached_max_y: int,
    pub mode: Mode,
    pub dispatched: nat,
    pub done: bool,
}

impl DriverView {
    /// A run at its start: the first step looks at every row, and no frame
    /// has been handed out.
    pub open spec fn start(grid: GridView, mode: Mode) -> DriverView {
        DriverView { grid, cached_max_y: grid.height as int, mode, dispatched: 0, done: false }
    }

    /// The frame that the next tick hands out: while the run lasts, the grid
    /// after one more step, with the next number. None once the run is over.
    pub open spec fn next_frame(self) -> Option<FrameView> {
        if self.done {
            None
        } else {
            Some(
                FrameView {
                    sequence: self.dispatched + 1,
                    grid: spec_step(self.grid, self.cached_max_y, self.mode).grid,
                },
            )
        }
    }

    /// The driver after the next tick. While the run lasts, a tick is one
    /// step; the run is over after the first step that moves nothing.
    pub open spec fn tick(self) -> DriverView {
        if self.done {
            self
        } else {
            let outcome = spec_step(self.grid, self.cached_max_y, self.mode);
            DriverView {
                grid: outcome.grid,
                cached_max_y: outcome.cached_max_y,
                mode: self.mode,
                dispatched: self.dispatched + 1,
                done: !outcome.progressed,
            }
        }
    }

    /// The driver after `n` ticks.
    pub open spec fn ticks(self, n: nat) -> DriverView
        decreases n,
    {
        if n == 0 {
            self
        } else {
            self.tick().ticks((n - 1) as nat)
        }
    }

    /// What holds of a driver throughout a run: its bound is sound for its
    /// grid, and while the run lasts it has handed out no more frames than
    /// air has turned into water.
    pub open spec fn inv(self) -> bool {
        &&& self.grid.wf()
        &&& 0 <= self.cached_max_y <= self.grid.height
        &&& hint_valid(self.grid, self.cached_max_y, self.mode)
        &&& if self.done {
            self.dispatched <= self.grid.height * self.grid.width + 1
        } else {
            self.dispatched + air_count(self.grid, self.mode) <= self.grid.height * self.grid.width
        }
    }
}

/// A run starts in a state that meets the driver's invariant.
pub proof fn lemma_start_inv(grid: GridView, mode: Mode)
    requires
        grid.wf(),
    ensures
        DriverView::start(grid, mode).inv(),
{
    lemma_air_count_bounded(grid, mode);
}

/// A tick keeps the driver's invariant.
pub proof fn lemma_tick_inv(driver: DriverView)
    requires
        driver.inv(),
    ensures
        driver.tick().inv(),
{
    if !driver.done {
        lemma_step_keeps_hint_valid(driver.grid, driver.cached_max_y, driver.mode);
        lemma_air_count_bounded(driver.tick().grid, driver.mode);
        if spec_step(driver.grid, driver.cached_max_y, driver.mode).progressed {
            lemma_step_uses_air(driver.grid, driver.cached_max_y, driver.mode);
        }
        lemma_step_only_fills_air(driver.grid, driver.cached_max_y, driver.mode);
    }
}

/// Any number of ticks keeps the driver's invariant.
pub proof fn lemma_ticks_inv(driver: DriverView, n: nat)
    requires
        driver.inv(),
    ensures
        driver.ticks(n).inv(),
    decreases n,
{
    if n > 0 {
        lemma_tick_inv(driver);
        lemma_ticks_inv(driver.tick(), (n - 1) as nat);
    }
}

/// Throughout a run, the step that the next tick performs under the
/// driver's bound does what a step over the whole grid would do: the bound
/// saves work and never changes what a run produces.
pub proof fn lemma_run_scans_enough(grid: GridView, mode: Mode, n: nat)
    requires
        grid.wf(),
    ensures
        ({
            let driver = DriverView::start(grid, mode).ticks(n);
            same_outcome(
                spec_step(driver.grid, driver.cached_max_y, mode),
                spec_step(driver.grid, driver.grid.height as int, mode),
            )
        }),
{
    let driver = DriverView::start(grid, mode).ticks(n);
    lemma_start_inv(grid, mode);
    lemma_ticks_inv(DriverView::start(grid, mode), n);
    lemma_ticks_keep_mode(DriverView::start(grid, mode), n);
    lemma_sound_hint_changes_nothing(driver.grid, driver.cached_max_y, mode);
}

/// Ticks do not change the policy.
pub proof fn lemma_ticks_keep_mode(driver: DriverView, n: nat)
    ensures
        driver.ticks(n).mode == driver.mode,
    decreases n,
{
    if n > 0 {
        lemma_ticks_keep_mode(driver.tick(), (n - 1) as nat);
    }
}

/// Frames leave in the order of their numbers, with no gap and no repeat:
/// while the run lasts, the driver has handed out one frame for each tick,
/// and the next frame carries the next number. A run that is over stays over.
pub proof fn lemma_frames_are_numbered(driver: DriverView, n: nat)
    ensures
        driver.ticks(n).dispatched <= driver.dispatched + n,
        !driver.ticks(n).done ==> !driver.done && driver.ticks(n).dispatched == driver.dispatched
            + n,
        driver.done ==> driver.ticks(n) == driver,
        driver.ticks(n).next_frame() matches Some(frame) ==> frame.sequence == driver.dispatched
            + n + 1,
    decreases n,
{
    if n > 0 {
        lemma_frames_are_numbered(driver.tick(), (n - 1) as nat);
    }
}

/// The frames of a run from its start are numbered 1, 2, 3 and so on: the
/// tick after `n` ticks hands out frame `n + 1` or, once the run is over,
/// nothing.
pub proof fn lemma_run_numbers_frames_from_one(grid: GridView, mode: Mode, n: nat)
    ensures
        DriverView::start(grid, mode).ticks(n).next_frame() matches Some(frame) ==> frame.sequence
            == n + 1,
        DriverView::start(grid, mode).ticks(n).next_frame() is None ==> DriverView::start(
            grid,
            mode,
        ).ticks(n + 1).next_frame() is None,
{
    let start = DriverView::start(grid, mode);
    lemma_frames_are_numbered(start, n);
    lemma_ticks_split(start, n);
}

/// One more tick after `n` ticks is `n + 1` ticks.
pub proof fn lemma_ticks_split(driver: DriverView, n: nat)
    ensures
        driver.ticks(n + 1) == driver.ticks(n).tick(),
    decreases n,
{
    if n > 0 {
        lemma_ticks_split(driver.tick(), (n - 1) as nat);
    } else {
        assert(driver.ticks(1) == driver.tick().ticks(0));
    }
}

/// A grid without water gives one frame, which shows the grid as it was,
/// and the run is over.
pub proof fn lemma_no_water_one_frame(grid: GridView, mode: Mode)
    requires
        forall|x: int, y: int| !grid.is_water(x, y, mode),
    ensures
        DriverView::start(grid, mode).next_frame() == Some(FrameView { sequence: 1, grid }),
        DriverView::start(grid, mode).tick().done,
        DriverView::start(grid, mode).tick().grid == grid,
        DriverView::start(grid, mode).tick().dispatched == 1,
        DriverView::start(grid, mode).tick().next_frame() is None,
{
    lemma_active_row_is_lowest(grid, grid.height as int, mode);
    assert forall|y: int| row_move(grid, y, mode) is None by {
        assert forall|d: Direction, tx: int, ty: int| !fills(grid, y, d, mode, tx, ty) by {}
    }
}

/// A run is over after at most one tick more than the grid holds air.
pub proof fn lemma_run_ends(grid: GridView, mode: Mode)
    requires
        grid.wf(),
    ensures
        DriverView::start(grid, mode).ticks(air_count(grid, mode) + 1).done,
{
    lemma_ends_within(DriverView::start(grid, mode), air_count(grid, mode) + 1);
}

/// A run that is over, or whose grid holds less than `n` cells of air, is
/// over after `n` ticks.
pub proof fn lemma_ends_within(driver: DriverView, n: nat)
    requires
        driver.grid.wf(),
        driver.done || air_count(driver.grid, driver.mode) < n,
    ensures
        driver.ticks(n).done,
    decreases n,
{
    if n > 0 {
        if !driver.done {
            lemma_step_only_fills_air(driver.grid, driver.cached_max_y, driver.mode);
            if spec_step(driver.grid, driver.cached_max_y, driver.mode).progressed {
                lemma_step_uses_air(driver.grid, driver.cached_max_y, driver.mode);
            }
        }
        lemma_ends_within(driver.tick(), (n - 1) as nat);
    }
}

/// Runs a simulation step by step.
pub struct Driver {
    grid: Grid,
    cached_max_y: u32,
    mode: Mode,
    dispatched: u64,
    done: bool,
}

impl View for Driver {
    type V = DriverView;

    closed spec fn view(&self) -> DriverView {
        DriverView {
            grid: self.grid@,
            cached_max_y: self.cached_max_y as int,
            mode: self.mode,
            dispatched: self.dispatched as nat,
            done: self.done,
        }
    }
}

impl Driver {
    /// Whether the driver is in a state that a run can be in.
    pub open spec fn wf(&self) -> bool {
        self@.inv()
    }

    /// Starts a run on `grid`.
    pub fn new(grid: Grid, mode: Mode) -> (driver: Driver)
        ensures
            driver.wf(),
            driver@ == DriverView::start(grid@, mode),
    {
        let cached_max_y = grid.height();
        proof {
            lemma_view_wf(grid);
            lemma_start_inv(grid@, mode);
        }
        Driver { grid, cached_max_y, mode, dispatched: 0, done: false }
    }

    /// Starts a run on `grid` redrawn in canonical colours. Such a grid needs
    /// no approximate reading any more, so the run reads it exactly.
    pub fn normalized(grid: Grid, mode: Mode) -> (driver: Driver)
        ensures
            driver.wf(),
            driver@ == DriverView::start(grid@.normalized(mode), Mode::Exact),
    {
        let mut grid = grid;
        grid.normalize(mode);
        Driver::new(grid, Mode::Exact)
    }

    /// Whether the run is over.
    pub fn is_done(&self) -> (done: bool)
        ensures
            done == self@.done,
    {
        self.done
    }

    /// The number of frames handed out so far.
    pub fn frames_dispatched(&self) -> (count: u64)
        ensures
            count == self@.dispatched,
    {
        self.dispatched
    }

    /// The bound under which the next step looks.
    pub fn cached_max_y(&self) -> (bound: u32)
        ensures
            bound == self@.cached_max_y,
    {
        self.cached_max_y
    }

    /// The policy by which the run reads colours.
    pub fn mode(&self) -> (mode: Mode)
        ensures
            mode == self@.mode,
    {
        self.mode
    }

    /// The grid as it stands.
    pub fn grid(&self) -> (grid: &Grid)
        ensures
            grid@ == self@.grid,
    {
        &self.grid
    }

    /// Performs the next step and hands out a snapshot of the grid after it,
    /// with the next number. The run is over after the first step that moves
    /// nothing; from then on a tick does nothing and hands out nothing.
    pub fn tick(&mut self) -> (frame: Option<Frame>)
        requires
            old(self).wf(),
        ensures
            final(self).wf(),
            final(self)@ == old(self)@.tick(),
            match frame {
                Some(frame) => old(self)@.next_frame() == Some(frame@),
                None => old(self)@.next_frame() is None,
            },
    {
        proof {
            lemma_tick_inv(self@);
            lemma_air_count_bounded(self@.grid, self.mode);
            assert(self@.grid.height * self@.grid.width <= 0xffff_ffff * 0xffff_ffff)
                by (nonlinear_arith)
                requires
                    self@.grid.height <= 0xffff_ffff,
                    self@.grid.width <= 0xffff_ffff,
            ;
        }
        if self.done {
            return None;
        }
        let (progressed, bound) = step(&mut self.grid, self.cached_max_y, self.mode);
        self.cached_max_y = bound;
        self.dispatched = self.dispatched + 1;
        self.done = !progressed;
        Some(Frame { sequence: self.dispatched, grid: self.grid.snapshot() })
    }
}

} // verus!
