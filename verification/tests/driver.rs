use water_flow::cell::{Cell, Mode};
use water_flow::driver::{Driver, Frame};
use water_flow::grid::Grid;

fn grid_of(rows: &[&str]) -> Grid {
    let mut data = Vec::new();
    for row in rows {
        for mark in row.chars() {
            let color: [u8; 3] = match mark {
                '#' => [0, 0, 0],
                '~' => [0, 0, 255],
                '.' => [255, 255, 255],
                'g' => [100, 100, 100],
                other => panic!("no colour for {other}"),
            };
            data.extend_from_slice(&color);
        }
    }
    Grid::from_raw(rows[0].len() as u32, rows.len() as u32, data).unwrap()
}

fn rows_of(grid: &Grid, mode: Mode) -> Vec<String> {
    let mut rows = Vec::new();
    for y in 0..grid.height() {
        let mut row = String::new();
        for x in 0..grid.width() {
            row.push(match grid.cell_at(x, y, mode) {
                Cell::Wall => '#',
                Cell::Water => '~',
                Cell::Air => '.',
            });
        }
        rows.push(row);
    }
    rows
}

fn run(grid: Grid, mode: Mode) -> Vec<Frame> {
    let mut driver = Driver::new(grid, mode);
    let mut frames = Vec::new();
    while let Some(frame) = driver.tick() {
        frames.push(frame);
    }
    assert!(driver.is_done());
    assert_eq!(driver.frames_dispatched(), frames.len() as u64);
    frames
}

#[test]
fn grid_without_water_gives_one_frame() {
    let frames = run(grid_of(&["..#", "#..", "..."]), Mode::Exact);
    assert_eq!(frames.len(), 1);
    assert_eq!(frames[0].sequence, 1);
    assert_eq!(rows_of(&frames[0].grid, Mode::Exact), ["..#", "#..", "..."]);
}

#[test]
fn water_beside_a_wall_spreads_once_and_rests() {
    let frames = run(grid_of(&["#~."]), Mode::Exact);
    assert_eq!(frames.len(), 2);
    assert_eq!(frames[0].sequence, 1);
    assert_eq!(frames[1].sequence, 2);
    assert_eq!(rows_of(&frames[0].grid, Mode::Exact), ["#~~"]);
    assert_eq!(rows_of(&frames[1].grid, Mode::Exact), ["#~~"]);
}

#[test]
fn frames_are_numbered_from_one_without_gaps() {
    let frames = run(grid_of(&["..~..", ".....", ".#.#.", ".....", "#####"]), Mode::Exact);
    assert!(frames.len() > 2);
    for (index, frame) in frames.iter().enumerate() {
        assert_eq!(frame.sequence, index as u64 + 1);
    }
}

#[test]
fn last_two_frames_show_the_grid_at_rest() {
    let frames = run(grid_of(&["~..", "#..", "###"]), Mode::Exact);
    let count = frames.len();
    assert_eq!(
        rows_of(&frames[count - 1].grid, Mode::Exact),
        rows_of(&frames[count - 2].grid, Mode::Exact)
    );
    assert_eq!(rows_of(&frames[count - 1].grid, Mode::Exact), ["~~~", "#~~", "###"]);
}

#[test]
fn run_ends_within_one_tick_more_than_there_is_air() {
    let frames = run(grid_of(&["~....", ".....", "....."]), Mode::Exact);
    assert!(frames.len() <= 14 + 1);
    assert_eq!(
        rows_of(&frames[frames.len() - 1].grid, Mode::Exact),
        ["~~~~~", "~~~~~", "~~~~~"]
    );
}

#[test]
fn tick_after_the_end_does_nothing() {
    let mut driver = Driver::new(grid_of(&["#~#"]), Mode::Exact);
    assert!(!driver.is_done());
    assert_eq!(driver.frames_dispatched(), 0);
    assert_eq!(driver.cached_max_y(), 1);
    let first = driver.tick().unwrap();
    assert_eq!(first.sequence, 1);
    assert!(driver.is_done());
    assert!(driver.tick().is_none());
    assert!(driver.tick().is_none());
    assert_eq!(driver.frames_dispatched(), 1);
    assert_eq!(rows_of(driver.grid(), Mode::Exact), ["#~#"]);
}

#[test]
fn driver_follows_the_bound_of_each_step() {
    let mut driver = Driver::new(grid_of(&["~", ".", ".", "#"]), Mode::Exact);
    assert_eq!(driver.cached_max_y(), 4);
    driver.tick();
    assert_eq!(driver.cached_max_y(), 2);
    driver.tick();
    assert_eq!(driver.cached_max_y(), 3);
    assert!(!driver.is_done());
    driver.tick();
    assert_eq!(driver.cached_max_y(), 3);
    assert!(driver.is_done());
    assert_eq!(driver.frames_dispatched(), 3);
}

#[test]
fn frames_do_not_see_later_steps() {
    let mut driver = Driver::new(grid_of(&["~", ".", "."]), Mode::Exact);
    let first = driver.tick().unwrap();
    let second = driver.tick().unwrap();
    assert_eq!(rows_of(&first.grid, Mode::Exact), ["~", "~", "."]);
    assert_eq!(rows_of(&second.grid, Mode::Exact), ["~", "~", "~"]);
}

#[test]
fn approximate_run_stops_at_gray() {
    let frames = run(grid_of(&["~", ".", "g", "."]), Mode::Approximate);
    assert_eq!(frames.len(), 2);
    assert_eq!(rows_of(&frames[1].grid, Mode::Approximate), ["~", "~", "#", "."]);

    let frames = run(grid_of(&["~", ".", "g", "."]), Mode::Exact);
    assert_eq!(frames.len(), 4);
    assert_eq!(rows_of(&frames[3].grid, Mode::Exact), ["~", "~", "~", "~"]);
}

#[test]
fn normalized_run_reads_exactly() {
    let mut driver = Driver::normalized(grid_of(&["~", ".", "g", "."]), Mode::Approximate);
    assert_eq!(driver.mode(), Mode::Exact);
    assert_eq!(driver.grid().get(0, 2), Cell::Wall.color());
    let mut count = 0;
    while let Some(frame) = driver.tick() {
        count += 1;
        assert_eq!(frame.sequence, count);
    }
    assert_eq!(count, 2);
    assert_eq!(rows_of(driver.grid(), Mode::Exact), ["~", "~", "#", "."]);
}

#[test]
fn normalized_run_shows_the_normal_form_of_each_frame() {
    let rows = ["~g.", "...", "g.g", "..."];
    let raw = run(grid_of(&rows), Mode::Approximate);
    let mut driver = Driver::normalized(grid_of(&rows), Mode::Approximate);
    let mut normal = Vec::new();
    while let Some(frame) = driver.tick() {
        normal.push(frame);
    }
    assert_eq!(raw.len(), normal.len());
    for (raw, normal) in raw.into_iter().zip(normal) {
        assert_eq!(raw.sequence, normal.sequence);
        let mut grid = raw.grid;
        grid.normalize(Mode::Approximate);
        assert_eq!(grid.into_raw(), normal.grid.into_raw());
    }
}

#[test]
fn unsound_bound_hides_a_move_that_the_full_scan_finds() {
    let rows = ["~", ".", "#", "~", "."];
    let mut narrowed = grid_of(&rows);
    assert_eq!(water_flow::engine::step(&mut narrowed, 1, Mode::Exact), (true, 2));
    let mut full = narrowed.snapshot();
    assert_eq!(water_flow::engine::step(&mut narrowed, 2, Mode::Exact), (false, 2));
    assert_eq!(water_flow::engine::step(&mut full, 5, Mode::Exact), (true, 5));
    assert_eq!(rows_of(&full, Mode::Exact), ["~", "~", "#", "~", "~"]);
}
