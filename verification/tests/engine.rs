use water_flow::cell::{Cell, Mode};
use water_flow::engine::step;
use water_flow::grid::Grid;

fn grid_of(rows: &[&str]) -> Grid {
    let mut data = Vec::new();
    for row in rows {
        for mark in row.chars() {
            let color: [u8; 3] = match mark {
                '#' => [0, 0, 0],
                '~' => [0, 0, 255],
                '.' => [255, 255, 255],
                'g' => [100, 100, 100],
                other => panic!("no colour for {other}"),
            };
            data.extend_from_slice(&color);
        }
    }
    Grid::from_raw(rows[0].len() as u32, rows.len() as u32, data).unwrap()
}

fn rows_of(grid: &Grid, mode: Mode) -> Vec<String> {
    let mut rows = Vec::new();
    for y in 0..grid.height() {
        let mut row = String::new();
        for x in 0..grid.width() {
            row.push(match grid.cell_at(x, y, mode) {
                Cell::Wall => '#',
                Cell::Water => '~',
                Cell::Air => '.',
            });
        }
        rows.push(row);
    }
    rows
}

#[test]
fn water_falls_first() {
    let mut grid = grid_of(&["...", ".~.", "..."]);
    let outcome = step(&mut grid, 3, Mode::Exact);
    assert_eq!(outcome, (true, 3));
    assert_eq!(rows_of(&grid, Mode::Exact), ["...", ".~.", ".~."]);
}

#[test]
fn blocked_water_spreads_and_does_not_rise() {
    let mut grid = grid_of(&["...", ".~.", ".#."]);
    let outcome = step(&mut grid, 3, Mode::Exact);
    assert_eq!(outcome, (true, 2));
    assert_eq!(rows_of(&grid, Mode::Exact), ["...", "~~~", ".#."]);
}

#[test]
fn water_rises_as_a_last_resort() {
    let mut grid = grid_of(&["...", "#~#", "###"]);
    let outcome = step(&mut grid, 3, Mode::Exact);
    assert_eq!(outcome, (true, 1));
    assert_eq!(rows_of(&grid, Mode::Exact), [".~.", "#~#", "###"]);
}

#[test]
fn every_water_cell_of_the_row_falls_in_one_step() {
    let mut grid = grid_of(&["~.~~", ".#..", "...."]);
    let outcome = step(&mut grid, 3, Mode::Exact);
    assert_eq!(outcome, (true, 2));
    assert_eq!(rows_of(&grid, Mode::Exact), ["~.~~", "~#~~", "...."]);
}

#[test]
fn lowest_row_moves_first() {
    let mut grid = grid_of(&["~..", "...", "..~", "###"]);
    let outcome = step(&mut grid, 4, Mode::Exact);
    assert_eq!(outcome, (true, 3));
    assert_eq!(rows_of(&grid, Mode::Exact), ["~..", "...", ".~~", "###"]);
}

#[test]
fn spreading_fills_both_neighbours_of_every_water_cell() {
    let mut grid = grid_of(&["..~.~..#.~"]);
    let outcome = step(&mut grid, 1, Mode::Exact);
    assert_eq!(outcome, (true, 1));
    assert_eq!(rows_of(&grid, Mode::Exact), [".~~~~~.#~~"]);
}

#[test]
fn water_at_the_edges_spreads_inwards_only() {
    let mut grid = grid_of(&["~..~"]);
    assert_eq!(step(&mut grid, 1, Mode::Exact), (true, 1));
    assert_eq!(rows_of(&grid, Mode::Exact), ["~~~~"]);
    assert_eq!(step(&mut grid, 1, Mode::Exact), (false, 1));
    assert_eq!(rows_of(&grid, Mode::Exact), ["~~~~"]);
}

#[test]
fn top_row_does_not_rise() {
    let mut grid = grid_of(&["#~#", "###"]);
    assert_eq!(step(&mut grid, 2, Mode::Exact), (false, 2));
    assert_eq!(rows_of(&grid, Mode::Exact), ["#~#", "###"]);
}

#[test]
fn rest_leaves_grid_and_bound_as_they_were() {
    let mut grid = grid_of(&["###", "#~#", "###"]);
    assert_eq!(step(&mut grid, 3, Mode::Exact), (false, 3));
    assert_eq!(step(&mut grid, 2, Mode::Exact), (false, 2));
    assert_eq!(step(&mut grid, 0, Mode::Exact), (false, 0));
    assert_eq!(rows_of(&grid, Mode::Exact), ["###", "#~#", "###"]);
}

#[test]
fn rows_from_the_bound_down_are_not_read() {
    let mut grid = grid_of(&["~.", "##", "~."]);
    assert_eq!(step(&mut grid, 2, Mode::Exact), (true, 1));
    assert_eq!(rows_of(&grid, Mode::Exact), ["~~", "##", "~."]);
    assert_eq!(step(&mut grid, 1, Mode::Exact), (false, 1));
    assert_eq!(step(&mut grid, 3, Mode::Exact), (true, 3));
    assert_eq!(rows_of(&grid, Mode::Exact), ["~~", "##", "~~"]);
}

#[test]
fn grid_without_cells_rests() {
    let mut empty = Grid::from_raw(0, 0, Vec::new()).unwrap();
    assert_eq!(step(&mut empty, 0, Mode::Exact), (false, 0));
    let mut flat = Grid::from_raw(0, 4, Vec::new()).unwrap();
    assert_eq!(step(&mut flat, 4, Mode::Approximate), (false, 4));
}

#[test]
fn gray_is_a_wall_only_under_the_approximate_policy() {
    let mut exact = grid_of(&["~", "g"]);
    assert_eq!(step(&mut exact, 2, Mode::Exact), (true, 2));
    assert_eq!(exact.get(0, 1), Cell::Water.color());

    let mut approximate = grid_of(&["~", "g"]);
    assert_eq!(step(&mut approximate, 2, Mode::Approximate), (false, 2));
    assert_eq!(rows_of(&approximate, Mode::Approximate), ["~", "#"]);
}

#[test]
fn narrowed_scan_finds_the_move_of_the_full_scan() {
    let start = ["..~..", ".....", ".#.#.", ".....", "#####"];
    let mut narrowed = grid_of(&start);
    let mut full = grid_of(&start);
    let mut bound = narrowed.height();
    let mut steps = 0;
    loop {
        let height = full.height();
        let (moved, next) = step(&mut narrowed, bound, Mode::Exact);
        let (moved_full, next_full) = step(&mut full, height, Mode::Exact);
        assert_eq!(moved, moved_full);
        assert_eq!(rows_of(&narrowed, Mode::Exact), rows_of(&full, Mode::Exact));
        if !moved {
            break;
        }
        assert_eq!(next, next_full);
        bound = next;
        steps += 1;
    }
    assert_eq!(rows_of(&full, Mode::Exact), ["~~~~~", "~~~~~", "~#~#~", "~~~~~", "#####"]);
    assert!(steps <= 18);
}

#[test]
fn bound_after_a_fall_covers_the_row_that_was_filled() {
    let mut grid = grid_of(&["~", ".", ".", "#"]);
    assert_eq!(step(&mut grid, 4, Mode::Exact), (true, 2));
    assert_eq!(step(&mut grid, 2, Mode::Exact), (true, 3));
    assert_eq!(rows_of(&grid, Mode::Exact), ["~", "~", "~", "#"]);
    assert_eq!(step(&mut grid, 3, Mode::Exact), (false, 3));
}

#[test]
fn wide_row_is_scanned_whole() {
    let width = 1000usize;
    let mut top = String::new();
    for x in 0..width {
        top.push(if x % 7 == 3 { '~' } else { '#' });
    }
    let below = ".".repeat(width);
    let mut grid = grid_of(&[&top, &below]);
    assert_eq!(step(&mut grid, 2, Mode::Exact), (true, 2));
    for x in 0..width {
        let expected = if x % 7 == 3 { Cell::Water } else { Cell::Air };
        assert_eq!(grid.cell_at(x as u32, 1, Mode::Exact), expected);
    }
}
