//! Colours and the kinds of cell they stand for.

use vstd::prelude::*;

verus! {

/// Every channel of a colour that the approximate policy reads as a wall lies
/// below this value.
pub const WALL_THRESHOLD: u8 = 150;

/// A colour of three channels.
#[derive(Clone, Copy, PartialEq, Eq, Structural, Debug)]
pub struct Color {
    pub r: u8,
    pub g: u8,
    pub b: u8,
}

/// How a colour is read.
#[derive(Clone, Copy, PartialEq, Eq, Structural, Debug)]
pub enum Mode {
    /// Only the three canonical colours have a meaning.
    Exact,
    /// Dark colours count as walls too.
    Approximate,
}

/// What a pixel stands for.
#[derive(Clone, Copy, PartialEq, Eq, Structural, Debug)]
pub enum Cell {
    /// An obstacle. Water never enters it.
    Wall,
    /// The material that moves.
    Water,
    /// Empty space, the only kind of cell that water moves into.
    Air,
}

impl Color {
    /// Black, the colour of a wall.
    pub open spec fn wall() -> Color {
        Color { r: 0, g: 0, b: 0 }
    }

    /// Blue, the colour of water.
    pub open spec fn water() -> Color {
        Color { r: 0, g: 0, b: 255 }
    }

    /// White, the colour of air.
    pub open spec fn air() -> Color {
        Color { r: 255, g: 255, b: 255 }
    }

    /// Whether every channel lies below the wall threshold.
    pub open spec fn is_dark(self) -> bool {
        self.r < WALL_THRESHOLD && self.g < WALL_THRESHOLD && self.b < WALL_THRESHOLD
    }
}

impl Cell {
    /// The cell that one of the three canonical colours stands for, and `None`
    /// for every other colour.
    pub open spec fn spec_from_pixel(pixel: Color) -> Option<Cell> {
        if pixel == Color::wall() {
            Some(Cell::Wall)
        } else if pixel == Color::water() {
            Some(Cell::Water)
        } else if pixel == Color::air() {
            Some(Cell::Air)
        } else {
            None
        }
    }

    /// The cell that a colour stands for when dark colours count as walls:
    /// black and blue keep their meaning, and nothing else has one.
    pub open spec fn spec_from_pixel_approximate(pixel: Color) -> Option<Cell> {
        if pixel == Color::water() {
            Some(Cell::Water)
        } else if pixel.is_dark() {
            Some(Cell::Wall)
        } else {
            None
        }
    }

    /// The cell that a colour stands for under a policy. A colour without a
    /// meaning is air.
    pub open spec fn spec_classify(pixel: Color, mode: Mode) -> Cell {
        let known = match mode {
            Mode::Exact => Cell::spec_from_pixel(pixel),
            Mode::Approximate => Cell::spec_from_pixel_approximate(pixel),
        };
        match known {
            Some(cell) => cell,
            None => Cell::Air,
        }
    }

    /// The colour that a cell is drawn in.
    pub open spec fn spec_color(self) -> Color {
        match self {
            Cell::Wall => Color::wall(),
            Cell::Water => Color::water(),
            Cell::Air => Color::air(),
        }
    }

    /// Reads a pixel by the exact policy.
    pub fn from_pixel(pixel: &Color) -> (cell: Option<Cell>)
        ensures
            cell == Cell::spec_from_pixel(*pixel),
    {
        if pixel.r == 0 && pixel.g == 0 && pixel.b == 0 {
            Some(Cell::Wall)
        } else if pixel.r == 0 && pixel.g == 0 && pixel.b == 255 {
            Some(Cell::Water)
        } else if pixel.r == 255 && pixel.g == 255 && pixel.b == 255 {
            Some(Cell::Air)
        } else {
            None
        }
    }

    /// Reads a pixel by the approximate policy.
    pub fn from_pixel_approximate(pixel: &Color) -> (cell: Option<Cell>)
        ensures
            cell == Cell::spec_from_pixel_approximate(*pixel),
    {
        if pixel.r == 0 && pixel.g == 0 && pixel.b == 0 {
            Some(Cell::Wall)
        } else if pixel.r == 0 && pixel.g == 0 && pixel.b == 255 {
            Some(Cell::Water)
        } else if pixel.r < WALL_THRESHOLD && pixel.g < WALL_THRESHOLD && pixel.b < WALL_THRESHOLD {
            Some(Cell::Wall)
        } else {
            None
        }
    }

    /// Reads a pixel by the given policy. Every colour has a cell: one that the
    /// policy does not know is air.
    pub fn classify(pixel: &Color, mode: Mode) -> (cell: Cell)
        ensures
            cell == Cell::spec_classify(*pixel, mode),
    {
        let known = match mode {
            Mode::Exact => Cell::from_pixel(pixel),
            Mode::Approximate => Cell::from_pixel_approximate(pixel),
        };
        match known {
            Some(cell) => cell,
            None => Cell::Air,
        }
    }

    /// The canonical colour of this kind of cell.
    pub fn color(self) -> (color: Color)
        ensures
            color == self.spec_color(),
    {
        match self {
            Cell::Wall => Color { r: 0, g: 0, b: 0 },
            Cell::Water => Color { r: 0, g: 0, b: 255 },
            Cell::Air => Color { r: 255, g: 255, b: 255 },
        }
    }
}

/// Each colour is exactly one kind of cell under the exact policy: a wall if
/// and only if it is black, water if and only if it is blue, and air in every
/// other case.
pub proof fn lemma_exact_classification_is_total(pixel: Color)
    ensures
        Cell::spec_classify(pixel, Mode::Exact) == Cell::Wall <==> pixel == Color::wall(),
        Cell::spec_classify(pixel, Mode::Exact) == Cell::Water <==> pixel == Color::water(),
        Cell::spec_classify(pixel, Mode::Exact) == Cell::Air <==> pixel != Color::wall() && pixel
            != Color::water(),
{
}

/// Under the approximate policy a colour is water if and only if it is blue,
/// a wall if and only if all its channels lie below the threshold, and air in
/// every other case. A colour with a channel at the threshold is therefore
/// not a wall.
pub proof fn lemma_approximate_classification(pixel: Color)
    ensures
        Cell::spec_classify(pixel, Mode::Approximate) == Cell::Water <==> pixel == Color::water(),
        Cell::spec_classify(pixel, Mode::Approximate) == Cell::Wall <==> pixel.is_dark(),
        Cell::spec_classify(pixel, Mode::Approximate) == Cell::Air <==> !pixel.is_dark() && pixel
            != Color::water(),
{
}

/// A cell drawn in its canonical colour reads as that cell again, whatever
/// the policy.
pub proof fn lemma_canonical_color_reads_back(cell: Cell, mode: Mode)
    ensures
        Cell::spec_classify(cell.spec_color(), mode) == cell,
{
}

} // verus!
