//! The simulation grid: an RGB image whose pixels are read as cells.

use crate::cell::{Cell, Color, Mode};
use image::RgbImage;
use vstd::prelude::*;

verus! {

/// A dense grid of colours, `width` across and `height` down, with row 0 at
/// the top.
///
/// The grid is stored in an `image::RgbImage`. That type is bounded by a
/// trait of its crate and cannot be declared to Verus, so this struct hides
/// it: all that is known of a grid is what `grid_dimensions` and
/// `grid_pixels` say of it, and what the functions below that call into the
/// image state over the two.
#[verifier::external_body]
pub struct Grid {
    image: RgbImage,
}

/// The width and the height of the image behind a grid, as
/// `ImageBuffer::dimensions` gives them.
pub uninterp spec fn grid_dimensions(grid: Grid) -> (u32, u32);

/// The colour that the image behind a grid holds at each coordinate `(x, y)`
/// within its dimensions.
pub uninterp spec fn grid_pixels(grid: Grid) -> Map<(int, int), Color>;

/// What a grid is, mathematically: its extent and a colour for each
/// coordinate within it.
pub struct GridView {
    pub width: nat,
    pub height: nat,
    pub pixels: Map<(int, int), Color>,
}

impl GridView {
    /// Whether `(x, y)` lies on the grid.
    pub open spec fn contains(self, x: int, y: int) -> bool {
        0 <= x < self.width && 0 <= y < self.height
    }

    /// A grid has a colour at the coordinates that lie on it and nowhere
    /// else, and its extent fits the coordinates' type.
    pub open spec fn wf(self) -> bool {
        &&& self.width <= u32::MAX
        &&& self.height <= u32::MAX
        &&& forall|p: (int, int)| #[trigger] self.pixels.dom().contains(p) <==> self.contains(p.0, p.1)
    }

    /// The colour at `(x, y)`.
    pub open spec fn color_at(self, x: int, y: int) -> Color {
        self.pixels[(x, y)]
    }

    /// The cell at `(x, y)` under a policy.
    pub open spec fn cell_at(self, x: int, y: int, mode: Mode) -> Cell {
        Cell::spec_classify(self.color_at(x, y), mode)
    }

    /// Whether `(x, y)` lies on the grid and holds water.
    pub open spec fn is_water(self, x: int, y: int, mode: Mode) -> bool {
        self.contains(x, y) && self.cell_at(x, y, mode) == Cell::Water
    }

    /// Whether `(x, y)` lies on the grid and holds air.
    pub open spec fn is_air(self, x: int, y: int, mode: Mode) -> bool {
        self.contains(x, y) && self.cell_at(x, y, mode) == Cell::Air
    }

    /// The grid of the same extent whose colour at each `(x, y)` is
    /// `color(x, y)`.
    pub open spec fn painted(self, color: spec_fn(int, int) -> Color) -> GridView {
        GridView {
            width: self.width,
            height: self.height,
            pixels: Map::new(
                |p: (int, int)| self.contains(p.0, p.1),
                |p: (int, int)| color(p.0, p.1),
            ),
        }
    }

    /// The grid with the colour at `(x, y)` replaced.
    pub open spec fn with_color(self, x: int, y: int, color: Color) -> GridView {
        GridView { width: self.width, height: self.height, pixels: self.pixels.insert((x, y), color) }
    }

    /// The grid with every pixel redrawn in the canonical colour of the cell
    /// that it stands for under `mode`.
    pub open spec fn normalized(self, mode: Mode) -> GridView {
        self.painted(|x: int, y: int| self.cell_at(x, y, mode).spec_color())
    }

    /// The grid that `width * height` pixels of three bytes each describe,
    /// row after row from the top and each row from the left.
    pub open spec fn from_bytes(width: nat, height: nat, data: Seq<u8>) -> GridView {
        GridView {
            width,
            height,
            pixels: Map::new(
                |p: (int, int)| 0 <= p.0 < width && 0 <= p.1 < height,
                |p: (int, int)| spec_color_in(data, 3 * (p.1 * width + p.0)),
            ),
        }
    }
}

/// The grid on the way to its normal form, redrawn column after column from
/// the left and each column from the top, up to but not including `(x, y)`.
spec fn redrawn(g: GridView, mode: Mode, x: int, y: int) -> GridView {
    g.painted(
        |tx: int, ty: int|
            if tx < x || (tx == x && ty < y) {
                g.cell_at(tx, ty, mode).spec_color()
            } else {
                g.color_at(tx, ty)
            },
    )
}

/// The colour whose three channels stand in `data` from index `at` on.
pub open spec fn spec_color_in(data: Seq<u8>, at: int) -> Color {
    Color { r: data[at], g: data[at + 1], b: data[at + 2] }
}

/// `ImageBuffer::from_raw` on an RGB image with a `Vec<u8>` behind it. It
/// refuses the bytes when three bytes for each pixel are more than `usize`
/// can count or more than `data` holds. Otherwise the image has the
/// dimensions given, and its pixel at `(x, y)` is the three bytes that start
/// at index `3 * (y * width + x)`.
#[verifier::external_body]
fn image_from_raw(width: u32, height: u32, data: Vec<u8>) -> (grid: Option<Grid>)
    ensures
        grid.is_some() == (3 * width <= usize::MAX && 3 * width * height <= data@.len()),
        grid.is_some() ==> grid_dimensions(grid.unwrap()) == (width, height),
        grid.is_some() ==> (forall|x: int, y: int|
            0 <= x < width && 0 <= y < height ==> #[trigger] grid_pixels(grid.unwrap())[(x, y)]
                == spec_color_in(data@, 3 * (y * width + x))),
{
    RgbImage::from_raw(width, height, data).map(|image| Grid { image })
}

/// `ImageBuffer::into_raw`: the bytes behind the image, which hold at least
/// three bytes for each pixel, those of the pixel at `(x, y)` from index
/// `3 * (y * width + x)` on.
#[verifier::external_body]
fn image_into_raw(grid: Grid) -> (data: Vec<u8>)
    ensures
        data@.len() >= 3 * grid_dimensions(grid).0 * grid_dimensions(grid).1,
        forall|x: int, y: int|
            0 <= x < grid_dimensions(grid).0 && 0 <= y < grid_dimensions(grid).1
                ==> spec_color_in(data@, 3 * (y * grid_dimensions(grid).0 + x))
                == #[trigger] grid_pixels(grid)[(x, y)],
{
    grid.image.into_raw()
}

/// `ImageBuffer::width`: the first of the image's dimensions.
#[verifier::external_body]
fn image_width(grid: &Grid) -> (width: u32)
    ensures
        width == grid_dimensions(*grid).0,
{
    grid.image.width()
}

/// `ImageBuffer::height`: the second of the image's dimensions.
#[verifier::external_body]
fn image_height(grid: &Grid) -> (height: u32)
    ensures
        height == grid_dimensions(*grid).1,
{
    grid.image.height()
}

/// `ImageBuffer::get_pixel`, which panics outside the image's dimensions.
/// Within them it gives the pixel at `(x, y)`, whose three channels are
/// handed out as a `Color`.
#[verifier::external_body]
fn image_get_pixel(grid: &Grid, x: u32, y: u32) -> (color: Color)
    requires
        x < grid_dimensions(*grid).0,
        y < grid_dimensions(*grid).1,
    ensures
        color == grid_pixels(*grid)[(x as int, y as int)],
{
    let pixel = grid.image.get_pixel(x, y);
    Color { r: pixel.0[0], g: pixel.0[1], b: pixel.0[2] }
}

/// `ImageBuffer::put_pixel`, which panics outside the image's dimensions.
/// Within them it replaces the pixel at `(x, y)` and leaves every other pixel
/// and the dimensions as they were.
#[verifier::external_body]
fn image_put_pixel(grid: &mut Grid, x: u32, y: u32, color: Color)
    requires
        x < grid_dimensions(*old(grid)).0,
        y < grid_dimensions(*old(grid)).1,
    ensures
        grid_dimensions(*final(grid)) == grid_dimensions(*old(grid)),
        grid_pixels(*final(grid)) == grid_pixels(*old(grid)).insert((x as int, y as int), color),
{
    grid.image.put_pixel(x, y, image::Rgb([color.r, color.g, color.b]));
}

/// `ImageBuffer::clone`: an image of its own with the same dimensions and the
/// same pixels.
#[verifier::external_body]
fn image_clone(grid: &Grid) -> (copy: Grid)
    ensures
        grid_dimensions(copy) == grid_dimensions(*grid),
        grid_pixels(copy) == grid_pixels(*grid),
{
    Grid { image: grid.image.clone() }
}

impl View for Grid {
    type V = GridView;

    /// The grid's extent, and its colours at the coordinates within it.
    open spec fn view(&self) -> GridView {
        GridView {
            width: grid_dimensions(*self).0 as nat,
            height: grid_dimensions(*self).1 as nat,
            pixels: Map::new(
                |p: (int, int)|
                    0 <= p.0 < grid_dimensions(*self).0 && 0 <= p.1 < grid_dimensions(*self).1,
                |p: (int, int)| grid_pixels(*self)[p],
            ),
        }
    }
}

impl Grid {
    /// Builds a grid from the bytes of its pixels, three for each, row after
    /// row. The bytes are refused when there are too few of them for the
    /// extent asked for.
    pub fn from_raw(width: u32, height: u32, data: Vec<u8>) -> (grid: Option<Grid>)
        ensures
            grid.is_some() == (3 * width <= usize::MAX && 3 * width * height <= data@.len()),
            grid.is_some() ==> grid.unwrap()@ == GridView::from_bytes(
                width as nat,
                height as nat,
                data@,
            ),
    {
        let grid = image_from_raw(width, height, data);
        proof {
            if grid.is_some() {
                assert(grid.unwrap()@.pixels =~= GridView::from_bytes(
                    width as nat,
                    height as nat,
                    data@,
                ).pixels);
            }
        }
        grid
    }

    /// Gives up the grid for the bytes of its pixels. The grid can be built
    /// from them again.
    pub fn into_raw(self) -> (data: Vec<u8>)
        ensures
            data@.len() >= 3 * self@.width * self@.height,
            GridView::from_bytes(self@.width, self@.height, data@) == self@,
    {
        let data = image_into_raw(self);
        proof {
            assert(GridView::from_bytes(self@.width, self@.height, data@).pixels =~= self@.pixels);
        }
        data
    }

    /// The number of columns.
    pub fn width(&self) -> (width: u32)
        ensures
            width == self@.width,
    {
        image_width(self)
    }

    /// The number of rows.
    pub fn height(&self) -> (height: u32)
        ensures
            height == self@.height,
    {
        image_height(self)
    }

    /// The colour at `(x, y)`.
    pub fn get(&self, x: u32, y: u32) -> (color: Color)
        requires
            self@.contains(x as int, y as int),
        ensures
            color == self@.color_at(x as int, y as int),
    {
        image_get_pixel(self, x, y)
    }

    /// Replaces the colour at `(x, y)`.
    pub fn set(&mut self, x: u32, y: u32, color: Color)
        requires
            old(self)@.contains(x as int, y as int),
        ensures
            final(self)@ == old(self)@.with_color(x as int, y as int, color),
    {
        image_put_pixel(self, x, y, color);
        proof {
            assert(self@.pixels =~= old(self)@.with_color(x as int, y as int, color).pixels);
        }
    }

    /// A copy of the grid that later changes to the grid do not reach.
    pub fn snapshot(&self) -> (copy: Grid)
        ensures
            copy@ == self@,
    {
        image_clone(self)
    }

    /// Redraws every pixel in the canonical colour of the cell that it stands
    /// for under `mode`: black for a wall, blue for water, white for air.
    pub fn normalize(&mut self, mode: Mode)
        ensures
            final(self)@ == old(self)@.normalized(mode),
    {
        let width = self.width();
        let height = self.height();
        let ghost before = self@;
        proof {
            assert(self@.pixels =~= redrawn(before, mode, 0, 0).pixels);
        }
        let mut x: u32 = 0;
        while x < width
            invariant
                x <= width,
                width == before.width,
                height == before.height,
                self@ == redrawn(before, mode, x as int, 0),
            decreases width - x,
        {
            let mut y: u32 = 0;
            while y < height
                invariant
                    x < width,
                    y <= height,
                    width == before.width,
                    height == before.height,
                    self@ == redrawn(before, mode, x as int, y as int),
                decreases height - y,
            {
                let cell = self.cell_at(x, y, mode);
                self.set(x, y, cell.color());
                proof {
                    assert(self@.pixels =~= redrawn(before, mode, x as int, y + 1).pixels);
                }
                y += 1;
            }
            proof {
                assert(self@.pixels =~= redrawn(before, mode, x + 1, 0).pixels);
            }
            x += 1;
        }
        proof {
            assert(self@.pixels =~= before.normalized(mode).pixels);
        }
    }

    /// The cell at `(x, y)` under a policy.
    pub fn cell_at(&self, x: u32, y: u32, mode: Mode) -> (cell: Cell)
        requires
            self@.contains(x as int, y as int),
        ensures
            cell == self@.cell_at(x as int, y as int, mode),
    {
        let color = self.get(x, y);
        Cell::classify(&color, mode)
    }
}

/// A normalized grid shows under either policy the cells that the grid
/// showed under the policy by which it was normalized.
pub proof fn lemma_normalized_reads_the_same(g: GridView, mode: Mode, x: int, y: int, by: Mode)
    requires
        g.contains(x, y),
    ensures
        g.normalized(mode).cell_at(x, y, by) == g.cell_at(x, y, mode),
{
}

/// The view of every grid is well formed.
pub proof fn lemma_view_wf(grid: Grid)
    ensures
        grid@.wf(),
{
}

} // verus!
