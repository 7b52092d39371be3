//! The compositor: a grayscale raster and a character ramp, rendered as
//! text or as a raster of glyph cells. Both renderings choose the character
//! of a pixel in the same way, by quantizing its sample.

use crate::glyph::{ramp_cells, ramp_obstacle, Glyph, GlyphCache, RasterError};
use crate::quantize::{quantize, quantize_index};
use crate::raster::{rectangular, GrayImage};
use crate::text::{format_grid, format_lines, texts};
use vstd::prelude::*;

verus! {

/// The ramp character of a luminance sample.
pub open spec fn ramp_char(ramp: Seq<char>, sample: u8) -> char {
    ramp[quantize_index(sample as int, ramp.len() as int)]
}

/// The characters of one row of samples.
pub open spec fn char_row(ramp: Seq<char>, samples: Seq<u8>) -> Seq<char> {
    Seq::new(samples.len(), |x: int| ramp_char(ramp, samples[x]))
}

/// The character grid of a raster: one character for each pixel.
pub open spec fn char_grid(ramp: Seq<char>, rows: Seq<Seq<u8>>) -> Seq<Seq<char>> {
    Seq::new(rows.len(), |y: int| char_row(ramp, rows[y]))
}

/// The sample at column `px` of row `py` inside the block at column `bx` of
/// row `by`, in a canvas made of square blocks of side `cell`.
pub open spec fn block_sample(
    canvas: Seq<Seq<u8>>,
    cell: nat,
    bx: int,
    by: int,
    px: int,
    py: int,
) -> u8 {
    canvas[by * cell + py][bx * cell + px]
}

/// Whether the blocks of a canvas that come before block `bx` of block row
/// `by`, row by row, each hold the cell of the character of their pixel.
pub open spec fn shows_cells_before(
    canvas: Seq<Seq<u8>>,
    cell: nat,
    rows: Seq<Seq<u8>>,
    width: nat,
    ramp: Seq<char>,
    cells: Map<char, Seq<Seq<u8>>>,
    bx_end: int,
    by_end: int,
) -> bool {
    forall|bx: int, by: int, px: int, py: int|
        0 <= by < rows.len() && 0 <= bx < width && 0 <= py < cell && 0 <= px < cell && (by
            < by_end || (by == by_end && bx < bx_end)) ==> #[trigger] block_sample(
            canvas,
            cell,
            bx,
            by,
            px,
            py,
        ) == cells[ramp_char(ramp, rows[by][bx])][py][px]
}

/// Whether every block of a canvas holds the cell of the character of its
/// pixel: the block of the pixel at column `bx` of row `by` has its top
/// left corner at column `bx * cell` of row `by * cell`.
pub open spec fn shows_cells(
    canvas: Seq<Seq<u8>>,
    cell: nat,
    rows: Seq<Seq<u8>>,
    width: nat,
    ramp: Seq<char>,
    cells: Map<char, Seq<Seq<u8>>>,
) -> bool {
    shows_cells_before(canvas, cell, rows, width, ramp, cells, 0, rows.len() as int)
}

/// Whether a canvas of one cell for each pixel can be made: its sides fit
/// in 32 bits and its samples in a vector.
pub open spec fn canvas_fits(width: nat, height: nat, cell: nat) -> bool {
    &&& width * cell <= u32::MAX
    &&& height * cell <= u32::MAX
    &&& (width * cell) * (height * cell) <= isize::MAX
}

/// A position inside a block lies inside the canvas, and the block ends
/// where the next one starts or the canvas ends.
pub proof fn block_span(b: int, p: int, cell: int, count: int)
    requires
        0 <= b < count,
        0 <= p < cell,
    ensures
        0 <= b * cell <= b * cell + p < b * cell + cell <= count * cell,
{
    assert(0 <= b * cell && b * cell + cell <= count * cell) by (nonlinear_arith)
        requires
            0 <= b < count,
            0 < cell,
    ;
}

/// A position inside one block lies outside every other block.
pub proof fn blocks_apart(b: int, p: int, other: int, cell: int)
    requires
        0 <= p < cell,
        b != other,
    ensures
        !(other * cell <= b * cell + p < other * cell + cell),
{
    assert(b < other ==> b * cell + cell <= other * cell) by (nonlinear_arith)
        requires
            0 < cell,
    ;
    assert(other < b ==> other * cell + cell <= b * cell) by (nonlinear_arith)
        requires
            0 < cell,
    ;
}

/// Copies a square raster of side `side` into the canvas, its top left
/// corner to column `x0` of row `y0`.
pub fn paste(canvas: &mut GrayImage, cell: &GrayImage, x0: u32, y0: u32, side: u32)
    requires
        old(canvas).wf(),
        cell.wf(),
        cell.spec_width() == side,
        cell.spec_height() == side,
        x0 + side <= old(canvas).spec_width(),
        y0 + side <= old(canvas).spec_height(),
    ensures
        final(canvas).wf(),
        final(canvas).spec_width() == old(canvas).spec_width(),
        final(canvas).spec_height() == old(canvas).spec_height(),
        final(canvas).buffer_len() == old(canvas).buffer_len(),
        forall|x: int, y: int|
            0 <= y < old(canvas).spec_height() && 0 <= x < old(canvas).spec_width()
                ==> #[trigger] final(canvas).rows()[y][x] == if x0 <= x < x0 + side && y0 <= y < y0
                + side {
                cell.rows()[y - y0][x - x0]
            } else {
                old(canvas).rows()[y][x]
            },
{
    let ghost original = canvas.rows();
    let ghost width = canvas.spec_width();
    let ghost height = canvas.spec_height();
    let ghost length = canvas.buffer_len();
    let mut sy: u32 = 0;
    while sy < side
        invariant
            sy <= side,
            cell.wf(),
            cell.spec_width() == side,
            cell.spec_height() == side,
            canvas.spec_width() == width,
            canvas.spec_height() == height,
            canvas.buffer_len() == length,
            rectangular(canvas.rows(), width),
            rectangular(original, width),
            original.len() == height,
            x0 + side <= width <= u32::MAX,
            y0 + side <= height <= u32::MAX,
            forall|x: int, y: int|
                0 <= y < height && 0 <= x < width ==> #[trigger] canvas.rows()[y][x] == if x0 <= x
                    < x0 + side && y0 <= y < y0 + sy {
                    cell.rows()[y - y0][x - x0]
                } else {
                    original[y][x]
                },
        decreases side - sy,
    {
        let mut sx: u32 = 0;
        while sx < side
            invariant
                sx <= side,
                sy < side,
                cell.wf(),
                cell.spec_width() == side,
                cell.spec_height() == side,
                canvas.spec_width() == width,
                canvas.spec_height() == height,
                canvas.buffer_len() == length,
                rectangular(canvas.rows(), width),
                rectangular(original, width),
                original.len() == height,
                x0 + side <= width <= u32::MAX,
                y0 + side <= height <= u32::MAX,
                forall|x: int, y: int|
                    0 <= y < height && 0 <= x < width ==> #[trigger] canvas.rows()[y][x] == if x0
                        <= x < x0 + side && (y0 <= y < y0 + sy || (y == y0 + sy && x < x0 + sx)) {
                        cell.rows()[y - y0][x - x0]
                    } else {
                        original[y][x]
                    },
            decreases side - sx,
        {
            let value: u8 = cell.sample(sx, sy);
            canvas.set_sample(x0 + sx, y0 + sy, value);
            sx = sx + 1;
        }
        sy = sy + 1;
    }
}

/// A grayscale raster with the ramp of characters that renders it, from
/// the darkest character to the lightest.
pub struct AsciiImage {
    image: GrayImage,
    ramp: Vec<char>,
}

impl AsciiImage {
    /// The raster.
    pub closed spec fn image(&self) -> GrayImage {
        self.image
    }

    /// The ramp.
    pub closed spec fn ramp(&self) -> Seq<char> {
        self.ramp@
    }

    /// The ramp is not empty, so that every sample has a character.
    pub open spec fn wf(&self) -> bool {
        self.ramp().len() > 0
    }

    /// The characters of the pixels.
    pub open spec fn grid(&self) -> Seq<Seq<char>> {
        char_grid(self.ramp(), self.image().rows())
    }

    /// What keeps the raster from being rendered with the glyphs given for
    /// the ramp: first what keeps the ramp from being rasterized, then a
    /// canvas that is too large.
    pub open spec fn raster_obstacle(&self, glyphs: Seq<Glyph>, cell: nat) -> Option<RasterError> {
        match ramp_obstacle(self.ramp(), glyphs, cell) {
            Some(error) => Some(error),
            None => if canvas_fits(self.image().spec_width(), self.image().spec_height(), cell) {
                None
            } else {
                Some(RasterError::CanvasTooLarge)
            },
        }
    }

    /// Joins a raster and a ramp, unless the ramp is empty.
    pub fn new(image: GrayImage, ramp: Vec<char>) -> (made: Option<AsciiImage>)
        ensures
            made is Some <==> ramp@.len() > 0,
            made matches Some(ascii) ==> ascii.wf() && ascii.image() == image && ascii.ramp()
                == ramp@,
    {
        if ramp.len() == 0 {
            None
        } else {
            Some(AsciiImage { image, ramp })
        }
    }

    /// Text mode: the character of every pixel, row by row.
    pub fn to_grid(&self) -> (grid: Vec<Vec<char>>)
        requires
            self.wf(),
        ensures
            texts(grid@) == self.grid(),
    {
        let (width, height) = self.image.dimensions();
        let ghost rows = self.image.rows();
        let ghost ramp = self.ramp@;
        let mut grid: Vec<Vec<char>> = Vec::new();
        let mut y: u32 = 0;
        while y < height
            invariant
                y <= height,
                self.wf(),
                rows == self.image.rows(),
                ramp == self.ramp@,
                width == self.image.spec_width(),
                height == self.image.spec_height(),
                rectangular(rows, width as nat),
                grid.len() == y,
                forall|j: int| 0 <= j < y ==> (#[trigger] grid[j])@ == char_row(ramp, rows[j]),
            decreases height - y,
        {
            let mut line: Vec<char> = Vec::new();
            let mut x: u32 = 0;
            while x < width
                invariant
                    x <= width,
                    y < height,
                    self.wf(),
                    rows == self.image.rows(),
                    ramp == self.ramp@,
                    width == self.image.spec_width(),
                    height == self.image.spec_height(),
                    rectangular(rows, width as nat),
                    line.len() == x,
                    forall|i: int|
                        0 <= i < x ==> #[trigger] line[i] == ramp_char(ramp, rows[y as int][i]),
                decreases width - x,
            {
                let sample: u8 = self.image.sample(x, y);
                let index: usize = quantize(sample, self.ramp.len());
                line.push(self.ramp[index]);
                x = x + 1;
            }
            assert(line@ =~= char_row(ramp, rows[y as int]));
            grid.push(line);
            y = y + 1;
        }
        assert(texts(grid@) =~= char_grid(ramp, rows));
        grid
    }

    /// Text mode: the character of every pixel written twice, the rows
    /// joined by carriage return and line feed.
    pub fn to_text(&self) -> (text: String)
        requires
            self.wf(),
        ensures
            text@ == format_lines(self.grid()),
    {
        let grid = self.to_grid();
        format_grid(&grid)
    }

    /// Raster mode with the cells at hand: a canvas of one cell for each
    /// pixel, the cell of the character of the pixel.
    pub fn composite(&self, cache: &GlyphCache) -> (made: Result<GrayImage, RasterError>)
        requires
            self.wf(),
            cache.wf(),
            forall|ch: char| self.ramp().contains(ch) ==> #[trigger] cache@.contains_key(ch),
        ensures
            match made {
                Ok(canvas) => {
                    &&& canvas_fits(
                        self.image().spec_width(),
                        self.image().spec_height(),
                        cache.spec_cell(),
                    )
                    &&& canvas.wf()
                    &&& canvas.packed()
                    &&& canvas.spec_width() == self.image().spec_width() * cache.spec_cell()
                    &&& canvas.spec_height() == self.image().spec_height() * cache.spec_cell()
                    &&& shows_cells(
                        canvas.rows(),
                        cache.spec_cell(),
                        self.image().rows(),
                        self.image().spec_width(),
                        self.ramp(),
                        cache@,
                    )
                },
                Err(error) => error == RasterError::CanvasTooLarge && !canvas_fits(
                    self.image().spec_width(),
                    self.image().spec_height(),
                    cache.spec_cell(),
                ),
            },
    {
        let (width, height) = self.image.dimensions();
        let cell: u32 = cache.cell_size();
        assert(width * cell <= u32::MAX * u32::MAX && height * cell <= u32::MAX * u32::MAX)
            by (nonlinear_arith)
            requires
                0 <= width <= u32::MAX,
                0 <= height <= u32::MAX,
                0 <= cell <= u32::MAX,
        ;
        let wide: u64 = (width as u64) * (cell as u64);
        let high: u64 = (height as u64) * (cell as u64);
        if wide > u32::MAX as u64 || high > u32::MAX as u64 {
            return Err(RasterError::CanvasTooLarge);
        }
        assert(wide * high <= u32::MAX * u32::MAX) by (nonlinear_arith)
            requires
                0 <= wide <= u32::MAX,
                0 <= high <= u32::MAX,
        ;
        if (wide as u128) * (high as u128) > isize::MAX as u128 {
            return Err(RasterError::CanvasTooLarge);
        }
        let mut canvas = GrayImage::blank(wide as u32, high as u32);
            let ghost rows = self.image.rows();
        let ghost ramp = self.ramp@;
        let mut iy: u32 = 0;
        while iy < height
            invariant
                iy <= height,
                self.wf(),
                cache.wf(),
                forall|ch: char| self.ramp().contains(ch) ==> #[trigger] cache@.contains_key(ch),
                rows == self.image.rows(),
                ramp == self.ramp@,
                width == self.image.spec_width(),
                height == self.image.spec_height(),
                rectangular(rows, width as nat),
                cell == cache.spec_cell(),
                wide == width * cell,
                high == height * cell,
                canvas.wf(),
                canvas.packed(),
                canvas.spec_width() == wide,
                canvas.spec_height() == high,
                shows_cells_before(canvas.rows(), cell as nat, rows, width as nat, ramp, cache@, 0, iy as int),
            decreases height - iy,
        {
            let mut ix: u32 = 0;
            while ix < width
                invariant
                    ix <= width,
                    iy < height,
                    self.wf(),
                    cache.wf(),
                    forall|ch: char|
                        self.ramp().contains(ch) ==> #[trigger] cache@.contains_key(ch),
                    rows == self.image.rows(),
                    ramp == self.ramp@,
                    width == self.image.spec_width(),
                    height == self.image.spec_height(),
                    rectangular(rows, width as nat),
                    cell == cache.spec_cell(),
                    wide == width * cell,
                    high == height * cell,
                    canvas.wf(),
                    canvas.packed(),
                    canvas.spec_width() == wide,
                    canvas.spec_height() == high,
                    shows_cells_before(
                        canvas.rows(),
                        cell as nat,
                        rows,
                        width as nat,
                        ramp,
                        cache@,
                        ix as int,
                        iy as int,
                    ),
                decreases width - ix,
            {
                let sample: u8 = self.image.sample(ix, iy);
                let index: usize = quantize(sample, self.ramp.len());
                let ch: char = self.ramp[index];
                assert(ramp.contains(ch));
                assert(ch == ramp_char(ramp, rows[iy as int][ix as int]));
                let ghost before = canvas.rows();
                if cell > 0 {
                    proof {
                        block_span(ix as int, 0, cell as int, width as int);
                        block_span(iy as int, 0, cell as int, height as int);
                    }
                    if let Some(bitmap) = cache.get(ch) {
                        paste(&mut canvas, bitmap, ix * cell, iy * cell, cell);
                        assert forall|bx: int, by: int, px: int, py: int|
                            0 <= by < rows.len() && 0 <= bx < width && 0 <= py < cell && 0 <= px
                                < cell && (by < iy || (by == iy && bx < ix + 1)) implies #[trigger] block_sample(
                            canvas.rows(),
                            cell as nat,
                            bx,
                            by,
                            px,
                            py,
                        ) == cache@[ramp_char(ramp, rows[by][bx])][py][px] by {
                            block_span(bx, px, cell as int, width as int);
                            block_span(by, py, cell as int, height as int);
                            if bx == ix && by == iy {
                            } else {
                                if bx != ix {
                                    blocks_apart(bx, px, ix as int, cell as int);
                                }
                                if by != iy {
                                    blocks_apart(by, py, iy as int, cell as int);
                                }
                                assert(block_sample(before, cell as nat, bx, by, px, py)
                                    == cache@[ramp_char(ramp, rows[by][bx])][py][px]);
                            }
                        }
                    }
                }
                ix = ix + 1;
            }
            iy = iy + 1;
        }
        Ok(canvas)
    }

    /// Raster mode: draws the cell of every ramp character from the glyph
    /// given for it, `glyphs[i]` for the `i`-th character of the ramp, and
    /// renders the raster as a canvas of one cell for each pixel.
    pub fn rasterize(&self, glyphs: &Vec<Glyph>, cell: u32) -> (made: Result<
        GrayImage,
        RasterError,
    >)
        requires
            self.wf(),
        ensures
            match made {
                Ok(canvas) => {
                    &&& self.raster_obstacle(glyphs@, cell as nat) is None
                    &&& canvas.wf()
                    &&& canvas.packed()
                    &&& canvas.spec_width() == self.image().spec_width() * cell
                    &&& canvas.spec_height() == self.image().spec_height() * cell
                    &&& shows_cells(
                        canvas.rows(),
                        cell as nat,
                        self.image().rows(),
                        self.image().spec_width(),
                        self.ramp(),
                        ramp_cells(self.ramp(), glyphs@, cell as nat),
                    )
                },
                Err(error) => self.raster_obstacle(glyphs@, cell as nat) == Some(error),
            },
    {
        match GlyphCache::build(&self.ramp, glyphs, cell) {
            Ok(cache) => self.composite(&cache),
            Err(error) => Err(error),
        }
    }
}

} // verus!
