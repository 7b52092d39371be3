//! Glyph rasterization: from the coverage mask that a font rasterizer
//! returns for a character to a square cell, dark ink on white.

use crate::raster::{rectangular, GrayImage};
use std::collections::HashMap;
use vstd::prelude::*;

verus! {

/// What a font rasterizer returns for one character at one size: the size
/// of the ink region and its coverage, row-major from the top left corner,
/// 0 for no ink and 255 for full ink.
#[derive(Clone, Debug, PartialEq, Eq)]
pub struct Glyph {
    pub width: usize,
    pub height: usize,
    pub coverage: Vec<u8>,
}

/// Why a ramp could not be rasterized.
#[derive(Clone, Copy, Debug, PartialEq, Eq)]
pub enum RasterError {
    /// The number of glyphs differs from the number of ramp characters.
    GlyphCount,
    /// The ink region of this character is wider or higher than the cell.
    GlyphTooLarge { ch: char },
    /// A raster of the needed size does not fit in memory.
    CanvasTooLarge,
    /// The coverage of this character has fewer samples than its ink region.
    CoverageTooShort { ch: char },
}

/// The pixel height at which a font is asked for the glyphs of a cell: one
/// pixel less than the side of the cell, a margin against clipping at the
/// edges. A cell without extent leaves no such height.
pub fn requested_height(cell: u32) -> (height: Option<u32>)
    ensures
        cell == 0 ==> height is None,
        cell > 0 ==> height == Some((cell - 1) as u32),
{
    if cell == 0 {
        None
    } else {
        Some(cell - 1)
    }
}

/// A position inside a grid lies inside its row-major buffer.
pub proof fn index_in_grid(x: int, y: int, width: int, height: int)
    requires
        0 <= x < width,
        0 <= y < height,
    ensures
        0 <= y * width + x < width * height,
{
    assert(0 <= y * width && y * width + width <= height * width) by (nonlinear_arith)
        requires
            0 <= y < height,
            0 < width,
    ;
    assert(height * width == width * height) by (nonlinear_arith);
}

impl Glyph {
    /// The column of the cell where the ink region starts: the region is
    /// centred, and an odd margin leaves the extra pixel to the right.
    pub open spec fn left(&self, cell: nat) -> int {
        (cell - self.width) / 2
    }

    /// The row of the cell where the ink region starts.
    pub open spec fn top(&self, cell: nat) -> int {
        (cell - self.height) / 2
    }

    /// What keeps the glyph of `ch` from being drawn in a cell: first an ink
    /// region larger than the cell, then a cell too large for memory, then
    /// a coverage shorter than the ink region.
    pub open spec fn obstacle(&self, ch: char, cell: nat) -> Option<RasterError> {
        if self.height > cell || self.width > cell {
            Some(RasterError::GlyphTooLarge { ch })
        } else if cell * cell > isize::MAX {
            Some(RasterError::CanvasTooLarge)
        } else if self.coverage@.len() < self.width * self.height {
            Some(RasterError::CoverageTooShort { ch })
        } else {
            None
        }
    }

    /// The sample at column `x` of row `y` of the cell once the first
    /// `rows_done` rows of the ink region, and `columns_done` samples of
    /// the next, are drawn: white, but where drawn ink darkens it by its
    /// coverage.
    pub open spec fn sample_after(
        &self,
        cell: nat,
        x: int,
        y: int,
        rows_done: int,
        columns_done: int,
    ) -> u8 {
        let gx = x - self.left(cell);
        let gy = y - self.top(cell);
        if 0 <= gx < self.width && 0 <= gy < self.height && (gy < rows_done || (gy == rows_done
            && gx < columns_done)) {
            (255 - self.coverage@[gy * self.width + gx]) as u8
        } else {
            255u8
        }
    }

    /// The sample at column `x` of row `y` of the finished cell.
    pub open spec fn cell_sample(&self, cell: nat, x: int, y: int) -> u8 {
        self.sample_after(cell, x, y, self.height as int, 0)
    }

    /// The finished cell: a square of side `cell`.
    pub open spec fn cell_rows(&self, cell: nat) -> Seq<Seq<u8>> {
        Seq::new(cell, |y: int| Seq::new(cell, |x: int| self.cell_sample(cell, x, y)))
    }
}

/// Draws the glyph of `ch` centred in a white square cell of side `cell`.
pub fn rasterize_glyph(ch: char, glyph: &Glyph, cell: u32) -> (made: Result<GrayImage, RasterError>)
    ensures
        match made {
            Ok(img) => {
                &&& glyph.obstacle(ch, cell as nat) is None
                &&& img.wf()
                &&& img.packed()
                &&& img.spec_width() == cell
                &&& img.rows() == glyph.cell_rows(cell as nat)
            },
            Err(error) => glyph.obstacle(ch, cell as nat) == Some(error),
        },
{
    let width: usize = glyph.width;
    let height: usize = glyph.height;
    if height > cell as usize || width > cell as usize {
        return Err(RasterError::GlyphTooLarge { ch });
    }
    assert(cell * cell <= u32::MAX * u32::MAX) by (nonlinear_arith)
        requires
            0 <= cell <= u32::MAX,
    ;
    if (cell as u128) * (cell as u128) > isize::MAX as u128 {
        return Err(RasterError::CanvasTooLarge);
    }
    assert(width * height <= cell * cell) by (nonlinear_arith)
        requires
            0 <= width <= cell,
            0 <= height <= cell,
    ;
    if glyph.coverage.len() < width * height {
        return Err(RasterError::CoverageTooShort { ch });
    }
    let mut img = GrayImage::filled(cell, cell, 255);
    let left: u32 = (cell - width as u32) / 2;
    let top: u32 = (cell - height as u32) / 2;
    let mut gy: usize = 0;
    while gy < height
        invariant
            gy <= height,
            width == glyph.width,
            height == glyph.height,
            width <= cell,
            height <= cell,
            left == glyph.left(cell as nat),
            top == glyph.top(cell as nat),
            glyph.coverage@.len() >= width * height,
            width * height <= isize::MAX,
            img.spec_width() == cell,
            img.spec_height() == cell,
            img.buffer_len() == cell * cell,
            rectangular(img.rows(), cell as nat),
            forall|y: int, x: int|
                0 <= y < cell && 0 <= x < cell ==> #[trigger] img.rows()[y][x]
                    == glyph.sample_after(cell as nat, x, y, gy as int, 0),
        decreases height - gy,
    {
        let mut gx: usize = 0;
        while gx < width
            invariant
                gx <= width,
                gy < height,
                width == glyph.width,
                height == glyph.height,
                width <= cell,
                height <= cell,
                left == glyph.left(cell as nat),
                top == glyph.top(cell as nat),
                glyph.coverage@.len() >= width * height,
                width * height <= isize::MAX,
                img.spec_width() == cell,
                img.spec_height() == cell,
                img.buffer_len() == cell * cell,
                rectangular(img.rows(), cell as nat),
                forall|y: int, x: int|
                    0 <= y < cell && 0 <= x < cell ==> #[trigger] img.rows()[y][x]
                        == glyph.sample_after(cell as nat, x, y, gy as int, gx as int),
            decreases width - gx,
        {
            proof {
                index_in_grid(gx as int, gy as int, width as int, height as int);
            }
            let ink: u8 = glyph.coverage[gy * width + gx];
            img.set_sample(left + gx as u32, top + gy as u32, 255 - ink);
            gx = gx + 1;
        }
        gy = gy + 1;
    }
    assert forall|y: int| 0 <= y < cell implies #[trigger] img.rows()[y] == glyph.cell_rows(
        cell as nat,
    )[y] by {
        assert(img.rows()[y] =~= glyph.cell_rows(cell as nat)[y]);
    }
    assert(img.rows() =~= glyph.cell_rows(cell as nat));
    Ok(img)
}

/// The obstacle of the first of the first `n` ramp characters that has one.
pub open spec fn obstacle_among(ramp: Seq<char>, glyphs: Seq<Glyph>, cell: nat, n: int) -> Option<
    RasterError,
>
    decreases n,
{
    if n <= 0 {
        None
    } else {
        match obstacle_among(ramp, glyphs, cell, n - 1) {
            Some(error) => Some(error),
            None => glyphs[n - 1].obstacle(ramp[n - 1], cell),
        }
    }
}

/// What keeps a ramp from being rasterized with the glyphs given for its
/// characters, one for each in the order of the ramp: a wrong number of
/// glyphs, else the obstacle of the first character that has one.
pub open spec fn ramp_obstacle(ramp: Seq<char>, glyphs: Seq<Glyph>, cell: nat) -> Option<
    RasterError,
> {
    if glyphs.len() != ramp.len() {
        Some(RasterError::GlyphCount)
    } else {
        obstacle_among(ramp, glyphs, cell, ramp.len() as int)
    }
}

/// The last place of a character in the ramp, or -1 if it has none.
pub open spec fn last_index_of(ramp: Seq<char>, ch: char) -> int
    decreases ramp.len(),
{
    if ramp.len() == 0 {
        -1
    } else if ramp.last() == ch {
        ramp.len() - 1
    } else {
        last_index_of(ramp.drop_last(), ch)
    }
}

/// The cells of a ramp: for each character that the ramp holds, the cell
/// drawn from the glyph given for its last place in the ramp.
pub open spec fn ramp_cells(ramp: Seq<char>, glyphs: Seq<Glyph>, cell: nat) -> Map<
    char,
    Seq<Seq<u8>>,
> {
    Map::new(
        |ch: char| ramp.contains(ch),
        |ch: char| glyphs[last_index_of(ramp, ch)].cell_rows(cell),
    )
}

/// A character that the ramp holds has its last place inside the ramp.
pub proof fn last_index_of_found(ramp: Seq<char>, ch: char)
    requires
        ramp.contains(ch),
    ensures
        0 <= last_index_of(ramp, ch) < ramp.len(),
        ramp[last_index_of(ramp, ch)] == ch,
    decreases ramp.len(),
{
    if ramp.last() != ch {
        let i = choose|i: int| 0 <= i < ramp.len() && ramp[i] == ch;
        assert(ramp.drop_last()[i] == ch);
        last_index_of_found(ramp.drop_last(), ch);
    }
}

/// The cells of a ramp are complete: every character of the ramp has one
/// cell, no other character has any, and each cell is a square of side
/// `cell`, drawn from a glyph that was given for that character.
pub proof fn ramp_cells_complete(ramp: Seq<char>, glyphs: Seq<Glyph>, cell: nat)
    ensures
        ramp_cells(ramp, glyphs, cell).dom() == ramp.to_set(),
        forall|ch: char| #[trigger]
            ramp.contains(ch) ==> {
                let from = last_index_of(ramp, ch);
                &&& 0 <= from < ramp.len()
                &&& ramp[from] == ch
                &&& ramp_cells(ramp, glyphs, cell)[ch] == glyphs[from].cell_rows(cell)
                &&& ramp_cells(ramp, glyphs, cell)[ch].len() == cell
                &&& rectangular(ramp_cells(ramp, glyphs, cell)[ch], cell)
            },
{
    assert(ramp_cells(ramp, glyphs, cell).dom() =~= ramp.to_set());
    assert forall|ch: char| #[trigger] ramp.contains(ch) implies {
        let from = last_index_of(ramp, ch);
        0 <= from < ramp.len() && ramp[from] == ch
    } by {
        last_index_of_found(ramp, ch);
    }
}

/// One more ramp character adds its cell to the cells of the ramp, in place
/// of the cell that the character had.
pub proof fn ramp_cells_grow(ramp: Seq<char>, ch: char, glyphs: Seq<Glyph>, cell: nat)
    ensures
        ramp_cells(ramp.push(ch), glyphs, cell) == ramp_cells(ramp, glyphs, cell).insert(
            ch,
            glyphs[ramp.len() as int].cell_rows(cell),
        ),
{
    let grown = ramp.push(ch);
    assert(grown.drop_last() =~= ramp);
    assert forall|c: char| grown.contains(c) <==> (ramp.contains(c) || c == ch) by {
        if ramp.contains(c) {
            let k = choose|k: int| 0 <= k < ramp.len() && ramp[k] == c;
            assert(grown[k] == c);
        }
        if c == ch {
            assert(grown[ramp.len() as int] == c);
        }
        if grown.contains(c) && c != ch {
            let k = choose|k: int| 0 <= k < grown.len() && grown[k] == c;
            assert(ramp[k] == c);
        }
    }
    assert(ramp_cells(grown, glyphs, cell) =~= ramp_cells(ramp, glyphs, cell).insert(
        ch,
        glyphs[ramp.len() as int].cell_rows(cell),
    ));
}

/// An obstacle found among the first characters stays the one that is
/// reported when more characters are looked at.
pub proof fn obstacle_persists(ramp: Seq<char>, glyphs: Seq<Glyph>, cell: nat, k: int, n: int)
    requires
        obstacle_among(ramp, glyphs, cell, k) is Some,
        k <= n,
    ensures
        obstacle_among(ramp, glyphs, cell, n) == obstacle_among(ramp, glyphs, cell, k),
    decreases n - k,
{
    if k < n {
        obstacle_persists(ramp, glyphs, cell, k, n - 1);
    }
}

/// Different characters have different code points.
proof fn distinct_codes(a: char, b: char)
    ensures
        a != b ==> a as u32 != b as u32,
{
}

/// The cells of the characters of a ramp, each drawn once and kept by
/// character.
pub struct GlyphCache {
    cell: u32,
    bitmaps: HashMap<u32, GrayImage>,
}

impl View for GlyphCache {
    type V = Map<char, Seq<Seq<u8>>>;

    /// The rows of the cell of each cached character.
    closed spec fn view(&self) -> Map<char, Seq<Seq<u8>>> {
        Map::new(
            |ch: char| self.bitmaps@.contains_key(ch as u32),
            |ch: char| self.bitmaps@[ch as u32].rows(),
        )
    }
}

impl GlyphCache {
    /// The side of every cell.
    pub closed spec fn spec_cell(&self) -> nat {
        self.cell as nat
    }

    /// Every cached cell is a square of the side of the cache.
    pub closed spec fn wf(&self) -> bool {
        forall|code: u32| #[trigger]
            self.bitmaps@.contains_key(code) ==> {
                &&& self.bitmaps@[code].wf()
                &&& self.bitmaps@[code].spec_width() == self.cell
                &&& self.bitmaps@[code].spec_height() == self.cell
            }
    }

    /// A cached cell has as many rows and columns as the cache says.
    pub proof fn cells_are_square(&self, ch: char)
        requires
            self.wf(),
            self@.contains_key(ch),
        ensures
            self@[ch].len() == self.spec_cell(),
            rectangular(self@[ch], self.spec_cell()),
    {
        assert(self.bitmaps@.contains_key(ch as u32));
    }

    /// The side of every cell.
    pub fn cell_size(&self) -> (cell: u32)
        ensures
            cell == self.spec_cell(),
    {
        self.cell
    }

    /// The cell of a character, if the cache holds one.
    pub fn get(&self, ch: char) -> (found: Option<&GrayImage>)
        requires
            self.wf(),
        ensures
            found is Some <==> self@.contains_key(ch),
            found matches Some(img) ==> {
                &&& img.rows() == self@[ch]
                &&& img.wf()
                &&& img.spec_width() == self.spec_cell()
                &&& img.spec_height() == self.spec_cell()
            },
    {
        broadcast use vstd::std_specs::hash::group_hash_axioms;

        let code: u32 = ch as u32;
        self.bitmaps.get(&code)
    }

    /// Keeps a cell for a character, in place of the one kept before.
    fn insert(&mut self, ch: char, img: GrayImage)
        requires
            old(self).wf(),
            img.wf(),
            img.spec_width() == old(self).spec_cell(),
            img.spec_height() == old(self).spec_cell(),
        ensures
            final(self).wf(),
            final(self).spec_cell() == old(self).spec_cell(),
            final(self)@ == old(self)@.insert(ch, img.rows()),
    {
        broadcast use vstd::std_specs::hash::group_hash_axioms;

        let ghost stored = self.bitmaps@;
        let ghost before = self@;
        let ghost rows = img.rows();
        self.bitmaps.insert(ch as u32, img);
        assert(self.bitmaps@ == stored.insert(ch as u32, img));
        assert forall|c: char| #[trigger]
            self@.contains_key(c) <==> before.insert(ch, rows).contains_key(c) by {
            distinct_codes(c, ch);
        }
        assert forall|c: char| #[trigger] self@.contains_key(c) implies self@[c] == before.insert(
            ch,
            rows,
        )[c] by {
            distinct_codes(c, ch);
        }
        assert(self@ =~= before.insert(ch, rows));
    }

    /// Draws the cell of every character of the ramp from the glyph given
    /// for it, `glyphs[i]` for `ramp[i]`. A character that the ramp repeats
    /// keeps the cell drawn from its last glyph.
    pub fn build(ramp: &Vec<char>, glyphs: &Vec<Glyph>, cell: u32) -> (made: Result<
        GlyphCache,
        RasterError,
    >)
        ensures
            match made {
                Ok(cache) => {
                    &&& ramp_obstacle(ramp@, glyphs@, cell as nat) is None
                    &&& cache.wf()
                    &&& cache.spec_cell() == cell
                    &&& cache@ == ramp_cells(ramp@, glyphs@, cell as nat)
                },
                Err(error) => ramp_obstacle(ramp@, glyphs@, cell as nat) == Some(error),
            },
    {
        if glyphs.len() != ramp.len() {
            return Err(RasterError::GlyphCount);
        }
        let mut cache = GlyphCache { cell, bitmaps: HashMap::new() };
        assert(cache@ =~= ramp_cells(ramp@.take(0), glyphs@, cell as nat));
        let mut at: usize = 0;
        while at < ramp.len()
            invariant
                at <= ramp.len(),
                glyphs.len() == ramp.len(),
                cache.wf(),
                cache.spec_cell() == cell,
                obstacle_among(ramp@, glyphs@, cell as nat, at as int) is None,
                cache@ == ramp_cells(ramp@.take(at as int), glyphs@, cell as nat),
            decreases ramp.len() - at,
        {
            let ch: char = ramp[at];
            match rasterize_glyph(ch, &glyphs[at], cell) {
                Ok(img) => {
                    cache.insert(ch, img);
                    proof {
                        ramp_cells_grow(ramp@.take(at as int), ch, glyphs@, cell as nat);
                        assert(ramp@.take(at + 1) =~= ramp@.take(at as int).push(ch));
                    }
                },
                Err(error) => {
                    proof {
                        obstacle_persists(ramp@, glyphs@, cell as nat, at + 1, ramp.len() as int);
                    }
                    return Err(error);
                },
            }
            at = at + 1;
        }
        assert(ramp@.take(at as int) =~= ramp@);
        Ok(cache)
    }
}

} // verus!
