//! The glyph palette and the pixel-pair sampler: a palette is an ordered grid
//! of characters; the sampler walks an image two rows at a time and resolves
//! one glyph per column from the two sampled pixels.

use vstd::prelude::*;

use crate::output::{
    cell_chars, header_chars, line_end_chars, render_chars, row_chars, rows_chars, OutputType,
};
use crate::raster::Raster;
use crate::PixtError;

verus! {

/// One sampled pixel: its coordinates and its color.
#[derive(Debug, Clone, Copy, PartialEq)]
pub struct Pixel {
    pub x: u32,
    pub y: u32,
    pub color: (u8, u8, u8),
}

/// The sequence of character rows held by a sequence of vectors.
pub open spec fn vecs_view<T>(s: Seq<Vec<T>>) -> Seq<Seq<T>> {
    s.map_values(|v: Vec<T>| v@)
}

/// A usable palette: at least one row, a non-empty first row whose width no
/// later row undercuts (so two-axis lookup never leaves a row), and row and
/// column counts that fit in 32 bits.
pub open spec fn wf_grid(grid: Seq<Seq<char>>) -> bool {
    &&& grid.len() >= 1
    &&& grid[0].len() >= 1
    &&& grid.len() <= 0xFFFF_FFFF
    &&& grid[0].len() <= 0xFFFF_FFFF
    &&& forall|i: int| 0 <= i < grid.len() ==> #[trigger] grid[i].len() >= grid[0].len()
}

/// Grayscale intensity of a pixel: the unweighted mean of its channels.
pub open spec fn intensity(c: (u8, u8, u8)) -> int {
    (c.0 + c.1 + c.2) / 3
}

/// Maps an intensity in 0..256 into one of `n` buckets.
pub open spec fn bucket(v: int, n: int) -> int {
    if v * n / 256 < n - 1 {
        v * n / 256
    } else {
        n - 1
    }
}

/// Two-axis lookup: the top pixel's intensity picks the column, the bottom
/// pixel's intensity picks the row.
pub open spec fn glyph_two(grid: Seq<Seq<char>>, top: (u8, u8, u8), bottom: (u8, u8, u8)) -> char {
    grid[bucket(intensity(bottom), grid.len() as int)][bucket(
        intensity(top),
        grid[0].len() as int,
    )]
}

/// Single-ramp lookup: the mean of the two intensities picks the column of
/// the only row.
pub open spec fn glyph_single(
    grid: Seq<Seq<char>>,
    top: (u8, u8, u8),
    bottom: (u8, u8, u8),
) -> char {
    grid[0][bucket((intensity(top) + intensity(bottom)) / 2, grid[0].len() as int)]
}

/// The glyph a palette resolves for a pixel pair: a one-row palette is an
/// intensity ramp, anything taller is a two-axis grid.
pub open spec fn glyph_at(grid: Seq<Seq<char>>, top: (u8, u8, u8), bottom: (u8, u8, u8)) -> char {
    if grid.len() == 1 {
        glyph_single(grid, top, bottom)
    } else {
        glyph_two(grid, top, bottom)
    }
}

/// Anything that can serve as palette data.
pub trait IntoPixtData: Sized {
    /// The character rows this value stands for.
    spec fn pixt_rows(&self) -> Seq<Seq<char>>;

    /// Yields the palette rows.
    fn into_pixt_data(self) -> (r: Vec<Vec<char>>)
        ensures
            vecs_view(r@) == self.pixt_rows(),
    ;
}

impl IntoPixtData for Vec<Vec<char>> {
    open spec fn pixt_rows(&self) -> Seq<Seq<char>> {
        vecs_view(self@)
    }

    fn into_pixt_data(self) -> (r: Vec<Vec<char>>) {
        self
    }
}

impl IntoPixtData for Vec<char> {
    open spec fn pixt_rows(&self) -> Seq<Seq<char>> {
        seq![self@]
    }

    fn into_pixt_data(self) -> (r: Vec<Vec<char>>) {
        let ghost rows = self.pixt_rows();
        let mut v: Vec<Vec<char>> = Vec::new();
        v.push(self);
        proof {
            assert(vecs_view(v@) =~= rows);
        }
        v
    }
}

impl<const N: usize> IntoPixtData for [char; N] {
    open spec fn pixt_rows(&self) -> Seq<Seq<char>> {
        seq![self@]
    }

    #[verifier::loop_isolation(false)]
    fn into_pixt_data(self) -> (r: Vec<Vec<char>>) {
        let mut row: Vec<char> = Vec::new();
        let mut i: usize = 0;
        while i < N
            invariant
                i <= N,
                row@ == self@.subrange(0, i as int),
            decreases N - i,
        {
            row.push(self[i]);
            i = i + 1;
            proof {
                assert(row@ =~= self@.subrange(0, i as int));
            }
        }
        proof {
            assert(row@ =~= self@);
        }
        let mut v: Vec<Vec<char>> = Vec::new();
        v.push(row);
        proof {
            assert(vecs_view(v@) =~= seq![self@]);
        }
        v
    }
}

impl<const N: usize, const M: usize> IntoPixtData for [[char; M]; N] {
    open spec fn pixt_rows(&self) -> Seq<Seq<char>> {
        self@.map_values(|r: [char; M]| r@)
    }

    #[verifier::loop_isolation(false)]
    fn into_pixt_data(self) -> (r: Vec<Vec<char>>) {
        let mut v: Vec<Vec<char>> = Vec::new();
        let mut i: usize = 0;
        while i < N
            invariant
                i <= N,
                vecs_view(v@) == self@.map_values(|r: [char; M]| r@).subrange(0, i as int),
            decreases N - i,
        {
            let mut row: Vec<char> = Vec::new();
            let mut j: usize = 0;
            while j < M
                invariant
                    j <= M,
                    row@ == self@[i as int]@.subrange(0, j as int),
                decreases M - j,
            {
                row.push(self[i][j]);
                j = j + 1;
                proof {
                    assert(row@ =~= self@[i as int]@.subrange(0, j as int));
                }
            }
            proof {
                assert(row@ =~= self@[i as int]@);
            }
            v.push(row);
            i = i + 1;
            proof {
                assert(vecs_view(v@) =~= self@.map_values(|r: [char; M]| r@).subrange(
                    0,
                    i as int,
                ));
            }
        }
        proof {
            assert(vecs_view(v@) =~= self@.map_values(|r: [char; M]| r@));
        }
        v
    }
}

/// A palette of glyphs, held as rows of characters.
pub struct PixtData {
    data: Vec<Vec<char>>,
}

impl PixtData {
    /// The character rows of this palette.
    pub closed spec fn grid(&self) -> Seq<Seq<char>> {
        vecs_view(self.data@)
    }

    pub open spec fn wf(&self) -> bool {
        wf_grid(self.grid())
    }

    /// Builds a palette from ramp or grid data.
    pub fn new<T: IntoPixtData>(data: T) -> (r: Self)
        requires
            wf_grid(data.pixt_rows()),
        ensures
            r.grid() == data.pixt_rows(),
            r.wf(),
    {
        PixtData { data: data.into_pixt_data() }
    }

    /// Replaces the palette data.
    pub fn set_pixel_data<T: IntoPixtData>(&mut self, data: T)
        requires
            wf_grid(data.pixt_rows()),
        ensures
            final(self).grid() == data.pixt_rows(),
            final(self).wf(),
    {
        self.data = data.into_pixt_data();
    }

    /// Returns a character representing the brightness levels of two pixels,
    /// read as a two-axis grid lookup.
    pub fn get_char(&self, top: (u8, u8, u8), bottom: (u8, u8, u8)) -> (r: char)
        requires
            self.wf(),
        ensures
            r == glyph_two(self.grid(), top, bottom),
    {
        let rows = self.data.len();
        let cols = self.data[0].len();

        let top_intensity = ((top.0 as u16 + top.1 as u16 + top.2 as u16) / 3) as u8;
        let bottom_intensity = ((bottom.0 as u16 + bottom.1 as u16 + bottom.2 as u16) / 3) as u8;

        let col_index = bucket_index(top_intensity, cols);
        let row_index = bucket_index(bottom_intensity, rows);

        proof {
            assert(self.grid()[row_index as int].len() >= cols);
        }
        self.data[row_index][col_index]
    }

    /// Returns a character representing the average brightness of two pixels,
    /// read off the palette's first row.
    pub fn get_char_single_raw(&self, top: (u8, u8, u8), bottom: (u8, u8, u8)) -> (r: char)
        requires
            self.wf(),
        ensures
            r == glyph_single(self.grid(), top, bottom),
    {
        let cols = self.data[0].len();

        let top_intensity = (top.0 as u16 + top.1 as u16 + top.2 as u16) / 3;
        let bottom_intensity = (bottom.0 as u16 + bottom.1 as u16 + bottom.2 as u16) / 3;

        let avg_intensity = (top_intensity + bottom_intensity) / 2;

        let col_index = bucket_index(avg_intensity as u8, cols);
        self.data[0][col_index]
    }
}

/// The glyph cell produced at column `x` for the row pair starting at `y`:
/// the resolved character together with the two sampled pixels.
pub open spec fn spec_cell(grid: Seq<Seq<char>>, img: Raster, x: int, y: int) -> (
    char,
    Pixel,
    Pixel,
) {
    (
        glyph_at(grid, img.pixel(x, y), img.pixel(x, y + 1)),
        (Pixel { x: x as u32, y: y as u32, color: img.pixel(x, y) }),
        (Pixel { x: x as u32, y: (y + 1) as u32, color: img.pixel(x, y + 1) }),
    )
}

/// One row of glyph cells for the row pair starting at `y`.
pub open spec fn spec_row(grid: Seq<Seq<char>>, img: Raster, y: int) -> Seq<(char, Pixel, Pixel)> {
    Seq::new(img.spec_width() as nat, |x: int| spec_cell(grid, img, x, y))
}

/// Every glyph cell of the image: rows `(0,1), (2,3), ...` are paired, and a
/// final unpaired row of an odd-height image is dropped.
pub open spec fn spec_cells(grid: Seq<Seq<char>>, img: Raster) -> Seq<Seq<(char, Pixel, Pixel)>> {
    Seq::new((img.spec_height() / 2) as nat, |r: int| spec_row(grid, img, 2 * r))
}

/// The number of glyph cells an image yields: one per column for each full
/// row pair, so `W * floor(H / 2)` in all.
pub proof fn lemma_cell_count(grid: Seq<Seq<char>>, img: Raster)
    ensures
        spec_cells(grid, img).len() == img.spec_height() / 2,
        forall|i: int|
            0 <= i < spec_cells(grid, img).len() ==> #[trigger] spec_cells(grid, img)[i].len()
                == img.spec_width(),
        spec_cells(grid, img).flatten().len() == img.spec_width() * (img.spec_height() / 2),
        img.spec_height() % 2 == 1 ==> spec_cells(grid, img).flatten().len() == img.spec_width()
            * ((img.spec_height() - 1) / 2),
{
    assert(spec_cells(grid, img).len() == img.spec_height() / 2);
    assert forall|i: int| 0 <= i < spec_cells(grid, img).len() implies #[trigger] spec_cells(
        grid,
        img,
    )[i].len() == img.spec_width() by {
        assert(spec_cells(grid, img)[i] == spec_row(grid, img, 2 * i));
    }
    lemma_uniform_flatten_len(spec_cells(grid, img), img.spec_width() as int);
}

proof fn lemma_uniform_flatten_len<T>(s: Seq<Seq<T>>, w: int)
    requires
        forall|i: int| 0 <= i < s.len() ==> #[trigger] s[i].len() == w,
    ensures
        s.flatten().len() == s.len() * w,
    decreases s.len(),
{
    if s.len() == 0 {
        assert(s.flatten().len() == 0);
    } else {
        lemma_uniform_flatten_len(s.drop_first(), w);
        assert(s.flatten() == s.first() + s.drop_first().flatten());
        assert(s.len() * w == w + (s.len() - 1) * w) by (nonlinear_arith);
    }
}

impl PixtData {
    /// Walks the image two rows at a time, producing for every full row pair
    /// one glyph cell per column.
    #[verifier::loop_isolation(false)]
    pub fn chars(&self, img: &Raster) -> (r: Vec<Vec<(char, Pixel, Pixel)>>)
        requires
            self.wf(),
            img.wf(),
        ensures
            vecs_view(r@) == spec_cells(self.grid(), *img),
    {
        let w = img.width();
        let h = img.height();
        let single = self.data.len() == 1;
        let mut out: Vec<Vec<(char, Pixel, Pixel)>> = Vec::new();
        let mut y: u32 = 0;
        while h - y >= 2
            invariant
                y % 2 == 0,
                y <= h,
                out@.len() == y / 2,
                vecs_view(out@) == spec_cells(self.grid(), *img).subrange(0, y as int / 2),
            decreases h - y,
        {
            let mut row: Vec<(char, Pixel, Pixel)> = Vec::new();
            let mut x: u32 = 0;
            proof {
                assert(row@ =~= spec_row(self.grid(), *img, y as int).subrange(0, 0));
            }
            while x < w
                invariant
                    x <= w,
                    y + 1 < h,
                    row@ == spec_row(self.grid(), *img, y as int).subrange(0, x as int),
                decreases w - x,
            {
                let t = img.get_pixel(x, y);
                let b = img.get_pixel(x, y + 1);
                let ch = if single {
                    self.get_char_single_raw(t, b)
                } else {
                    self.get_char(t, b)
                };
                let p1 = Pixel { x, y, color: t };
                let p2 = Pixel { x, y: y + 1, color: b };
                row.push((ch, p1, p2));
                x = x + 1;
                proof {
                    assert(row@ =~= spec_row(self.grid(), *img, y as int).subrange(
                        0,
                        x as int,
                    ));
                }
            }
            proof {
                assert(row@ =~= spec_row(self.grid(), *img, y as int));
            }
            out.push(row);
            y = y + 2;
            proof {
                assert(vecs_view(out@) =~= spec_cells(self.grid(), *img).subrange(
                    0,
                    y as int / 2,
                ));
            }
        }
        proof {
            assert(spec_cells(self.grid(), *img).subrange(0, y as int / 2) =~= spec_cells(
                self.grid(),
                *img,
            ));
        }
        out
    }
}

/// Scales an intensity into an in-bounds index over `n` buckets.
fn bucket_index(v: u8, n: usize) -> (r: usize)
    requires
        1 <= n <= 0xFFFF_FFFF,
    ensures
        r == bucket(v as int, n as int),
        r < n,
{
    proof {
        assert((v as int) * (n as int) < 256 * (n as int)) by (nonlinear_arith)
            requires
                v < 256,
                n >= 1,
        ;
    }
    let idx: u64 = (v as u64) * (n as u64) / 256;
    let cap: u64 = (n - 1) as u64;
    if idx < cap {
        idx as usize
    } else {
        cap as usize
    }
}


/// A palette paired with an output type: everything needed to render an
/// image, short of the image itself.
pub struct PixtImg {
    data: PixtData,
    out_type: OutputType,
}

impl PixtImg {
    /// The character rows of the palette this renderer uses.
    pub closed spec fn grid(&self) -> Seq<Seq<char>> {
        self.data.grid()
    }

    /// The output format and color mode this renderer writes.
    pub closed spec fn spec_out_type(&self) -> OutputType {
        self.out_type
    }

    pub open spec fn wf(&self) -> bool {
        wf_grid(self.grid())
    }

    /// Builds a renderer from palette data and an output type.
    pub fn new<T: IntoPixtData>(data: T, out_type: OutputType) -> (r: Self)
        requires
            wf_grid(data.pixt_rows()),
        ensures
            r.grid() == data.pixt_rows(),
            r.spec_out_type() == out_type,
            r.wf(),
    {
        PixtImg { data: PixtData::new(data), out_type }
    }

    /// Renders the whole image: the document prologue, then every sampled
    /// row as glyph cells closed by a line terminator, then the epilogue.
    /// An unsupported output type is refused before anything is emitted.
    #[verifier::loop_isolation(false)]
    #[verifier::rlimit(50)]
    pub fn print(&self, img: &Raster) -> (r: Result<Vec<char>, PixtError>)
        requires
            self.wf(),
            img.wf(),
        ensures
            match r {
                Ok(v) => self.spec_out_type().supported() && v@ == render_chars(
                    self.spec_out_type(),
                    self.grid(),
                    *img,
                ),
                Err(e) => !self.spec_out_type().supported() && e == PixtError::Unsupported,
            },
    {
        let o = self.out_type;
        let ghost all = spec_cells(self.grid(), *img);
        let mut out: Vec<char> = Vec::new();
        match o.write_header(img.width(), img.height(), &mut out) {
            Ok(()) => {},
            Err(e) => {
                return Err(e);
            },
        }
        let cells = self.data.chars(img);
        let mut i: usize = 0;
        proof {
            assert(rows_chars(o, all.subrange(0, 0)) =~= Seq::<char>::empty());
            assert(out@ =~= header_chars(o) + rows_chars(o, all.subrange(0, 0)));
        }
        while i < cells.len()
            invariant
                i <= cells.len(),
                out@ == header_chars(o) + rows_chars(o, all.subrange(0, i as int)),
            decreases cells.len() - i,
        {
            proof {
                assert(vecs_view(cells@)[i as int] == all[i as int]);
            }
            let ghost rowspec = all[i as int];
            let row = &cells[i];
            let mut x: usize = 0;
            proof {
                assert(row_chars(o, rowspec.subrange(0, 0)) =~= Seq::<char>::empty());
                assert(out@ =~= header_chars(o) + rows_chars(o, all.subrange(0, i as int))
                    + row_chars(o, rowspec.subrange(0, 0)));
            }
            while x < row.len()
                invariant
                    x <= row.len(),
                    out@ == header_chars(o) + rows_chars(o, all.subrange(0, i as int)) + row_chars(
                        o,
                        rowspec.subrange(0, x as int),
                    ),
                decreases row.len() - x,
            {
                match o.print_pixel(&mut out, row[x]) {
                    Ok(()) => {},
                    Err(e) => {
                        proof {
                            assert(false);
                        }
                        return Err(e);
                    },
                }
                x = x + 1;
                proof {
                    assert(rowspec.subrange(0, x as int).drop_last() =~= rowspec.subrange(
                        0,
                        x - 1,
                    ));
                    assert(out@ =~= header_chars(o) + rows_chars(o, all.subrange(0, i as int))
                        + row_chars(o, rowspec.subrange(0, x as int)));
                }
            }
            match o.print_line(&mut out) {
                Ok(()) => {},
                Err(e) => {
                    proof {
                        assert(false);
                    }
                    return Err(e);
                },
            }
            i = i + 1;
            proof {
                assert(rowspec.subrange(0, rowspec.len() as int) =~= rowspec);
                assert(all.subrange(0, i as int).drop_last() =~= all.subrange(0, i - 1));
                assert(out@ =~= header_chars(o) + rows_chars(o, all.subrange(0, i as int)));
            }
        }
        proof {
            assert(all.subrange(0, i as int) =~= all);
        }
        match o.write_footer(&mut out) {
            Ok(()) => {},
            Err(e) => {
                proof {
                    assert(false);
                }
                return Err(e);
            },
        }
        proof {
            assert(out@ =~= render_chars(o, self.grid(), *img));
        }
        Ok(out)
    }
}


/// Checks whether palette rows are usable as a grid, as `PixtData` and
/// `PixtImg` require them.
#[verifier::loop_isolation(false)]
pub fn grid_is_wf(v: &Vec<Vec<char>>) -> (r: bool)
    ensures
        r == wf_grid(vecs_view(v@)),
{
    if v.len() == 0 {
        return false;
    }
    let cols = v[0].len();
    proof {
        assert(vecs_view(v@)[0] == v@[0]@);
    }
    if cols == 0 {
        return false;
    }
    if v.len() > 0xFFFF_FFFF {
        return false;
    }
    if cols > 0xFFFF_FFFF {
        return false;
    }
    let mut i: usize = 1;
    while i < v.len()
        invariant
            1 <= i <= v@.len(),
            forall|j: int| 0 <= j < i ==> #[trigger] vecs_view(v@)[j].len() >= cols,
        decreases v@.len() - i,
    {
        if v[i].len() < cols {
            proof {
                assert(vecs_view(v@)[i as int] == v@[i as int]@);
            }
            return false;
        }
        i = i + 1;
    }
    true
}

} // verus!
