use vstd::prelude::*;
use crate::pixel::Pixel;

verus! {

/// The position of pixel `(x, y)` in a row-major frame with `cols` columns.
pub open spec fn cell_index(x: int, y: int, cols: int) -> int {
    y * cols + x
}

/// A frame of `len` pixels that are all zero.
pub open spec fn blank_frame(len: nat) -> Seq<Pixel> {
    Seq::new(len, |i: int| Pixel(0))
}

/// A sink for finished frames: a grid of `rows` by `cols` pixels held in
/// memory, and a `render` that makes the held frame visible.
///
/// The spec functions describe the sink for verification; the defaults
/// stand for a sink that is not modeled.
pub trait PixelDisplay: Sized {
    closed spec fn spec_rows(&self) -> nat {
        0
    }

    closed spec fn spec_cols(&self) -> nat {
        0
    }

    /// The pixels held in memory, row-major: `(x, y)` is at `y * cols + x`.
    closed spec fn frame(&self) -> Seq<Pixel> {
        Seq::empty()
    }

    /// Every frame made visible so far, oldest first.
    closed spec fn shown(&self) -> Seq<Seq<Pixel>> {
        Seq::empty()
    }

    fn rows(&self) -> (r: usize)
        ensures
            r == self.spec_rows(),
    ;

    fn cols(&self) -> (c: usize)
        ensures
            c == self.spec_cols(),
    ;

    /// Writes one pixel; a position outside the grid is ignored.
    fn set_at(&mut self, x: usize, y: usize, pixel: Pixel)
        requires
            old(self).frame().len() == old(self).spec_rows() * old(self).spec_cols(),
        ensures
            final(self).frame().len() == final(self).spec_rows() * final(self).spec_cols(),
            final(self).spec_rows() == old(self).spec_rows(),
            final(self).spec_cols() == old(self).spec_cols(),
            final(self).shown() == old(self).shown(),
            final(self).frame() == (if x < old(self).spec_cols() && y < old(self).spec_rows() {
                old(self).frame().update(
                    cell_index(x as int, y as int, old(self).spec_cols() as int),
                    pixel,
                )
            } else {
                old(self).frame()
            }),
    ;

    /// The pixel last written at `(x, y)`, or `None` outside the grid.
    fn get_at(&self, x: usize, y: usize) -> (p: Option<Pixel>)
        requires
            self.frame().len() == self.spec_rows() * self.spec_cols(),
        ensures
            p == (if x < self.spec_cols() && y < self.spec_rows() {
                Some(self.frame()[cell_index(x as int, y as int, self.spec_cols() as int)])
            } else {
                None
            }),
    ;

    /// Makes the frame held in memory visible.
    fn render(&mut self)
        requires
            old(self).frame().len() == old(self).spec_rows() * old(self).spec_cols(),
        ensures
            final(self).frame().len() == final(self).spec_rows() * final(self).spec_cols(),
            final(self).spec_rows() == old(self).spec_rows(),
            final(self).spec_cols() == old(self).spec_cols(),
            final(self).frame() == old(self).frame(),
            final(self).shown() == old(self).shown().push(old(self).frame()),
    ;

    /// Sets every pixel held in memory to zero, without rendering.
    fn clear(&mut self)
        requires
            old(self).frame().len() == old(self).spec_rows() * old(self).spec_cols(),
        ensures
            final(self).frame().len() == final(self).spec_rows() * final(self).spec_cols(),
            final(self).spec_rows() == old(self).spec_rows(),
            final(self).spec_cols() == old(self).spec_cols(),
            final(self).frame() == blank_frame(old(self).frame().len()),
            final(self).shown() == old(self).shown(),
    ;
}

/// The frame holds one pixel per cell of the grid.
pub open spec fn display_wf<D: PixelDisplay>(d: &D) -> bool {
    d.frame().len() == d.spec_rows() * d.spec_cols()
}

/// Two states of one sink have the same grid size.
pub open spec fn same_grid<D: PixelDisplay>(a: &D, b: &D) -> bool {
    a.spec_rows() == b.spec_rows() && a.spec_cols() == b.spec_cols()
}

/// A grid of pixels held in memory, whose `render` only records the frame.
pub struct Display {
    pixels: Vec<Pixel>,
    rows: usize,
    cols: usize,
    history: Ghost<Seq<Seq<Pixel>>>,
}

impl Display {
    /// A blank grid of `rows` by `cols` pixels with nothing shown yet.
    pub fn new(rows: usize, cols: usize) -> (d: Display)
        requires
            rows * cols <= usize::MAX,
        ensures
            display_wf(&d),
            d.spec_rows() == rows,
            d.spec_cols() == cols,
            d.frame() == blank_frame((rows * cols) as nat),
            d.shown() == Seq::<Seq<Pixel>>::empty(),
    {
        let n: usize = rows * cols;
        let mut pixels: Vec<Pixel> = Vec::new();
        let mut i: usize = 0;
        while i < n
            invariant
                i <= n,
                pixels@ == blank_frame(i as nat),
            decreases n - i,
        {
            pixels.push(Pixel(0));
            i += 1;
            assert(pixels@ =~= blank_frame(i as nat));
        }
        Display { pixels, rows, cols, history: Ghost(Seq::empty()) }
    }
}

impl Default for Display {
    /// A blank grid of seven by seven pixels.
    fn default() -> (d: Display)
        ensures
            display_wf(&d),
            d.spec_rows() == 7,
            d.spec_cols() == 7,
            d.frame() == blank_frame(49),
            d.shown() == Seq::<Seq<Pixel>>::empty(),
    {
        Display::new(7, 7)
    }
}

impl PixelDisplay for Display {
    closed spec fn spec_rows(&self) -> nat {
        self.rows as nat
    }

    closed spec fn spec_cols(&self) -> nat {
        self.cols as nat
    }

    closed spec fn frame(&self) -> Seq<Pixel> {
        self.pixels@
    }

    closed spec fn shown(&self) -> Seq<Seq<Pixel>> {
        self.history@
    }

    fn rows(&self) -> (r: usize) {
        self.rows
    }

    fn cols(&self) -> (c: usize) {
        self.cols
    }

    fn set_at(&mut self, x: usize, y: usize, pixel: Pixel) {
        let n: usize = self.pixels.len();
        if x < self.cols && y < self.rows {
            proof {
                lemma_cell_in_grid(x as int, y as int, self.rows as int, self.cols as int);
                assert(y * self.cols <= y * self.cols + x < self.pixels@.len());
            }
            let i: usize = y * self.cols + x;
            self.pixels.set(i, pixel);
        }
    }

    fn get_at(&self, x: usize, y: usize) -> (p: Option<Pixel>) {
        let n: usize = self.pixels.len();
        if x < self.cols && y < self.rows {
            proof {
                lemma_cell_in_grid(x as int, y as int, self.rows as int, self.cols as int);
                assert(y * self.cols <= y * self.cols + x < self.pixels@.len());
            }
            Some(self.pixels[y * self.cols + x])
        } else {
            None
        }
    }

    fn render(&mut self) {
        self.history = Ghost(self.history@.push(self.pixels@));
    }

    fn clear(&mut self) {
        let n: usize = self.pixels.len();
        let mut i: usize = 0;
        while i < n
            invariant
                i <= n,
                n == self.pixels@.len(),
                n == self.rows * self.cols,
                self.rows == old(self).rows,
                self.cols == old(self).cols,
                self.history == old(self).history,
                forall|j: int| 0 <= j < i ==> self.pixels@[j] == Pixel(0),
            decreases n - i,
        {
            self.pixels.set(i, Pixel(0));
            i += 1;
        }
        assert(self.pixels@ =~= blank_frame(n as nat));
    }
}

/// A cell of the grid lies inside a frame of `rows * cols` pixels.
pub proof fn lemma_cell_in_grid(x: int, y: int, rows: int, cols: int)
    requires
        0 <= x < cols,
        0 <= y < rows,
    ensures
        0 <= cell_index(x, y, cols) < rows * cols,
{
    assert(0 <= y * cols + x < rows * cols) by (nonlinear_arith)
        requires 0 <= x < cols, 0 <= y < rows;
}

/// The position of pixel `(x, y)` on a strip laid out row after row, where odd
/// rows run backwards; `width` is the length of a row.
pub fn serpentine_index(x: usize, y: usize, width: usize) -> (i: usize)
    requires
        x < width,
        (y + 1) * width <= usize::MAX,
    ensures
        i == (if y % 2 == 1 {
            (y + 1) * width - x - 1
        } else {
            y * width + x
        }),
        y * width <= i < (y + 1) * width,
{
    assert(y * width + width == (y + 1) * width) by (nonlinear_arith);
    assert(y + 1 <= (y + 1) * width) by (nonlinear_arith)
        requires 0 < width;
    assert(y * width <= (y + 1) * width) by (nonlinear_arith);
    if y % 2 != 0 {
        (y + 1) * width - x - 1
    } else {
        y * width + x
    }
}

} // verus!
