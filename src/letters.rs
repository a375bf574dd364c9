use vstd::prelude::*;
use crate::pixel::Pixel;
use crate::display::PixelDisplay;
use crate::scheduler::Animation;
use crate::effects::SECOND;

verus! {

/// The letters shown, one per second, in order.
pub open spec fn alphabet() -> Seq<char> {
    seq![
        'A', 'B', 'C', 'D', 'E', 'F', 'G', 'H', 'I', 'J', 'K', 'L', 'M',
        'N', 'O', 'P', 'Q', 'R', 'S', 'T', 'U', 'V', 'W', 'X', 'Y', 'Z',
    ]
}

/// The position in the alphabet of the letter shown `elapsed` microseconds in.
pub open spec fn letter_index(elapsed: u64) -> int {
    (elapsed / SECOND) as int % 26
}

/// The letter shown `elapsed` microseconds in.
pub fn letter_at(elapsed: u64) -> (c: char)
    ensures
        c == alphabet()[letter_index(elapsed)],
{
    let alpha: [char; 26] = [
        'A', 'B', 'C', 'D', 'E', 'F', 'G', 'H', 'I', 'J', 'K', 'L', 'M',
        'N', 'O', 'P', 'Q', 'R', 'S', 'T', 'U', 'V', 'W', 'X', 'Y', 'Z',
    ];
    assert(alpha@ =~= alphabet());
    alpha[((elapsed / SECOND) % 26) as usize]
}

/// The coverage of cell `j` by a glyph given as one byte per cell, row-major;
/// zero past its end.
pub open spec fn coverage(glyph: Seq<u8>, j: int) -> int {
    if j < glyph.len() {
        glyph[j] as int
    } else {
        0
    }
}

/// The pixel drawn where a glyph covers a cell by `v` of 255: the color's
/// red, green and blue at that brightness, with the white channel full.
pub open spec fn letter_pixel(color: Pixel, v: int) -> Pixel {
    let c = color.spec_scale(v, 255);
    Pixel(crate::pixel::pack(c.red(), c.green(), c.blue(), 255))
}

/// The frame of `n` cells that shows `glyph` in `color`.
pub open spec fn letter_frame(color: Pixel, glyph: Seq<u8>, n: nat) -> Seq<Pixel> {
    Seq::new(n, |j: int| letter_pixel(color, coverage(glyph, j)))
}

/// The letters A to Z, one per second, each drawn from its glyph; done after
/// twenty-six seconds.
pub struct Letters {
    color: Pixel,
    glyphs: Vec<Vec<u8>>,
}

impl Default for Letters {
    /// Letters with no glyphs: nothing is drawn.
    fn default() -> (l: Letters)
        ensures
            l.spec_glyphs().len() == 0,
            l.spec_color() == Pixel(0),
    {
        Letters { color: Pixel(0), glyphs: Vec::new() }
    }
}

impl Letters {
    pub closed spec fn spec_color(&self) -> Pixel {
        self.color
    }

    pub closed spec fn spec_glyphs(&self) -> Seq<Seq<u8>> {
        self.glyphs@.map_values(|g: Vec<u8>| g@)
    }

    /// Letters drawn from `glyphs`: entry `k` is the coverage of letter `k`
    /// of the alphabet on the grid, one byte per cell, row-major.
    pub fn new(glyphs: Vec<Vec<u8>>) -> (l: Letters)
        ensures
            l.spec_glyphs() == glyphs@.map_values(|g: Vec<u8>| g@),
            l.spec_color() == Pixel(0),
    {
        Letters { color: Pixel(0), glyphs }
    }

    /// What an update does: on a grid small enough to address, the letter for
    /// `elapsed` is drawn if it has a glyph; the animation itself is left as
    /// it is.
    pub open spec fn updates_to(
        &self,
        next: &Self,
        rows: nat,
        cols: nat,
        before: Seq<Pixel>,
        after: Seq<Pixel>,
        elapsed: u64,
    ) -> bool {
        let k = letter_index(elapsed);
        &&& next == self
        &&& rows * cols <= usize::MAX && k < self.spec_glyphs().len() ==> after == letter_frame(
            self.spec_color(),
            self.spec_glyphs()[k],
            before.len(),
        )
        &&& !(rows * cols <= usize::MAX && k < self.spec_glyphs().len()) ==> after == before
    }

    /// Draws the letter for `elapsed` in the current color, each cell at the
    /// brightness of its coverage with full white; nothing where the letter
    /// has no glyph.
    pub fn draw<D: PixelDisplay>(&self, display: &mut D, elapsed: u64)
        requires
            old(display).frame().len() == old(display).spec_rows() * old(display).spec_cols(),
            old(display).frame().len() <= usize::MAX,
        ensures
            final(display).spec_rows() == old(display).spec_rows(),
            final(display).spec_cols() == old(display).spec_cols(),
            final(display).shown() == old(display).shown(),
            final(display).frame().len() == old(display).frame().len(),
            letter_index(elapsed) >= self.spec_glyphs().len() ==> final(display).frame() == old(display).frame(),
            letter_index(elapsed) < self.spec_glyphs().len() ==> final(display).frame() == letter_frame(
                self.spec_color(),
                self.spec_glyphs()[letter_index(elapsed)],
                old(display).frame().len(),
            ),
    {
        let k: usize = ((elapsed / SECOND) % 26) as usize;
        if k >= self.glyphs.len() {
            return;
        }
        let glyph = &self.glyphs[k];
        let ghost g = self.spec_glyphs()[k as int];
        assert(g == glyph@);
        let rows = display.rows();
        let cols = display.cols();
        let ghost n = rows * cols;
        let mut y: usize = 0;
        while y < rows
            invariant
                n <= usize::MAX,
                y <= rows,
                rows == display.spec_rows(),
                cols == display.spec_cols(),
                n == rows * cols,
                g == glyph@,
                display.frame().len() == n,
                display.shown() == old(display).shown(),
                forall|j: int| 0 <= j < y * cols ==> #[trigger] display.frame()[j] == letter_pixel(self.color, coverage(g, j)),
            decreases rows - y,
        {
            let mut x: usize = 0;
            while x < cols
                invariant
                    n <= usize::MAX,
                    y < rows,
                    x <= cols,
                    rows == display.spec_rows(),
                    cols == display.spec_cols(),
                    n == rows * cols,
                    g == glyph@,
                    display.frame().len() == n,
                    display.shown() == old(display).shown(),
                    forall|j: int| 0 <= j < y * cols + x ==> #[trigger] display.frame()[j] == letter_pixel(self.color, coverage(g, j)),
                decreases cols - x,
            {
                proof {
                    crate::display::lemma_cell_in_grid(x as int, y as int, rows as int, cols as int);
                    assert(y * cols <= y * cols + x < n);
                }
                let j: usize = y * cols + x;
                let v: u8 = if j < glyph.len() {
                    glyph[j]
                } else {
                    0
                };
                let c = self.color.at_brightness(v);
                display.set_at(x, y, Pixel::new(c.r(), c.g(), c.b(), 255));
                x += 1;
            }
            proof {
                assert((y + 1) * cols == y * cols + cols) by (nonlinear_arith);
            }
            y += 1;
        }
        assert(display.frame() =~= letter_frame(self.color, g, n as nat));
    }
}

impl<D: PixelDisplay> Animation<D> for Letters {
    open spec fn spec_set_up(&self, next: &Self, rows: nat, cols: nat, before: Seq<Pixel>, after: Seq<Pixel>) -> bool {
        &&& next.spec_color() == Pixel(crate::pixel::pack(255, 255, 255, 255))
        &&& next.spec_glyphs() == self.spec_glyphs()
        &&& after == before
    }

    open spec fn spec_updated(
        &self,
        next: &Self,
        rows: nat,
        cols: nat,
        before: Seq<Pixel>,
        after: Seq<Pixel>,
        delta: u64,
        elapsed: u64,
    ) -> bool {
        self.updates_to(next, rows, cols, before, after, elapsed)
    }

    open spec fn spec_is_finished(&self, elapsed: u64) -> bool {
        elapsed > 26 * SECOND
    }

    fn setup(&mut self, display: &mut D)
        ensures
            final(self).spec_color() == Pixel(crate::pixel::pack(255, 255, 255, 255)),
            final(self).spec_glyphs() == old(self).spec_glyphs(),
            *final(display) == *old(display),
    {
        self.color = Pixel::new(255, 255, 255, 255);
    }

    fn update(&mut self, display: &mut D, delta: u64, elapsed: u64)
        ensures
            old(self).updates_to(
                final(self),
                old(display).spec_rows(),
                old(display).spec_cols(),
                old(display).frame(),
                final(display).frame(),
                elapsed,
            ),
    {
        let rows = display.rows();
        let cols = display.cols();
        if rows == 0 || cols <= usize::MAX / rows {
            proof {
                if rows == 0 {
                    assert(rows * cols == 0) by (nonlinear_arith)
                        requires rows == 0;
                } else {
                    assert(rows * cols <= rows * (usize::MAX / rows)) by (nonlinear_arith)
                        requires cols <= usize::MAX / rows, rows > 0;
                    assert(rows * (usize::MAX / rows) <= usize::MAX) by (nonlinear_arith)
                        requires rows > 0;
                }
            }
            self.draw(display, elapsed);
        } else {
            proof {
                assert(rows * cols > usize::MAX) by (nonlinear_arith)
                    requires cols > usize::MAX / rows, rows > 0;
            }
        }
    }

    fn is_finished(&self, display: &D, elapsed: u64) -> (r: bool) {
        elapsed > 26 * SECOND
    }
}

} // verus!
