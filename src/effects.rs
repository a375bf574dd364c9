use vstd::prelude::*;
use crate::pixel::Pixel;
use crate::display::PixelDisplay;
use crate::buffer::{
    Buffer, ReconstructionFilter, GAUSSIAN_DENSITY, super_sample_to_display, normalized_frame, samples_pass,
    empty_cells,
};
use crate::shapes::{BlendedCircle, StripePattern, STRIPE_LIMIT, STRIPE_MAX_DENSITY};
use crate::wave::{TURN, QUARTER_TURN, UNIT, sine, cosine, spec_sine};
use crate::scheduler::Animation;
use crate::fireflies::Fireflies;
use crate::letters::Letters;

verus! {

/// Microseconds in a second.
pub const SECOND: u64 = 1_000_000;

/// The color of the lit cells of the fill sweep.
pub open spec fn sweep_color() -> Pixel {
    Pixel(crate::pixel::pack(255, 0, 127, 255))
}

/// Whether cell `k` of `n` is lit `elapsed` microseconds into the fill sweep:
/// twenty cells light per second, in row-major order, and the sweep starts
/// over once all `n` are lit.
pub open spec fn sweep_lit(k: int, n: int, elapsed: u64) -> bool {
    k * SECOND < (elapsed as int * 20) % (n * SECOND)
}

/// The sweep's frame of `n` cells `elapsed` microseconds in.
pub open spec fn sweep_frame(n: nat, elapsed: u64) -> Seq<Pixel> {
    Seq::new(n, |j: int| if sweep_lit(j, n as int, elapsed) {
        sweep_color()
    } else {
        Pixel(0)
    })
}

/// The remainder of `a` by `m`, with the sign of `a`, as Rust's `%` gives it.
pub open spec fn trunc_rem(a: int, m: int) -> int {
    if a >= 0 {
        a % m
    } else {
        -((-a) % m)
    }
}

/// The frame counter after one more update: `(i + 1) % 49`, the increment
/// wrapping at `i32::MAX`.
pub open spec fn next_count(i: i32) -> i32 {
    let j = if i == i32::MAX {
        i32::MIN as int
    } else {
        i + 1
    };
    trunc_rem(j, 49) as i32
}

/// Lights the grid cell by cell in reading order, twenty per second, over and
/// over; done after 4.9 seconds.
pub struct BasicAnimation {
    i: i32,
}

/// The fill sweep under its other name.
pub type MyAnimation = BasicAnimation;

impl Default for BasicAnimation {
    fn default() -> (a: BasicAnimation)
        ensures
            a.frame_count() == 0,
    {
        BasicAnimation::new(0)
    }
}

impl BasicAnimation {
    /// A sweep whose frame counter starts at `i`.
    pub fn new(i: i32) -> (a: BasicAnimation)
        ensures
            a.frame_count() == i,
    {
        BasicAnimation { i }
    }

    /// The number of updates since setup, modulo 49.
    pub closed spec fn frame_count(&self) -> i32 {
        self.i
    }

    pub fn count(&self) -> (c: i32)
        ensures
            c == self.frame_count(),
    {
        self.i
    }

    /// What an update does: the counter steps, and the frame becomes the
    /// sweep's, on a grid small enough to address.
    pub open spec fn updates_to(
        &self,
        next: &Self,
        rows: nat,
        cols: nat,
        before: Seq<Pixel>,
        after: Seq<Pixel>,
        elapsed: u64,
    ) -> bool {
        &&& next.frame_count() == next_count(self.frame_count())
        &&& rows * cols <= usize::MAX ==> after == sweep_frame(before.len(), elapsed)
        &&& rows * cols > usize::MAX ==> after == before
    }

    /// Draws the sweep as it stands `elapsed` microseconds in.
    pub fn draw<D: PixelDisplay>(&self, display: &mut D, elapsed: u64)
        requires
            old(display).frame().len() == old(display).spec_rows() * old(display).spec_cols(),
            old(display).frame().len() <= usize::MAX,
        ensures
            final(display).frame().len() == final(display).spec_rows() * final(display).spec_cols(),
            final(display).spec_rows() == old(display).spec_rows(),
            final(display).spec_cols() == old(display).spec_cols(),
            final(display).shown() == old(display).shown(),
            final(display).frame() == sweep_frame(old(display).frame().len(), elapsed),
    {
        let rows = display.rows();
        let cols = display.cols();
        let ghost n = rows * cols;
        let total: u128 = (rows * cols) as u128;
        let lit = Pixel::new(255, 0, 127, 255);
        let period: u128 = total * (SECOND as u128);
        let phase: u128 = if period > 0 {
            ((elapsed as u128) * 20) % period
        } else {
            0
        };
        let mut y: usize = 0;
        while y < rows
            invariant
                n <= usize::MAX,
                y <= rows,
                rows == display.spec_rows(),
                cols == display.spec_cols(),
                n == rows * cols,
                total == n,
                period == n * SECOND,
                n > 0 ==> phase == (elapsed as int * 20) % (n * SECOND),
                lit == sweep_color(),
                display.frame().len() == n,
                display.shown() == old(display).shown(),
                forall|j: int|
                    0 <= j < y * cols ==> #[trigger] display.frame()[j] == (if sweep_lit(j, n, elapsed) {
                        sweep_color()
                    } else {
                        Pixel(0)
                    }),
            decreases rows - y,
        {
            let mut x: usize = 0;
            while x < cols
                invariant
                    n <= usize::MAX,
                    y < rows,
                    x <= cols,
                    rows == display.spec_rows(),
                    cols == display.spec_cols(),
                    n == rows * cols,
                    total == n,
                    period == n * SECOND,
                    n > 0 ==> phase == (elapsed as int * 20) % (n * SECOND),
                    lit == sweep_color(),
                    display.frame().len() == n,
                    display.shown() == old(display).shown(),
                    forall|j: int|
                        0 <= j < y * cols + x ==> #[trigger] display.frame()[j] == (if sweep_lit(j, n, elapsed) {
                            sweep_color()
                        } else {
                            Pixel(0)
                        }),
                decreases cols - x,
            {
                proof {
                    crate::display::lemma_cell_in_grid(x as int, y as int, rows as int, cols as int);
                    assert(y * cols <= y * cols + x < n);
                    assert(n <= usize::MAX);
                    assert(usize::MAX <= u64::MAX);
                }
                let k: u128 = (y * cols + x) as u128;
                proof {
                    assert(k * SECOND <= u64::MAX * SECOND) by (nonlinear_arith)
                        requires k <= u64::MAX;
                }
                let p = if k * (SECOND as u128) < phase {
                    lit
                } else {
                    Pixel(0)
                };
                display.set_at(x, y, p);
                x += 1;
            }
            proof {
                assert((y + 1) * cols == y * cols + cols) by (nonlinear_arith);
            }
            y += 1;
        }
        assert(display.frame() =~= sweep_frame(n as nat, elapsed));
    }
}

impl<D: PixelDisplay> Animation<D> for BasicAnimation {
    open spec fn spec_set_up(&self, next: &Self, rows: nat, cols: nat, before: Seq<Pixel>, after: Seq<Pixel>) -> bool {
        next.frame_count() == 0 && after == before
    }

    open spec fn spec_updated(
        &self,
        next: &Self,
        rows: nat,
        cols: nat,
        before: Seq<Pixel>,
        after: Seq<Pixel>,
        delta: u64,
        elapsed: u64,
    ) -> bool {
        self.updates_to(next, rows, cols, before, after, elapsed)
    }

    open spec fn spec_is_finished(&self, elapsed: u64) -> bool {
        elapsed > 4_900_000
    }

    fn setup(&mut self, display: &mut D)
        ensures
            final(self).frame_count() == 0,
            *final(display) == *old(display),
    {
        self.i = 0;
    }

    fn update(&mut self, display: &mut D, delta: u64, elapsed: u64)
        ensures
            old(self).updates_to(
                final(self),
                old(display).spec_rows(),
                old(display).spec_cols(),
                old(display).frame(),
                final(display).frame(),
                elapsed,
            ),
    {
        let rows = display.rows();
        let cols = display.cols();
        if rows == 0 || cols <= usize::MAX / rows {
            proof {
                assert(display.frame().len() == rows * cols);
                if rows == 0 {
                    assert(rows * cols == 0) by (nonlinear_arith)
                        requires rows == 0;
                }
                if rows > 0 {
                    assert(rows * cols <= rows * (usize::MAX / rows)) by (nonlinear_arith)
                        requires cols <= usize::MAX / rows, rows > 0;
                    assert(rows * (usize::MAX / rows) <= usize::MAX) by (nonlinear_arith)
                        requires rows > 0;
                }
            }
            self.draw(display, elapsed);
        } else {
            proof {
                assert(rows * cols > usize::MAX) by (nonlinear_arith)
                    requires cols > usize::MAX / rows, rows > 0;
            }
        }
        let j: i64 = if self.i == i32::MAX {
            i32::MIN as i64
        } else {
            self.i as i64 + 1
        };
        self.i = if j >= 0 {
            (j as u64 % 49) as i32
        } else {
            -(((-j) as u64 % 49) as i32)
        };
    }

    fn is_finished(&self, display: &D, elapsed: u64) -> (r: bool) {
        elapsed > 4_900_000
    }
}

/// The full product of two 64-bit values.
pub fn mul_wide(a: u64, b: u64) -> (r: u128)
    ensures
        r == a * b,
{
    proof {
        assert(a * b <= u64::MAX as int * u64::MAX as int) by (nonlinear_arith)
            requires a <= u64::MAX, b <= u64::MAX, a >= 0, b >= 0;
    }
    (a as u128) * (b as u128)
}

/// Microseconds in one period of the circle's radius: 2π seconds.
pub const CIRCLE_PERIOD: u64 = 6_283_185;

/// The phase of the circle's radius `elapsed` microseconds in, as an angle.
pub open spec fn circle_angle(elapsed: u64) -> u64 {
    ((elapsed % CIRCLE_PERIOD) as int * TURN / CIRCLE_PERIOD as int) as u64
}

/// The circle's largest radius in sub-steps, on a grid whose shorter side is
/// `m` cells of `d` sub-steps: eleven fourteenths of the side, 5.5 cells of 7.
pub open spec fn circle_max_radius(m: int, d: int) -> int {
    m * d * 11 / 14
}

/// The circle's radius in sub-steps `elapsed` microseconds in: it swells
/// from zero to the largest radius and back as `(1 - cos) / 2`.
pub open spec fn circle_radius(elapsed: u64, m: int, d: int) -> int {
    circle_max_radius(m, d) * (UNIT - spec_sine(((circle_angle(elapsed) % TURN) + crate::wave::QUARTER_TURN) as u64)) / (2 * UNIT)
}

/// The radius of the circle `elapsed` microseconds in, on a grid whose
/// shorter side is `m` cells of `d` sub-steps.
pub fn circle_radius_at(elapsed: u64, m: u64, d: u64) -> (r: u64)
    requires
        m * d <= 0x1_0000_0000,
    ensures
        r == circle_radius(elapsed, m as int, d as int),
        r <= circle_max_radius(m as int, d as int),
{
    let angle: u64 = (mul_wide(elapsed % CIRCLE_PERIOD, TURN) / (CIRCLE_PERIOD as u128)) as u64;
    let c = cosine(angle);
    let max_r: u64 = m * d * 11 / 14;
    let k: u64 = (UNIT - c) as u64;
    proof {
        let (mr, ki) = (max_r as int, k as int);
        assert(0 <= ki <= 2 * UNIT);
        assert(mr * ki <= mr * (2 * UNIT)) by (nonlinear_arith)
            requires 0 <= ki <= 2 * UNIT, 0 <= mr;
        assert(mr * ki / (2 * UNIT) <= mr) by (nonlinear_arith)
            requires mr * ki <= mr * (2 * UNIT), 0 <= mr;
        assert(mr * ki <= 0x1_0000_0000 * 11 * (2 * UNIT)) by (nonlinear_arith)
            requires mr <= 0x1_0000_0000 * 11, 0 <= ki <= 2 * UNIT;
    }
    max_r * k / (2 * (UNIT as u64))
}

/// Whether a grid of `rows` by `cols` cells of `d` sub-steps is small enough
/// for the circle: not empty, a radius within 32 bits, and a lattice whose
/// points fit in 64 bits.
pub open spec fn circle_fits(rows: int, cols: int, d: int) -> bool {
    let m = if rows < cols {
        rows
    } else {
        cols
    };
    &&& m > 0
    &&& m * d <= 0x1_0000_0000
    &&& rows * cols <= usize::MAX
    &&& rows * d <= u64::MAX
    &&& cols * d <= u64::MAX
    &&& cols * d * (rows * d) <= u64::MAX
}

/// A disc at the middle of the grid whose radius swells and shrinks with
/// time, colored from white at the center to orange at the edge and drawn
/// with anti-aliasing; done after five seconds.
pub struct CircleAnimation {
    shape: BlendedCircle,
    filter: ReconstructionFilter,
}

impl Default for CircleAnimation {
    fn default() -> (a: CircleAnimation)
        ensures
            a.spec_shape() == (BlendedCircle {
                origin_x: 0,
                origin_y: 0,
                radius: 0,
                inner: Pixel(crate::pixel::pack(255, 128, 64, 255)),
                outer: Pixel(crate::pixel::pack(255, 255, 255, 255)),
            }),
            a.spec_filter().spec_density() == GAUSSIAN_DENSITY,
    {
        CircleAnimation {
            shape: BlendedCircle {
                origin_x: 0,
                origin_y: 0,
                radius: 0,
                inner: Pixel::new(255, 128, 64, 255),
                outer: Pixel::new(255, 255, 255, 255),
            },
            filter: ReconstructionFilter::gaussian(),
        }
    }
}

impl CircleAnimation {
    pub closed spec fn spec_shape(&self) -> BlendedCircle {
        self.shape
    }

    pub closed spec fn spec_filter(&self) -> ReconstructionFilter {
        self.filter
    }

    /// What an update does on a grid of `rows` by `cols` cells: on a grid
    /// the circle fits, the circle takes its radius for `elapsed` at the
    /// middle of the grid, keeping its colors, and the frame becomes its
    /// anti-aliased rendering; on another grid nothing changes.
    pub open spec fn updates_to(
        &self,
        next: &Self,
        rows: nat,
        cols: nat,
        before: Seq<Pixel>,
        after: Seq<Pixel>,
        elapsed: u64,
    ) -> bool {
        let d = self.spec_filter().spec_density() as int;
        let (r, c) = (rows as int, cols as int);
        let m = if r < c {
            r
        } else {
            c
        };
        &&& next.spec_filter() == self.spec_filter()
        &&& circle_fits(r, c, d) ==> {
            &&& next.spec_shape() == (BlendedCircle {
                radius: circle_radius(elapsed, m, d) as u32,
                origin_x: ((c - 1) * d / 2) as u64,
                origin_y: ((r - 1) * d / 2) as u64,
                ..self.spec_shape()
            })
            &&& after == normalized_frame(
                samples_pass(
                    empty_cells((r * c) as nat),
                    cols,
                    self.spec_filter(),
                    &next.spec_shape(),
                    (c * d) as nat,
                    (c * d * (r * d)) as nat,
                ),
            )
        }
        &&& !circle_fits(r, c, d) ==> next.spec_shape() == self.spec_shape() && after == before
    }

    /// The circle as drawn on the last update.
    pub fn shape(&self) -> (s: &BlendedCircle)
        ensures
            *s == self.spec_shape(),
    {
        &self.shape
    }

    /// Places the circle for `elapsed` on a grid of `rows` by `cols` and
    /// renders it onto the display.
    pub fn draw<D: PixelDisplay>(&mut self, display: &mut D, elapsed: u64)
        requires
            old(display).frame().len() == old(display).spec_rows() * old(display).spec_cols(),
        ensures
            final(display).frame().len() == final(display).spec_rows() * final(display).spec_cols(),
            final(display).spec_rows() == old(display).spec_rows(),
            final(display).spec_cols() == old(display).spec_cols(),
            final(display).shown() == old(display).shown(),
            old(self).updates_to(
                final(self),
                old(display).spec_rows(),
                old(display).spec_cols(),
                old(display).frame(),
                final(display).frame(),
                elapsed,
            ),
    {
        let rows = display.rows();
        let cols = display.cols();
        let d = self.filter.density();
        let m: usize = if rows < cols {
            rows
        } else {
            cols
        };
        if m == 0 || mul_wide(m as u64, d) > 0x1_0000_0000 || mul_wide(rows as u64, cols as u64) > (usize::MAX as u128) {
            return;
        }
        let width: u128 = mul_wide(cols as u64, d);
        let height: u128 = mul_wide(rows as u64, d);
        if height > u64::MAX as u128 || width > u64::MAX as u128 {
            return;
        }
        proof {
            assert(width * height <= u128::MAX) by (nonlinear_arith)
                requires width <= u64::MAX, height <= u64::MAX, width >= 0, height >= 0;
        }
        if width * height > u64::MAX as u128 {
            return;
        }
        let r = circle_radius_at(elapsed, m as u64, d);
        proof {
            assert(circle_max_radius(m as int, d as int) < 0x1_0000_0000);
        }
        self.shape.radius = r as u32;
        proof {
            assert((cols - 1) * d <= cols * d) by (nonlinear_arith)
                requires cols >= 1, d >= 0;
            assert((rows - 1) * d <= rows * d) by (nonlinear_arith)
                requires rows >= 1, d >= 0;
        }
        self.shape.origin_x = (cols as u64 - 1) * d / 2;
        self.shape.origin_y = (rows as u64 - 1) * d / 2;
        let mut buffer = Buffer::new(rows, cols);
        super_sample_to_display(&self.shape, &self.filter, &mut buffer, display);
    }
}

impl<D: PixelDisplay> Animation<D> for CircleAnimation {
    open spec fn spec_set_up(&self, next: &Self, rows: nat, cols: nat, before: Seq<Pixel>, after: Seq<Pixel>) -> bool {
        &&& next.spec_shape() == (BlendedCircle { radius: 0, ..self.spec_shape() })
        &&& next.spec_filter() == self.spec_filter()
        &&& after == before
    }

    open spec fn spec_updated(
        &self,
        next: &Self,
        rows: nat,
        cols: nat,
        before: Seq<Pixel>,
        after: Seq<Pixel>,
        delta: u64,
        elapsed: u64,
    ) -> bool {
        self.updates_to(next, rows, cols, before, after, elapsed)
    }

    open spec fn spec_is_finished(&self, elapsed: u64) -> bool {
        elapsed > 5 * SECOND
    }

    fn setup(&mut self, display: &mut D)
        ensures
            final(self).spec_shape() == (BlendedCircle { radius: 0, ..old(self).spec_shape() }),
            final(self).spec_filter() == old(self).spec_filter(),
            *final(display) == *old(display),
    {
        self.shape.radius = 0;
    }

    fn update(&mut self, display: &mut D, delta: u64, elapsed: u64)
        ensures
            old(self).updates_to(
                final(self),
                old(display).spec_rows(),
                old(display).spec_cols(),
                old(display).frame(),
                final(display).frame(),
                elapsed,
            ),
    {
        self.draw(display, elapsed);
    }

    fn is_finished(&self, display: &D, elapsed: u64) -> (r: bool) {
        elapsed > 5 * SECOND
    }
}

/// The phase of the stripes' sweep `elapsed` microseconds in, as an angle:
/// `14 t / π` radians after `t` seconds.
pub open spec fn stripe_phase(elapsed: u64) -> int {
    elapsed as int * 458752 / 9_869_604
}

/// A signed fixed-point value scaled from `UNIT` per `2π` to angle units
/// per turn, rounded toward zero.
pub open spec fn wave_to_turns(v: int) -> int {
    if v >= 0 {
        v * 1_000_000 / 6_283_185
    } else {
        -((-v) * 1_000_000 / 6_283_185)
    }
}

/// The angle of the stripes `elapsed` microseconds in: with the phase `y`
/// in radians, `(sin y + y) / 4` radians, taken within one turn; the sine
/// term makes the sweep speed up and slow down.
pub open spec fn stripe_angle(elapsed: u64) -> int {
    let y = stripe_phase(elapsed) % (4 * TURN as int);
    (y / 4 + TURN + wave_to_turns(spec_sine(y as u64))) % (TURN as int)
}

/// The angle of the stripes `elapsed` microseconds in.
pub fn stripe_angle_at(elapsed: u64) -> (a: u64)
    ensures
        a == stripe_angle(elapsed),
        a < TURN,
{
    let y: u64 = ((mul_wide(elapsed, 458752) / 9_869_604) % (4 * TURN as u128)) as u64;
    let s = sine(y);
    let off: i64 = if s >= 0 {
        s * 1_000_000 / 6_283_185
    } else {
        -((-s) * 1_000_000 / 6_283_185)
    };
    proof {
        assert(-2700 <= off <= 2700);
    }
    ((y / 4 + TURN) as i64 + off) as u64 % TURN
}

/// Four-colored stripes that turn about the middle of the grid, drawn with
/// anti-aliasing; done after ten seconds.
pub struct StripeAnimation {
    pattern: StripePattern,
    filter: ReconstructionFilter,
}

impl Default for StripeAnimation {
    fn default() -> (a: StripeAnimation)
        ensures
            a.spec_pattern() == (StripePattern {
                center_x: 0,
                center_y: 0,
                cos: UNIT,
                sin: 0,
                density: GAUSSIAN_DENSITY,
            }),
            a.spec_filter().spec_density() == GAUSSIAN_DENSITY,
    {
        StripeAnimation {
            pattern: StripePattern { center_x: 0, center_y: 0, cos: UNIT, sin: 0, density: GAUSSIAN_DENSITY },
            filter: ReconstructionFilter::gaussian(),
        }
    }
}

impl StripeAnimation {
    pub closed spec fn spec_pattern(&self) -> StripePattern {
        self.pattern
    }

    pub closed spec fn spec_filter(&self) -> ReconstructionFilter {
        self.filter
    }

    /// What an update does on a grid of `rows` by `cols` cells: on a grid
    /// that suits the stripes, they turn to their angle for `elapsed` about
    /// the middle of the grid and the frame becomes their anti-aliased
    /// rendering; on another grid nothing changes.
    pub open spec fn updates_to(
        &self,
        next: &Self,
        rows: nat,
        cols: nat,
        before: Seq<Pixel>,
        after: Seq<Pixel>,
        elapsed: u64,
    ) -> bool {
        let d = self.spec_filter().spec_density() as int;
        let (r, c) = (rows as int, cols as int);
        let a = stripe_angle(elapsed);
        &&& next.spec_filter() == self.spec_filter()
        &&& stripes_fit(r, c, d) ==> {
            &&& next.spec_pattern() == (StripePattern {
                center_x: ((c - 1) * d / 2) as u64,
                center_y: ((r - 1) * d / 2) as u64,
                cos: spec_sine(((a % TURN as int) + QUARTER_TURN) as u64) as i64,
                sin: spec_sine(a as u64) as i64,
                density: d as u64,
            })
            &&& after == normalized_frame(
                samples_pass(
                    empty_cells((r * c) as nat),
                    cols,
                    self.spec_filter(),
                    &next.spec_pattern(),
                    (c * d) as nat,
                    (c * d * (r * d)) as nat,
                ),
            )
        }
        &&& !stripes_fit(r, c, d) ==> next.spec_pattern() == self.spec_pattern() && after == before
    }

    /// Turns the stripes to their angle for `elapsed` about the middle of the
    /// grid and renders them onto the display.
    pub fn draw<D: PixelDisplay>(&mut self, display: &mut D, elapsed: u64)
        requires
            old(display).frame().len() == old(display).spec_rows() * old(display).spec_cols(),
        ensures
            final(display).frame().len() == final(display).spec_rows() * final(display).spec_cols(),
            final(display).spec_rows() == old(display).spec_rows(),
            final(display).spec_cols() == old(display).spec_cols(),
            final(display).shown() == old(display).shown(),
            old(self).updates_to(
                final(self),
                old(display).spec_rows(),
                old(display).spec_cols(),
                old(display).frame(),
                final(display).frame(),
                elapsed,
            ),
    {
        let rows = display.rows();
        let cols = display.cols();
        let d = self.filter.density();
        if rows == 0 || cols == 0 || d == 0 || d > STRIPE_MAX_DENSITY || rows as u64 >= STRIPE_LIMIT
            || cols as u64 >= STRIPE_LIMIT || mul_wide(rows as u64, cols as u64) > (usize::MAX as u128) {
            return;
        }
        let width: u128 = mul_wide(cols as u64, d);
        let height: u128 = mul_wide(rows as u64, d);
        if height > u64::MAX as u128 || width > u64::MAX as u128 {
            return;
        }
        proof {
            assert(width * height <= u128::MAX) by (nonlinear_arith)
                requires width <= u64::MAX, height <= u64::MAX, width >= 0, height >= 0;
        }
        if width * height > u64::MAX as u128 {
            return;
        }
        proof {
            assert((cols - 1) * d <= cols * d) by (nonlinear_arith)
                requires cols >= 1, d >= 0;
            assert((rows - 1) * d <= rows * d) by (nonlinear_arith)
                requires rows >= 1, d >= 0;
        }
        let a = stripe_angle_at(elapsed);
        self.pattern = StripePattern {
            center_x: (cols as u64 - 1) * d / 2,
            center_y: (rows as u64 - 1) * d / 2,
            cos: cosine(a),
            sin: sine(a),
            density: d,
        };
        let mut buffer = Buffer::new(rows, cols);
        super_sample_to_display(&self.pattern, &self.filter, &mut buffer, display);
    }
}

/// Whether a grid of `rows` by `cols` cells of `d` sub-steps suits the
/// stripes: not empty, within the pattern's bounds, and a lattice whose
/// points fit in 64 bits.
pub open spec fn stripes_fit(rows: int, cols: int, d: int) -> bool {
    &&& 0 < rows < STRIPE_LIMIT
    &&& 0 < cols < STRIPE_LIMIT
    &&& 0 < d <= STRIPE_MAX_DENSITY
    &&& rows * cols <= usize::MAX
    &&& rows * d <= u64::MAX
    &&& cols * d <= u64::MAX
    &&& cols * d * (rows * d) <= u64::MAX
}

impl<D: PixelDisplay> Animation<D> for StripeAnimation {
    open spec fn spec_set_up(&self, next: &Self, rows: nat, cols: nat, before: Seq<Pixel>, after: Seq<Pixel>) -> bool {
        &&& next.spec_pattern() == (StripePattern { cos: UNIT, sin: 0, ..self.spec_pattern() })
        &&& next.spec_filter() == self.spec_filter()
        &&& after == before
    }

    open spec fn spec_updated(
        &self,
        next: &Self,
        rows: nat,
        cols: nat,
        before: Seq<Pixel>,
        after: Seq<Pixel>,
        delta: u64,
        elapsed: u64,
    ) -> bool {
        self.updates_to(next, rows, cols, before, after, elapsed)
    }

    open spec fn spec_is_finished(&self, elapsed: u64) -> bool {
        elapsed > 10 * SECOND
    }

    fn setup(&mut self, display: &mut D)
        ensures
            final(self).spec_pattern() == (StripePattern { cos: UNIT, sin: 0, ..old(self).spec_pattern() }),
            final(self).spec_filter() == old(self).spec_filter(),
            *final(display) == *old(display),
    {
        self.pattern.cos = UNIT;
        self.pattern.sin = 0;
    }

    fn update(&mut self, display: &mut D, delta: u64, elapsed: u64)
        ensures
            old(self).updates_to(
                final(self),
                old(display).spec_rows(),
                old(display).spec_cols(),
                old(display).frame(),
                final(display).frame(),
                elapsed,
            ),
    {
        self.draw(display, elapsed);
    }

    fn is_finished(&self, display: &D, elapsed: u64) -> (r: bool) {
        elapsed > 10 * SECOND
    }
}

/// One entry of a playlist: any of the animations of this library.
pub enum Effect {
    Basic(BasicAnimation),
    Circle(CircleAnimation),
    Stripe(StripeAnimation),
    Fireflies(Fireflies),
    Letters(Letters),
}

impl Effect {
    /// What setup does to each kind of animation; the kind stays.
    pub open spec fn sets_up_to(&self, next: &Self) -> bool {
        match (*self, *next) {
            (Effect::Basic(_), Effect::Basic(b)) => b.frame_count() == 0,
            (Effect::Circle(a), Effect::Circle(b)) => {
                &&& b.spec_shape() == (BlendedCircle { radius: 0, ..a.spec_shape() })
                &&& b.spec_filter() == a.spec_filter()
            },
            (Effect::Stripe(a), Effect::Stripe(b)) => {
                &&& b.spec_pattern() == (StripePattern { cos: UNIT, sin: 0, ..a.spec_pattern() })
                &&& b.spec_filter() == a.spec_filter()
            },
            (Effect::Fireflies(_), Effect::Fireflies(b)) => b.spec_balls().len() == 0 && b.spec_ball_id() == 0,
            (Effect::Letters(a), Effect::Letters(b)) => {
                &&& b.spec_color() == Pixel(crate::pixel::pack(255, 255, 255, 255))
                &&& b.spec_glyphs() == a.spec_glyphs()
            },
            _ => false,
        }
    }

    /// What an update does to each kind of animation and to the frame; the
    /// kind stays.
    pub open spec fn updates_to(
        &self,
        next: &Self,
        rows: nat,
        cols: nat,
        before: Seq<Pixel>,
        after: Seq<Pixel>,
        delta: u64,
        elapsed: u64,
    ) -> bool {
        match (*self, *next) {
            (Effect::Basic(a), Effect::Basic(b)) => a.updates_to(&b, rows, cols, before, after, elapsed),
            (Effect::Circle(a), Effect::Circle(b)) => a.updates_to(&b, rows, cols, before, after, elapsed),
            (Effect::Stripe(a), Effect::Stripe(b)) => a.updates_to(&b, rows, cols, before, after, elapsed),
            (Effect::Fireflies(a), Effect::Fireflies(b)) => a.spec_stepped(&b, rows, cols, before, after, delta),
            (Effect::Letters(a), Effect::Letters(b)) => a.updates_to(&b, rows, cols, before, after, elapsed),
            _ => false,
        }
    }
}

impl<D: PixelDisplay> Animation<D> for Effect {
    open spec fn spec_set_up(&self, next: &Self, rows: nat, cols: nat, before: Seq<Pixel>, after: Seq<Pixel>) -> bool {
        self.sets_up_to(next) && after == before
    }

    open spec fn spec_updated(
        &self,
        next: &Self,
        rows: nat,
        cols: nat,
        before: Seq<Pixel>,
        after: Seq<Pixel>,
        delta: u64,
        elapsed: u64,
    ) -> bool {
        self.updates_to(next, rows, cols, before, after, delta, elapsed)
    }

    open spec fn spec_is_finished(&self, elapsed: u64) -> bool {
        match self {
            Effect::Basic(a) => <BasicAnimation as Animation<D>>::spec_is_finished(a, elapsed),
            Effect::Circle(a) => <CircleAnimation as Animation<D>>::spec_is_finished(a, elapsed),
            Effect::Stripe(a) => <StripeAnimation as Animation<D>>::spec_is_finished(a, elapsed),
            Effect::Fireflies(a) => <Fireflies as Animation<D>>::spec_is_finished(a, elapsed),
            Effect::Letters(a) => <Letters as Animation<D>>::spec_is_finished(a, elapsed),
        }
    }

    fn setup(&mut self, display: &mut D)
        ensures
            old(self).sets_up_to(final(self)),
            *final(display) == *old(display),
    {
        match self {
            Effect::Basic(a) => a.setup(display),
            Effect::Circle(a) => a.setup(display),
            Effect::Stripe(a) => a.setup(display),
            Effect::Fireflies(a) => a.setup(display),
            Effect::Letters(a) => a.setup(display),
        }
    }

    fn update(&mut self, display: &mut D, delta: u64, elapsed: u64)
        ensures
            old(self).updates_to(
                final(self),
                old(display).spec_rows(),
                old(display).spec_cols(),
                old(display).frame(),
                final(display).frame(),
                delta,
                elapsed,
            ),
    {
        match self {
            Effect::Basic(a) => a.update(display, delta, elapsed),
            Effect::Circle(a) => a.update(display, delta, elapsed),
            Effect::Stripe(a) => a.update(display, delta, elapsed),
            Effect::Fireflies(a) => a.update(display, delta, elapsed),
            Effect::Letters(a) => a.update(display, delta, elapsed),
        }
    }

    fn is_finished(&self, display: &D, elapsed: u64) -> (r: bool) {
        match self {
            Effect::Basic(a) => a.is_finished(display, elapsed),
            Effect::Circle(a) => a.is_finished(display, elapsed),
            Effect::Stripe(a) => a.is_finished(display, elapsed),
            Effect::Fireflies(a) => a.is_finished(display, elapsed),
            Effect::Letters(a) => a.is_finished(display, elapsed),
        }
    }
}

} // verus!
