use vstd::prelude::*;
use crate::pixel::Pixel;
use crate::buffer::Samplable;
use crate::wave::UNIT;

verus! {

/// The distance between two lattice coordinates.
pub open spec fn gap(a: u64, b: u64) -> int {
    if a < b {
        b - a
    } else {
        a - b
    }
}

/// The squared distance between `(px, py)` and `(ox, oy)`.
pub open spec fn sqr_dist(px: u64, py: u64, ox: u64, oy: u64) -> int {
    gap(px, ox) * gap(px, ox) + gap(py, oy) * gap(py, oy)
}

fn gap_of(a: u64, b: u64) -> (d: u64)
    ensures
        d == gap(a, b),
{
    if a < b {
        b - a
    } else {
        a - b
    }
}

/// Whether `(dx, dy)` lies strictly inside a circle of radius `r` about the
/// origin, without overflow.
fn inside(dx: u64, dy: u64, r: u64) -> (b: bool)
    ensures
        b == (dx * dx + dy * dy < r * r),
{
    if dx >= r || dy >= r {
        proof {
            assert(dx * dx + dy * dy >= r * r) by (nonlinear_arith)
                requires dx >= r || dy >= r, r >= 0;
        }
        return false;
    }
    proof {
        assert(dx * dx < r * r && dy * dy < r * r) by (nonlinear_arith)
            requires dx < r, dy < r;
        assert(r * r <= u64::MAX as int * u64::MAX as int) by (nonlinear_arith)
            requires r <= u64::MAX;
    }
    let r2: u128 = (r as u128) * (r as u128);
    let dx2: u128 = (dx as u128) * (dx as u128);
    let dy2: u128 = (dy as u128) * (dy as u128);
    dy2 < r2 - dx2
}

/// A disc of one color on the sub-step lattice.
pub struct Circle {
    pub origin_x: u64,
    pub origin_y: u64,
    pub radius: u64,
    pub color: Pixel,
}

impl Circle {
    pub fn new(radius: u64, origin_x: u64, origin_y: u64, color: Pixel) -> (c: Circle)
        ensures
            c == (Circle { origin_x, origin_y, radius, color }),
    {
        Circle { origin_x, origin_y, radius, color }
    }

    pub fn set_radius(&mut self, radius: u64)
        ensures
            *final(self) == (Circle { radius, ..*old(self) }),
    {
        self.radius = radius;
    }

    pub fn set_color(&mut self, color: Pixel)
        ensures
            *final(self) == (Circle { color, ..*old(self) }),
    {
        self.color = color;
    }
}

impl Samplable for Circle {
    /// The color at points strictly closer to the origin than the radius.
    open spec fn spec_sample(&self, px: u64, py: u64) -> Option<Pixel> {
        if sqr_dist(px, py, self.origin_x, self.origin_y) < self.radius * self.radius {
            Some(self.color)
        } else {
            None
        }
    }

    fn sample(&self, px: u64, py: u64) -> (r: Option<Pixel>) {
        if inside(gap_of(px, self.origin_x), gap_of(py, self.origin_y), self.radius) {
            Some(self.color)
        } else {
            None
        }
    }
}

/// A circle's center is covered while its radius is positive, and no point
/// farther from the center than the radius is.
pub proof fn lemma_circle_coverage(c: Circle, px: u64, py: u64)
    ensures
        c.radius > 0 ==> c.spec_sample(c.origin_x, c.origin_y) == Some(c.color),
        sqr_dist(px, py, c.origin_x, c.origin_y) > c.radius * c.radius ==> c.spec_sample(px, py)
            is None,
{
    if c.radius > 0 {
        assert(c.radius * c.radius > 0) by (nonlinear_arith)
            requires c.radius > 0;
    }
}

/// A disc whose color runs from `outer` at the center to `inner` at the
/// edge: at squared distance `d2` of a squared radius `r2`, each channel is
/// `(inner * d2 + outer * (r2 - d2)) / r2`.
pub struct BlendedCircle {
    pub origin_x: u64,
    pub origin_y: u64,
    pub radius: u32,
    pub inner: Pixel,
    pub outer: Pixel,
}

/// The blend of channel values `a` (weight `d2`) and `b` (weight `r2 - d2`).
pub open spec fn blend(a: int, b: int, d2: int, r2: int) -> int {
    (a * d2 + b * (r2 - d2)) / r2
}

impl Samplable for BlendedCircle {
    open spec fn spec_sample(&self, px: u64, py: u64) -> Option<Pixel> {
        let d2 = sqr_dist(px, py, self.origin_x, self.origin_y);
        let r2 = self.radius * self.radius;
        if d2 < r2 {
            Some(
                Pixel::from_channels(
                    |i: int| blend(self.inner.channel(i) as int, self.outer.channel(i) as int, d2, r2) as u8,
                ),
            )
        } else {
            None
        }
    }

    fn sample(&self, px: u64, py: u64) -> (res: Option<Pixel>) {
        let dx = gap_of(px, self.origin_x);
        let dy = gap_of(py, self.origin_y);
        let r = self.radius as u64;
        if !inside(dx, dy, r) {
            return None;
        }
        proof {
            assert(dx < r && dy < r) by (nonlinear_arith)
                requires dx * dx + dy * dy < r * r, dx >= 0, dy >= 0, r >= 0;
            assert(r * r < 0x1_0000_0000 * 0x1_0000_0000) by (nonlinear_arith)
                requires r < 0x1_0000_0000, r >= 0;
        }
        let d2: u64 = dx * dx + dy * dy;
        let r2: u64 = r * r;
        let p = Pixel::new(
            blend_channel(self.inner.r(), self.outer.r(), d2, r2),
            blend_channel(self.inner.g(), self.outer.g(), d2, r2),
            blend_channel(self.inner.b(), self.outer.b(), d2, r2),
            blend_channel(self.inner.w(), self.outer.w(), d2, r2),
        );
        proof {
            let f = |i: int| blend(self.inner.channel(i) as int, self.outer.channel(i) as int, d2 as int, r2 as int) as u8;
            assert(p.0 == crate::pixel::pack(f(0), f(1), f(2), f(3)));
        }
        Some(p)
    }
}

/// The blended circle's center is covered while its radius is positive, and
/// no point farther from the center than the radius is.
pub proof fn lemma_blended_circle_coverage(c: BlendedCircle, px: u64, py: u64)
    ensures
        c.radius > 0 ==> c.spec_sample(c.origin_x, c.origin_y) is Some,
        sqr_dist(px, py, c.origin_x, c.origin_y) > c.radius * c.radius ==> c.spec_sample(px, py)
            is None,
{
    if c.radius > 0 {
        assert(c.radius * c.radius > 0) by (nonlinear_arith)
            requires c.radius > 0;
    }
}

fn blend_channel(a: u8, b: u8, d2: u64, r2: u64) -> (c: u8)
    requires
        d2 < r2,
    ensures
        c == blend(a as int, b as int, d2 as int, r2 as int),
{
    proof {
        let (ai, bi, di, ri) = (a as int, b as int, d2 as int, r2 as int);
        assert(0 <= ai * di + bi * (ri - di) <= 255 * ri) by (nonlinear_arith)
            requires 0 <= ai <= 255, 0 <= bi <= 255, 0 <= di < ri;
        assert((ai * di + bi * (ri - di)) / ri <= 255) by (nonlinear_arith)
            requires 0 <= ai * di + bi * (ri - di) <= 255 * ri, ri > 0;
        assert(255 * ri <= 255 * u64::MAX as int) by (nonlinear_arith)
            requires ri <= u64::MAX;
    }
    let n: u128 = (a as u128) * (d2 as u128) + (b as u128) * ((r2 - d2) as u128);
    (n / (r2 as u128)) as u8
}

/// Lattice coordinates at or beyond this bound lie outside every stripe.
pub const STRIPE_LIMIT: u64 = 0x100_0000_0000;

/// The largest number of sub-steps per cell of a stripe pattern.
pub const STRIPE_MAX_DENSITY: u64 = 256;

/// The color of band `k` of the four that the stripes cycle through.
pub open spec fn band_color(k: int) -> Pixel {
    if k == 0 {
        Pixel(crate::pixel::pack(255, 0, 255, 255))
    } else if k == 1 {
        Pixel(crate::pixel::pack(0, 255, 255, 255))
    } else if k == 2 {
        Pixel(crate::pixel::pack(255, 255, 0, 255))
    } else {
        Pixel(crate::pixel::pack(255, 255, 255, 255))
    }
}

fn band_color_of(k: u128) -> (p: Pixel)
    ensures
        p == band_color(k as int),
{
    if k == 0 {
        Pixel::new(255, 0, 255, 255)
    } else if k == 1 {
        Pixel::new(0, 255, 255, 255)
    } else if k == 2 {
        Pixel::new(255, 255, 0, 255)
    } else {
        Pixel::new(255, 255, 255, 255)
    }
}

/// Stripes one cell wide, every other one lit, in a frame rotated about
/// `(center_x, center_y)` by the angle whose fixed-point cosine and sine are
/// `cos` and `sin`; lit stripes cycle through four colors.
pub struct StripePattern {
    pub center_x: u64,
    pub center_y: u64,
    pub cos: i64,
    pub sin: i64,
    pub density: u64,
}

impl StripePattern {
    /// The pattern's parameters are within the bounds it is defined for.
    pub open spec fn in_bounds(&self) -> bool {
        &&& self.center_x < STRIPE_LIMIT
        &&& self.center_y < STRIPE_LIMIT
        &&& -UNIT <= self.cos <= UNIT
        &&& -UNIT <= self.sin <= UNIT
        &&& 0 < self.density <= STRIPE_MAX_DENSITY
    }

    /// The first coordinate of `(px, py)` in the rotated frame, scaled by
    /// `UNIT`.
    pub open spec fn rotated_x(&self, px: u64, py: u64) -> int {
        self.cos * (px - self.center_x) - self.sin * (py - self.center_y) + self.center_x * UNIT
    }

    /// An offset of a whole number of eight-stripe periods that makes every
    /// rotated coordinate in bounds positive.
    pub open spec fn shift(&self) -> int {
        8 * UNIT * self.density * 0x100_0000_0000
    }

    /// The stripe of `(px, py)`, counted from the shifted origin.
    pub open spec fn stripe(&self, px: u64, py: u64) -> int {
        (self.rotated_x(px, py) + self.shift()) / (UNIT * self.density)
    }
}

impl Samplable for StripePattern {
    open spec fn spec_sample(&self, px: u64, py: u64) -> Option<Pixel> {
        if self.in_bounds() && px < STRIPE_LIMIT && py < STRIPE_LIMIT && self.stripe(px, py) % 2 == 0 {
            Some(band_color((self.stripe(px, py) / 2) % 4))
        } else {
            None
        }
    }

    fn sample(&self, px: u64, py: u64) -> (r: Option<Pixel>) {
        if !(self.center_x < STRIPE_LIMIT && self.center_y < STRIPE_LIMIT && -UNIT <= self.cos
            && self.cos <= UNIT && -UNIT <= self.sin && self.sin <= UNIT && 0 < self.density
            && self.density <= STRIPE_MAX_DENSITY && px < STRIPE_LIMIT && py < STRIPE_LIMIT) {
            return None;
        }
        let dx: i128 = px as i128 - self.center_x as i128;
        let dy: i128 = py as i128 - self.center_y as i128;
        let (c, s) = (self.cos as i128, self.sin as i128);
        proof {
            let lim = STRIPE_LIMIT as int;
            assert(-lim <= dx <= lim && -lim <= dy <= lim);
            assert(-UNIT * lim <= c * dx <= UNIT * lim) by (nonlinear_arith)
                requires -UNIT <= c <= UNIT, -lim <= dx <= lim;
            assert(-UNIT * lim <= s * dy <= UNIT * lim) by (nonlinear_arith)
                requires -UNIT <= s <= UNIT, -lim <= dy <= lim;
            assert(self.density >= 1);
            assert(0 <= self.center_x * UNIT <= lim * UNIT) by (nonlinear_arith)
                requires 0 <= self.center_x <= lim;
            assert(8 * UNIT * self.density * lim >= 8 * UNIT * lim) by (nonlinear_arith)
                requires self.density >= 1, lim > 0;
            assert(8 * UNIT * self.density * lim <= 8 * UNIT * 256 * lim) by (nonlinear_arith)
                requires self.density <= 256, lim > 0;
        }
        let rx: i128 = c * dx - s * dy + (self.center_x as i128) * (UNIT as i128);
        let shift: i128 = 8 * (UNIT as i128) * (self.density as i128) * 0x100_0000_0000;
        let v: u128 = (rx + shift) as u128;
        let cell_width: u128 = (UNIT as u128) * (self.density as u128);
        let k: u128 = v / cell_width;
        if k % 2 == 0 {
            Some(band_color_of((k / 2) % 4))
        } else {
            None
        }
    }
}

} // verus!
