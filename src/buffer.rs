use vstd::prelude::*;
use crate::pixel::{Pixel, lemma_from_channels};
use crate::display::{PixelDisplay, cell_index};
use vstd::arithmetic::power2::pow2;

verus! {

/// The largest total weight a cell takes. Sums of channel times weight then
/// stay below `255 * WEIGHT_CAP`, well inside a `u128`; a deposit that would
/// pass the cap is dropped.
pub const WEIGHT_CAP: u128 = 0x10_0000_0000_0000_0000_0000_0000;

/// The largest weight that one sample gives a cell: the square of the
/// largest tap.
pub const MAX_SAMPLE_WEIGHT: u64 = 0xfffe_0001;

/// The number of sub-steps per cell of the Gaussian kernel.
pub const GAUSSIAN_DENSITY: u64 = 8;

/// A separable reconstruction kernel on a lattice of sub-steps. A cell of the
/// grid spans `density` sub-steps and has its center at `(x * density,
/// y * density)`. The kernel's weight for an offset `(dx, dy)` in sub-steps is
/// `taps[|dx|] * taps[|dy|]`, and zero where `|dx|` or `|dy|` reaches the
/// number of taps: the support radius.
pub struct ReconstructionFilter {
    density: u64,
    taps: Vec<u16>,
}

impl ReconstructionFilter {
    pub closed spec fn spec_density(&self) -> nat {
        self.density as nat
    }

    pub closed spec fn spec_taps(&self) -> Seq<u16> {
        self.taps@
    }

    /// The kernel's profile at a distance of `d` sub-steps along one axis.
    pub open spec fn spec_tap(&self, d: int) -> nat {
        let a = if d < 0 {
            -d
        } else {
            d
        };
        if a < self.spec_taps().len() {
            self.spec_taps()[a] as nat
        } else {
            0
        }
    }

    /// The kernel's weight for the offset `(dx, dy)` in sub-steps.
    pub open spec fn spec_weight(&self, dx: int, dy: int) -> nat {
        self.spec_tap(dx) * self.spec_tap(dy)
    }

    /// A kernel over `density` sub-steps per cell with the given profile:
    /// `taps[k]` is the weight at a distance of `k` sub-steps along one axis.
    pub fn new(density: u64, taps: Vec<u16>) -> (f: ReconstructionFilter)
        requires
            0 < density,
        ensures
            f.spec_density() == density,
            f.spec_taps() == taps@,
    {
        ReconstructionFilter { density, taps }
    }

    /// The Gaussian kernel `exp(-d^2) - exp(-1)` with a support radius of
    /// one cell, over eight sub-steps per cell, scaled to a peak of `65535`.
    pub fn gaussian() -> (f: ReconstructionFilter)
        ensures
            f.spec_density() == GAUSSIAN_DENSITY,
            f.spec_taps() == seq![65535u16, 63928, 59254, 51934, 42602, 32010, 20932, 10073],
    {
        let taps: Vec<u16> = vec![65535, 63928, 59254, 51934, 42602, 32010, 20932, 10073];
        assert(taps@ =~= seq![65535u16, 63928, 59254, 51934, 42602, 32010, 20932, 10073]);
        ReconstructionFilter { density: GAUSSIAN_DENSITY, taps }
    }

    pub fn density(&self) -> (d: u64)
        ensures
            d == self.spec_density(),
    {
        self.density
    }

    fn tap(&self, d: i128) -> (t: u64)
        ensures
            t == self.spec_tap(d as int),
            t <= 0xffff,
    {
        let n: usize = self.taps.len();
        if d <= -0x1_0000_0000_0000_0000i128 || d >= 0x1_0000_0000_0000_0000i128 {
            return 0;
        }
        let a: u128 = if d < 0 {
            (-d) as u128
        } else {
            d as u128
        };
        if a < self.taps.len() as u128 {
            self.taps[a as usize] as u64
        } else {
            0
        }
    }

    /// The weight of a sample at offset `(dx, dy)` from a cell center; zero
    /// outside the support radius.
    pub fn evaluate(&self, dx: i128, dy: i128) -> (w: u64)
        ensures
            w == self.spec_weight(dx as int, dy as int),
            w <= MAX_SAMPLE_WEIGHT,
    {
        let a = self.tap(dx);
        let b = self.tap(dy);
        proof {
            assert(a * b <= 0xffff * 0xffff) by (nonlinear_arith)
                requires a <= 0xffff, b <= 0xffff;
        }
        a * b
    }
}

/// The Gaussian kernel weighs every offset inside its support positively,
/// most at the center, evenly in each direction, and nothing at or past
/// its radius.
pub proof fn lemma_gaussian_shape(f: ReconstructionFilter, dx: int, dy: int)
    requires
        f.spec_taps() == seq![65535u16, 63928, 59254, 51934, 42602, 32010, 20932, 10073],
    ensures
        -8 < dx < 8 && -8 < dy < 8 ==> f.spec_weight(dx, dy) > 0,
        f.spec_weight(dx, dy) <= f.spec_weight(0, 0),
        f.spec_weight(-dx, -dy) == f.spec_weight(dx, dy),
        dx <= -8 || dx >= 8 || dy <= -8 || dy >= 8 ==> f.spec_weight(dx, dy) == 0,
{
    let t = f.spec_taps();
    assert(forall|k: int| 0 <= k < 8 ==> 0 < #[trigger] t[k] <= 65535);
    let (a, b) = (f.spec_tap(dx), f.spec_tap(dy));
    assert(a <= 65535 && b <= 65535);
    assert(a * b <= 65535 * 65535) by (nonlinear_arith)
        requires a <= 65535, b <= 65535;
    if a == 0 || b == 0 {
        assert(a * b == 0) by (nonlinear_arith)
            requires a == 0 || b == 0;
    }
    if -8 < dx < 8 && -8 < dy < 8 {
        assert(a > 0 && b > 0);
        assert(a * b > 0) by (nonlinear_arith)
            requires a > 0, b > 0;
    }
}

/// The running weighted sums of one pixel: each channel times the weight of
/// its sample, summed, and the sum of the weights.
#[derive(Clone, Copy, Debug, PartialEq, Eq, Structural)]
pub struct BufferPixel {
    pub red: u128,
    pub green: u128,
    pub blue: u128,
    pub white: u128,
    pub weight: u128,
}

/// A channel's normalized value: the weighted mean rounded to nearest, or
/// the raw sum where no weight arrived; clamped to `255`.
pub open spec fn spec_normalize(sum: int, weight: int) -> int {
    let v = if weight > 0 {
        (2 * sum + weight) / (2 * weight)
    } else {
        sum
    };
    if v > 255 {
        255
    } else {
        v
    }
}

impl BufferPixel {
    /// The weighted sum of channel `i`: 0 red, 1 green, 2 blue, 3 white.
    pub open spec fn sum(self, i: int) -> int {
        if i == 0 {
            self.red as int
        } else if i == 1 {
            self.green as int
        } else if i == 2 {
            self.blue as int
        } else {
            self.white as int
        }
    }

    /// The sums are those of samples of at most full channels, and the
    /// weight is within the cap.
    pub open spec fn wf(self) -> bool {
        &&& self.weight <= WEIGHT_CAP
        &&& forall|i: int| 0 <= i < 4 ==> 0 <= #[trigger] self.sum(i) <= 255 * self.weight
    }

    pub open spec fn spec_empty() -> BufferPixel {
        BufferPixel { red: 0, green: 0, blue: 0, white: 0, weight: 0 }
    }

    /// The cell after a sample of color `c` with weight `w`; unchanged where
    /// the weight would pass the cap.
    pub open spec fn deposited(self, c: Pixel, w: int) -> BufferPixel {
        if self.weight + w <= WEIGHT_CAP {
            BufferPixel {
                red: (self.red + c.red() * w) as u128,
                green: (self.green + c.green() * w) as u128,
                blue: (self.blue + c.blue() * w) as u128,
                white: (self.white + c.white() * w) as u128,
                weight: (self.weight + w) as u128,
            }
        } else {
            self
        }
    }

    /// The color of the cell: each channel's weighted mean.
    pub open spec fn normalized(self) -> Pixel {
        Pixel::from_channels(|i: int| spec_normalize(self.sum(i), self.weight as int) as u8)
    }

    pub fn empty() -> (c: BufferPixel)
        ensures
            c == BufferPixel::spec_empty(),
            c.wf(),
    {
        BufferPixel { red: 0, green: 0, blue: 0, white: 0, weight: 0 }
    }

    /// Adds a sample of color `c` with weight `w`.
    pub fn deposit(&mut self, c: Pixel, w: u64)
        requires
            old(self).wf(),
            w <= MAX_SAMPLE_WEIGHT,
        ensures
            *final(self) == old(self).deposited(c, w as int),
            final(self).wf(),
    {
        let w: u128 = w as u128;
        if self.weight <= WEIGHT_CAP - w {
            let (r, g, b, wh) = (c.r() as u128, c.g() as u128, c.b() as u128, c.w() as u128);
            proof {
                let ws = self.weight as int;
                let wi = w as int;
                assert(r * wi <= 255 * wi && g * wi <= 255 * wi && b * wi <= 255 * wi && wh * wi
                    <= 255 * wi) by (nonlinear_arith)
                    requires r <= 255, g <= 255, b <= 255, wh <= 255, 0 <= wi;
                assert(255 * ws + 255 * wi == 255 * (ws + wi));
                assert(255 * (ws + wi) <= 255 * WEIGHT_CAP);
                assert(self.sum(0) <= 255 * ws && self.sum(1) <= 255 * ws);
                assert(self.sum(2) <= 255 * ws && self.sum(3) <= 255 * ws);
            }
            self.red = self.red + r * w;
            self.green = self.green + g * w;
            self.blue = self.blue + b * w;
            self.white = self.white + wh * w;
            self.weight = self.weight + w;
        }
    }

    /// The cell's color: each weighted mean rounded to nearest, clamped to
    /// `255`; a cell without weight gives its raw sums, zero for a cell that
    /// holds no samples.
    pub fn scaled_color(&self) -> (p: Pixel)
        ensures
            p == self.normalized(),
    {
        let r = normalize_channel(self.red, self.weight);
        let g = normalize_channel(self.green, self.weight);
        let b = normalize_channel(self.blue, self.weight);
        let w = normalize_channel(self.white, self.weight);
        let p = Pixel::new(r, g, b, w);
        proof {
            let f = |i: int| spec_normalize(self.sum(i), self.weight as int) as u8;
            assert(f(0) == r && f(1) == g && f(2) == b && f(3) == w);
        }
        p
    }
}

fn normalize_channel(sum: u128, weight: u128) -> (c: u8)
    ensures
        c == spec_normalize(sum as int, weight as int),
{
    let v: u128 = if weight > 0 {
        let q = sum / weight;
        let r = sum % weight;
        proof {
            let (s, w, qi, ri) = (sum as int, weight as int, q as int, r as int);
            assert(s == qi * w + ri && 0 <= ri < w) by {
                vstd::arithmetic::div_mod::lemma_fundamental_div_mod(s, w);
            }
            if ri >= w - ri {
                assert((2 * s + w) / (2 * w) == qi + 1) by (nonlinear_arith)
                    requires s == qi * w + ri, 0 <= ri < w, 2 * ri >= w, w > 0;
            } else {
                assert((2 * s + w) / (2 * w) == qi) by (nonlinear_arith)
                    requires s == qi * w + ri, 0 <= ri, 2 * ri < w, w > 0;
            }
        }
        if q >= 255 {
            q
        } else if r >= weight - r {
            q + 1
        } else {
            q
        }
    } else {
        sum
    };
    if v > 255 {
        255
    } else {
        v as u8
    }
}

/// The number of bits needed to write `n`.
fn bit_length_of(n: u32) -> (b: u32)
    ensures
        b == bit_length(n as nat),
        b <= 32,
{
    let mut b: u32 = 0;
    let mut m: u32 = n;
    proof {
        pow2_facts();
    }
    while m > 0
        invariant
            b + bit_length(m as nat) == bit_length(n as nat),
            b <= 32,
            m < pow2((32 - b) as nat),
        decreases m,
    {
        proof {
            if b == 32 {
                assert(pow2(0) == 1) by {
                    vstd::arithmetic::power2::lemma2_to64();
                }
            }
            vstd::arithmetic::power2::lemma_pow2_unfold((32 - b) as nat);
        }
        m = m / 2;
        b = b + 1;
    }
    b
}

proof fn pow2_facts()
    ensures
        pow2(32) == 0x1_0000_0000,
        pow2(0) == 1,
{
    vstd::arithmetic::power2::lemma2_to64();
}

/// `2^bits`.
fn pow2_of(bits: u32) -> (p: u64)
    requires
        bits <= 32,
    ensures
        p == pow2(bits as nat),
        p > 0,
{
    let mut p: u64 = 1;
    let mut k: u32 = 0;
    proof {
        pow2_facts();
    }
    while k < bits
        invariant
            k <= bits <= 32,
            p == pow2(k as nat),
        decreases bits - k,
    {
        proof {
            vstd::arithmetic::power2::lemma_pow2_unfold((k + 1) as nat);
            if k + 1 < 32 {
                vstd::arithmetic::power2::lemma_pow2_strictly_increases((k + 1) as nat, 32);
            }
            pow2_facts();
        }
        p = p * 2;
        k = k + 1;
    }
    proof {
        vstd::arithmetic::power2::lemma_pow2_pos(bits as nat);
    }
    p
}

proof fn lemma_rev_acc_bound(i: nat, k: nat, acc: nat, b: nat)
    requires
        acc < pow2(b),
    ensures
        rev_acc(i, k, acc) < pow2(b + k),
    decreases k,
{
    if k > 0 {
        vstd::arithmetic::power2::lemma_pow2_unfold(b + 1);
        lemma_rev_acc_bound(i / 2, (k - 1) as nat, acc * 2 + i % 2, b + 1);
    }
}

/// The low `bits` bits of `i` in reverse order.
fn reverse_bits_of(i: u32, bits: u32) -> (r: u32)
    requires
        bits <= 32,
    ensures
        r == reverse_bits(i as nat, bits as nat),
        r < pow2(bits as nat),
{
    let mut r: u32 = 0;
    let mut m: u32 = i;
    let mut k: u32 = bits;
    proof {
        pow2_facts();
        lemma_rev_acc_bound(i as nat, bits as nat, 0, 0);
    }
    while k > 0
        invariant
            k <= bits <= 32,
            rev_acc(m as nat, k as nat, r as nat) == reverse_bits(i as nat, bits as nat),
            r < pow2((bits - k) as nat),
            reverse_bits(i as nat, bits as nat) < pow2(bits as nat),
        decreases k,
    {
        proof {
            vstd::arithmetic::power2::lemma_pow2_unfold((bits - k + 1) as nat);
            if bits - k + 1 < 32 {
                vstd::arithmetic::power2::lemma_pow2_strictly_increases((bits - k + 1) as nat, 32);
            }
            pow2_facts();
        }
        r = r * 2 + m % 2;
        m = m / 2;
        k = k - 1;
    }
    r
}

/// A cell that holds no weight and sums of at most full channels (as one
/// that was only cleared) normalizes to the zero pixel.
pub proof fn lemma_empty_cell_is_zero(c: BufferPixel)
    requires
        c.wf(),
        c.weight == 0,
    ensures
        c.normalized() == Pixel(0),
        forall|i: int| 0 <= i < 4 ==> c.normalized().channel(i) == 0,
{
    assert(c.sum(0) == 0 && c.sum(1) == 0 && c.sum(2) == 0 && c.sum(3) == 0);
    let f = |i: int| spec_normalize(c.sum(i), c.weight as int) as u8;
    assert(f(0) == 0 && f(1) == 0 && f(2) == 0 && f(3) == 0);
    lemma_from_channels(f);
    assert(crate::pixel::pack(0, 0, 0, 0) == 0u32) by (bit_vector);
}

/// The cell after samples of one color `c` with the weights `ws`, in order.
pub open spec fn deposit_all(cell: BufferPixel, c: Pixel, ws: Seq<int>) -> BufferPixel
    decreases ws.len(),
{
    if ws.len() == 0 {
        cell
    } else {
        deposit_all(cell, c, ws.drop_last()).deposited(c, ws.last())
    }
}

#[verifier::spinoff_prover]
proof fn lemma_uniform_sums(c: Pixel, ws: Seq<int>)
    requires
        forall|k: int| 0 <= k < ws.len() ==> 0 <= #[trigger] ws[k] <= MAX_SAMPLE_WEIGHT,
    ensures
        ({
            let cell = deposit_all(BufferPixel::spec_empty(), c, ws);
            &&& cell.weight <= WEIGHT_CAP
            &&& forall|i: int| 0 <= i < 4 ==> #[trigger] cell.sum(i) == c.channel(i) * cell.weight
            &&& (exists|k: int| 0 <= k < ws.len() && 0 < #[trigger] ws[k]) ==> cell.weight > 0
        }),
    decreases ws.len(),
{
    if ws.len() > 0 {
        let rest = ws.drop_last();
        assert forall|k: int| 0 <= k < rest.len() implies 0 <= #[trigger] rest[k] <= MAX_SAMPLE_WEIGHT by {
            assert(rest[k] == ws[k]);
        }
        lemma_uniform_sums(c, rest);
        let before = deposit_all(BufferPixel::spec_empty(), c, rest);
        let w = ws.last();
        let after = before.deposited(c, w);
        if before.weight + w <= WEIGHT_CAP {
            assert forall|i: int| 0 <= i < 4 implies #[trigger] after.sum(i) == c.channel(i) * after.weight by {
                let ci = c.channel(i) as int;
                assert(ci * before.weight + ci * w == ci * (before.weight + w)) by (nonlinear_arith);
                assert(ci * w <= 255 * MAX_SAMPLE_WEIGHT) by (nonlinear_arith)
                    requires 0 <= ci <= 255, 0 <= w <= MAX_SAMPLE_WEIGHT;
                assert(ci * before.weight <= 255 * WEIGHT_CAP) by (nonlinear_arith)
                    requires 0 <= ci <= 255, 0 <= before.weight <= WEIGHT_CAP;
                assert(before.sum(i) == ci * before.weight);
                if i == 0 {
                    assert(after.sum(i) == before.sum(i) + ci * w);
                } else if i == 1 {
                    assert(after.sum(i) == before.sum(i) + ci * w);
                } else if i == 2 {
                    assert(after.sum(i) == before.sum(i) + ci * w);
                } else {
                    assert(after.sum(i) == before.sum(i) + ci * w);
                }
            }
        }
        if exists|k: int| 0 <= k < ws.len() && 0 < #[trigger] ws[k] {
            let k = choose|k: int| 0 <= k < ws.len() && 0 < #[trigger] ws[k];
            if k < rest.len() {
                assert(rest[k] == ws[k]);
            }
        }
    }
}

/// A cell that receives only samples of one color `c`, at least one of them
/// with positive weight, normalizes to exactly `c`.
pub proof fn lemma_uniform_color_is_reproduced(c: Pixel, ws: Seq<int>)
    requires
        forall|k: int| 0 <= k < ws.len() ==> 0 <= #[trigger] ws[k] <= MAX_SAMPLE_WEIGHT,
        exists|k: int| 0 <= k < ws.len() && 0 < #[trigger] ws[k],
    ensures
        deposit_all(BufferPixel::spec_empty(), c, ws).normalized() == c,
{
    lemma_uniform_sums(c, ws);
    lemma_uniform_cell(deposit_all(BufferPixel::spec_empty(), c, ws), c);
}

/// A cell whose sums are those of color `c` alone, with some weight,
/// normalizes to `c`.
pub proof fn lemma_uniform_cell(cell: BufferPixel, c: Pixel)
    requires
        cell.weight > 0,
        forall|i: int| 0 <= i < 4 ==> #[trigger] cell.sum(i) == c.channel(i) * cell.weight,
    ensures
        cell.normalized() == c,
{
    let wt = cell.weight as int;
    let f = |i: int| spec_normalize(cell.sum(i), wt) as u8;
    assert forall|i: int| 0 <= i < 4 implies #[trigger] f(i) == c.channel(i) by {
        let ci = c.channel(i) as int;
        assert((2 * (ci * wt) + wt) / (2 * wt) == ci) by (nonlinear_arith)
            requires 0 < wt, 0 <= ci;
    }
    assert(f(0) == c.red() && f(1) == c.green() && f(2) == c.blue() && f(3) == c.white());
    crate::pixel::lemma_pack_of_channels(c);
}

/// An analytic shape: a color for each point of the sub-step lattice that it
/// covers, `None` where it leaves the point transparent.
pub trait Samplable {
    spec fn spec_sample(&self, px: u64, py: u64) -> Option<Pixel>;

    fn sample(&self, px: u64, py: u64) -> (r: Option<Pixel>)
        ensures
            r == self.spec_sample(px, py),
    ;
}

/// The color a sample deposits: the shape's color, or zero weight-bearing
/// black where the shape is transparent, which pulls edges toward the
/// background.
pub open spec fn sample_or_clear<S: Samplable>(shape: &S, px: u64, py: u64) -> Pixel {
    match shape.spec_sample(px, py) {
        Some(c) => c,
        None => Pixel(0),
    }
}

/// The cells of a row-major grid with `cols` columns after a sample of color
/// `c` at `(px, py)`: each cell takes the filter's weight for the offset from
/// its center to the sample.
pub open spec fn deposit_sample(
    cells: Seq<BufferPixel>,
    cols: nat,
    f: ReconstructionFilter,
    px: int,
    py: int,
    c: Pixel,
) -> Seq<BufferPixel> {
    Seq::new(
        cells.len(),
        |j: int|
            cells[j].deposited(
                c,
                f.spec_weight(
                    (j % cols as int) * f.spec_density() - px,
                    (j / cols as int) * f.spec_density() - py,
                ) as int,
            ),
    )
}

/// The cells after the first `k` samples of a pass over the lattice of
/// `width` sub-steps per row, in row-major order.
pub open spec fn samples_pass<S: Samplable>(
    cells: Seq<BufferPixel>,
    cols: nat,
    f: ReconstructionFilter,
    shape: &S,
    width: nat,
    k: nat,
) -> Seq<BufferPixel>
    decreases k,
{
    if k == 0 {
        cells
    } else {
        let p = (k - 1) as nat;
        let (px, py) = (p % width, p / width);
        deposit_sample(
            samples_pass(cells, cols, f, shape, width, p),
            cols,
            f,
            px as int,
            py as int,
            sample_or_clear(shape, px as u64, py as u64),
        )
    }
}

/// The bits of `acc` followed by the low `k` bits of `i` in reverse order.
pub open spec fn rev_acc(i: nat, k: nat, acc: nat) -> nat
    decreases k,
{
    if k == 0 {
        acc
    } else {
        rev_acc(i / 2, (k - 1) as nat, acc * 2 + i % 2)
    }
}

/// The low `bits` bits of `i` in reverse order: the numerator, over
/// `2^bits`, of the radical inverse of `i` in base two.
pub open spec fn reverse_bits(i: nat, bits: nat) -> nat {
    rev_acc(i, bits, 0)
}
/// The number of bits needed to write `n`.
pub open spec fn bit_length(n: nat) -> nat
    decreases n,
{
    if n == 0 {
        0
    } else {
        1 + bit_length(n / 2)
    }
}

/// Point `i` of `count` of the Hammersley set on a lattice of `width` by
/// `height` sub-steps: evenly spread across, and by the radical inverse of
/// `i` down.
pub open spec fn hammersley_point(i: nat, count: nat, width: nat, height: nat) -> (nat, nat) {
    let bits = bit_length(count);
    (
        i * width / count,
        reverse_bits(i, bits) * height / pow2(bits),
    )
}

/// The cells after the first `k` points of a Hammersley pass of `count`
/// points.
pub open spec fn hammersley_pass<S: Samplable>(
    cells: Seq<BufferPixel>,
    cols: nat,
    f: ReconstructionFilter,
    shape: &S,
    width: nat,
    height: nat,
    count: nat,
    k: nat,
) -> Seq<BufferPixel>
    decreases k,
{
    if k == 0 {
        cells
    } else {
        let p = (k - 1) as nat;
        let (px, py) = hammersley_point(p, count, width, height);
        deposit_sample(
            hammersley_pass(cells, cols, f, shape, width, height, count, p),
            cols,
            f,
            px as int,
            py as int,
            sample_or_clear(shape, px as u64, py as u64),
        )
    }
}

/// Every weight of the filter is at most the square of the largest tap.
pub proof fn lemma_weight_bound(f: ReconstructionFilter, dx: int, dy: int)
    ensures
        f.spec_weight(dx, dy) <= MAX_SAMPLE_WEIGHT,
{
    let (a, b) = (f.spec_tap(dx), f.spec_tap(dy));
    assert(a <= 65535 && b <= 65535);
    assert(a * b <= 65535 * 65535) by (nonlinear_arith)
        requires a <= 65535, b <= 65535;
}

/// A pass of `k` samples over a shape of one color `c` everywhere, from
/// empty cells, leaves every cell holding `c` alone: each cell that took
/// weight normalizes to exactly `c`.
pub proof fn lemma_uniform_pass<S: Samplable>(
    n: nat,
    cols: nat,
    f: ReconstructionFilter,
    shape: &S,
    width: nat,
    k: nat,
    c: Pixel,
)
    requires
        forall|px: u64, py: u64| #[trigger] shape.spec_sample(px, py) == Some(c),
        k <= 0x1_0000_0000_0000_0000,
    ensures
        samples_pass(empty_cells(n), cols, f, shape, width, k).len() == n,
        forall|j: int|
            0 <= j < n ==> {
                let cell = #[trigger] samples_pass(empty_cells(n), cols, f, shape, width, k)[j];
                &&& cell.weight <= k * MAX_SAMPLE_WEIGHT
                &&& forall|i: int| 0 <= i < 4 ==> #[trigger] cell.sum(i) == c.channel(i) * cell.weight
                &&& cell.weight > 0 ==> cell.normalized() == c
            },
    decreases k,
{
    let cells = samples_pass(empty_cells(n), cols, f, shape, width, k);
    if k == 0 {
        assert forall|j: int| 0 <= j < n implies {
            let cell = #[trigger] cells[j];
            &&& cell.weight <= k * MAX_SAMPLE_WEIGHT
            &&& forall|i: int| 0 <= i < 4 ==> #[trigger] cell.sum(i) == c.channel(i) * cell.weight
            &&& cell.weight > 0 ==> cell.normalized() == c
        } by {
            assert(cells[j] == BufferPixel::spec_empty());
        }
    } else {
        let p = (k - 1) as nat;
        lemma_uniform_pass(n, cols, f, shape, width, p, c);
        let prev = samples_pass(empty_cells(n), cols, f, shape, width, p);
        let (px, py) = (p % width, p / width);
        assert(sample_or_clear(shape, px as u64, py as u64) == c);
        assert forall|j: int| 0 <= j < n implies {
            let cell = #[trigger] cells[j];
            &&& cell.weight <= k * MAX_SAMPLE_WEIGHT
            &&& forall|i: int| 0 <= i < 4 ==> #[trigger] cell.sum(i) == c.channel(i) * cell.weight
            &&& cell.weight > 0 ==> cell.normalized() == c
        } by {
            let before = prev[j];
            let w = f.spec_weight((j % cols as int) * f.spec_density() - px, (j / cols as int) * f.spec_density() - py);
            lemma_weight_bound(f, (j % cols as int) * f.spec_density() - px, (j / cols as int) * f.spec_density() - py);
            assert(cells[j] == before.deposited(c, w as int));
            assert(before.weight <= p * MAX_SAMPLE_WEIGHT);
            assert(p * MAX_SAMPLE_WEIGHT + MAX_SAMPLE_WEIGHT == k * MAX_SAMPLE_WEIGHT) by (nonlinear_arith)
                requires k == p + 1;
            assert(k * MAX_SAMPLE_WEIGHT <= 0x1_0000_0000_0000_0000 * MAX_SAMPLE_WEIGHT) by (nonlinear_arith)
                requires k <= 0x1_0000_0000_0000_0000;
            let after = cells[j];
            assert forall|i: int| 0 <= i < 4 implies #[trigger] after.sum(i) == c.channel(i) * after.weight by {
                let ci = c.channel(i) as int;
                assert(before.sum(i) == ci * before.weight);
                assert(ci * before.weight + ci * w == ci * (before.weight + w)) by (nonlinear_arith);
                assert(ci * w <= 255 * MAX_SAMPLE_WEIGHT) by (nonlinear_arith)
                    requires 0 <= ci <= 255, 0 <= w <= MAX_SAMPLE_WEIGHT;
                assert(ci * before.weight <= 255 * WEIGHT_CAP) by (nonlinear_arith)
                    requires 0 <= ci <= 255, 0 <= before.weight <= WEIGHT_CAP;
                if i == 0 {
                    assert(after.sum(i) == before.sum(i) + ci * w);
                } else if i == 1 {
                    assert(after.sum(i) == before.sum(i) + ci * w);
                } else if i == 2 {
                    assert(after.sum(i) == before.sum(i) + ci * w);
                } else {
                    assert(after.sum(i) == before.sum(i) + ci * w);
                }
            }
            if after.weight > 0 {
                lemma_uniform_cell(after, c);
            }
        }
    }
}

/// `n` empty cells.
pub open spec fn empty_cells(n: nat) -> Seq<BufferPixel> {
    Seq::new(n, |j: int| BufferPixel::spec_empty())
}

/// The colors of a grid of cells.
pub open spec fn normalized_frame(cells: Seq<BufferPixel>) -> Seq<Pixel> {
    Seq::new(cells.len(), |j: int| cells[j].normalized())
}

impl Default for BufferPixel {
    fn default() -> (c: BufferPixel)
        ensures
            c == BufferPixel::spec_empty(),
    {
        BufferPixel::empty()
    }
}

impl Default for Buffer {
    /// Empty cells for a grid of seven by seven.
    fn default() -> (b: Buffer)
        ensures
            b.wf(),
            b.spec_rows() == 7,
            b.spec_cols() == 7,
            b.spec_cells() == empty_cells(49),
    {
        Buffer::new(7, 7)
    }
}

/// A grid of accumulator cells, `rows` by `cols`, row-major.
pub struct Buffer {
    cells: Vec<BufferPixel>,
    rows: usize,
    cols: usize,
}

impl Buffer {
    pub closed spec fn spec_cells(&self) -> Seq<BufferPixel> {
        self.cells@
    }

    pub closed spec fn spec_rows(&self) -> nat {
        self.rows as nat
    }

    pub closed spec fn spec_cols(&self) -> nat {
        self.cols as nat
    }

    pub open spec fn wf(&self) -> bool {
        &&& self.spec_cells().len() == self.spec_rows() * self.spec_cols()
        &&& forall|j: int| 0 <= j < self.spec_cells().len() ==> #[trigger] self.spec_cells()[j].wf()
    }

    /// A grid of `rows` by `cols` empty cells.
    pub fn new(rows: usize, cols: usize) -> (b: Buffer)
        requires
            rows * cols <= usize::MAX,
        ensures
            b.wf(),
            b.spec_rows() == rows,
            b.spec_cols() == cols,
            b.spec_cells() == empty_cells((rows * cols) as nat),
    {
        let n: usize = rows * cols;
        let mut cells: Vec<BufferPixel> = Vec::new();
        let mut i: usize = 0;
        while i < n
            invariant
                i <= n,
                cells@ == empty_cells(i as nat),
            decreases n - i,
        {
            cells.push(BufferPixel::empty());
            i += 1;
            assert(cells@ =~= empty_cells(i as nat));
        }
        Buffer { cells, rows, cols }
    }

    pub fn rows(&self) -> (r: usize)
        ensures
            r == self.spec_rows(),
    {
        self.rows
    }

    pub fn cols(&self) -> (c: usize)
        ensures
            c == self.spec_cols(),
    {
        self.cols
    }

    /// Empties every cell.
    pub fn clear(&mut self)
        requires
            old(self).wf(),
        ensures
            final(self).wf(),
            final(self).spec_rows() == old(self).spec_rows(),
            final(self).spec_cols() == old(self).spec_cols(),
            final(self).spec_cells() == empty_cells(old(self).spec_cells().len()),
    {
        let n: usize = self.cells.len();
        let mut i: usize = 0;
        while i < n
            invariant
                i <= n,
                n == self.cells@.len(),
                self.rows == old(self).rows,
                self.cols == old(self).cols,
                n == self.rows * self.cols,
                forall|j: int| 0 <= j < i ==> self.cells@[j] == BufferPixel::spec_empty(),
            decreases n - i,
        {
            self.cells.set(i, BufferPixel::empty());
            i += 1;
        }
        assert(self.cells@ =~= empty_cells(n as nat));
    }

    /// The cell of pixel `(x, y)`.
    pub fn at(&self, x: usize, y: usize) -> (c: BufferPixel)
        requires
            self.wf(),
            x < self.spec_cols(),
            y < self.spec_rows(),
        ensures
            c == self.spec_cells()[cell_index(x as int, y as int, self.spec_cols() as int)],
    {
        proof {
            crate::display::lemma_cell_in_grid(x as int, y as int, self.rows as int, self.cols as int);
        }
        let n: usize = self.cells.len();
        assert(y * self.cols <= y * self.cols + x < n);
        self.cells[y * self.cols + x]
    }

    /// Deposits a sample of color `c` at `(px, py)` into every cell, each
    /// with the filter's weight for the offset from the cell's center.
    pub fn add_sample(&mut self, f: &ReconstructionFilter, px: u64, py: u64, c: Pixel)
        requires
            old(self).wf(),
            old(self).spec_cols() * f.spec_density() <= u64::MAX,
            old(self).spec_rows() * f.spec_density() <= u64::MAX,
        ensures
            final(self).wf(),
            final(self).spec_rows() == old(self).spec_rows(),
            final(self).spec_cols() == old(self).spec_cols(),
            final(self).spec_cells() == deposit_sample(
                old(self).spec_cells(),
                old(self).spec_cols(),
                *f,
                px as int,
                py as int,
                c,
            ),
    {
        let n: usize = self.cells.len();
        let cols = self.cols;
        let rows = self.rows;
        let d = f.density();
        let ghost target = deposit_sample(old(self).spec_cells(), cols as nat, *f, px as int, py as int, c);
        let mut j: usize = 0;
        while j < n
            invariant
                j <= n,
                n == self.cells@.len(),
                n == rows * cols,
                self.rows == rows,
                self.cols == cols,
                rows == old(self).rows,
                cols == old(self).cols,
                d == f.spec_density(),
                cols * d <= u64::MAX,
                rows * d <= u64::MAX,
                target == deposit_sample(old(self).spec_cells(), cols as nat, *f, px as int, py as int, c),
                target.len() == n,
                forall|k: int| 0 <= k < j ==> self.cells@[k] == #[trigger] target[k],
                old(self).cells@.len() == n,
                forall|k: int| j <= k < n ==> self.cells@[k] == #[trigger] old(self).cells@[k],
                forall|k: int| 0 <= k < n ==> (#[trigger] self.cells@[k]).wf(),
            decreases n - j,
        {
            proof {
                if cols == 0 {
                    assert(rows * cols == 0) by (nonlinear_arith)
                        requires cols == 0;
                }
            }
            let x = j % cols;
            let y = j / cols;
            proof {
                assert(x < cols);
                assert(y < rows) by {
                    vstd::arithmetic::div_mod::lemma_fundamental_div_mod(j as int, cols as int);
                    assert(cols * y <= j) by (nonlinear_arith)
                        requires j == cols * y + x, 0 <= x;
                    assert(y < rows) by (nonlinear_arith)
                        requires cols * y <= j, j < rows * cols, 0 < cols;
                }
                assert(x * d <= cols * d) by (nonlinear_arith)
                    requires x < cols, 0 <= d;
                assert(y * d <= rows * d) by (nonlinear_arith)
                    requires y < rows, 0 <= d;
            }
            let cx: u64 = (x as u64) * d;
            let cy: u64 = (y as u64) * d;
            let w = f.evaluate(cx as i128 - px as i128, cy as i128 - py as i128);
            let mut cell = self.cells[j];
            cell.deposit(c, w);
            self.cells.set(j, cell);
            j += 1;
        }
        assert(self.cells@ =~= target);
    }

    /// Samples `shape` at every point of the sub-step lattice over the grid,
    /// row by row, and deposits each sample; a transparent point deposits
    /// black.
    pub fn add_samples_grid<S: Samplable>(&mut self, shape: &S, f: &ReconstructionFilter)
        requires
            old(self).wf(),
            old(self).spec_cols() * f.spec_density() <= u64::MAX,
            old(self).spec_rows() * f.spec_density() <= u64::MAX,
            old(self).spec_cols() * f.spec_density() * (old(self).spec_rows() * f.spec_density())
                <= u64::MAX,
        ensures
            final(self).wf(),
            final(self).spec_rows() == old(self).spec_rows(),
            final(self).spec_cols() == old(self).spec_cols(),
            final(self).spec_cells() == samples_pass(
                old(self).spec_cells(),
                old(self).spec_cols(),
                *f,
                shape,
                old(self).spec_cols() * f.spec_density(),
                old(self).spec_cols() * f.spec_density() * (old(self).spec_rows() * f.spec_density()),
            ),
    {
        let d = f.density();
        let rows = self.rows;
        let cols = self.cols;
        let width: u64 = (cols as u64) * d;
        let height: u64 = (rows as u64) * d;
        let n: u64 = width * height;
        let mut k: u64 = 0;
        while k < n
            invariant
                k <= n,
                n == width * height,
                width == cols * d,
                height == rows * d,
                d == f.spec_density(),
                cols * d <= u64::MAX,
                rows * d <= u64::MAX,
                self.wf(),
                self.spec_rows() == rows,
                self.spec_cols() == cols,
                rows == old(self).spec_rows(),
                cols == old(self).spec_cols(),
                self.spec_cells() == samples_pass(old(self).spec_cells(), cols as nat, *f, shape, width as nat, k as nat),
            decreases n - k,
        {
            let px = k % width;
            let py = k / width;
            let c = match shape.sample(px, py) {
                Some(c) => c,
                None => Pixel(0),
            };
            self.add_sample(f, px, py, c);
            k += 1;
        }
    }

    /// Samples `shape` at the `count` points of the Hammersley set over the
    /// grid and deposits each sample; a transparent point deposits black.
    pub fn add_samples_hammersley<S: Samplable>(&mut self, shape: &S, f: &ReconstructionFilter, count: u32)
        requires
            old(self).wf(),
            old(self).spec_cols() * f.spec_density() <= u64::MAX,
            old(self).spec_rows() * f.spec_density() <= u64::MAX,
        ensures
            final(self).wf(),
            final(self).spec_rows() == old(self).spec_rows(),
            final(self).spec_cols() == old(self).spec_cols(),
            final(self).spec_cells() == hammersley_pass(
                old(self).spec_cells(),
                old(self).spec_cols(),
                *f,
                shape,
                old(self).spec_cols() * f.spec_density(),
                old(self).spec_rows() * f.spec_density(),
                count as nat,
                count as nat,
            ),
    {
        let d = f.density();
        let rows = self.rows;
        let cols = self.cols;
        let width: u64 = (cols as u64) * d;
        let height: u64 = (rows as u64) * d;
        let bits = bit_length_of(count);
        let mut i: u32 = 0;
        while i < count
            invariant
                i <= count,
                width == cols * d,
                height == rows * d,
                bits == bit_length(count as nat),
                bits <= 32,
                d == f.spec_density(),
                cols * d <= u64::MAX,
                rows * d <= u64::MAX,
                self.wf(),
                self.spec_rows() == rows,
                self.spec_cols() == cols,
                rows == old(self).spec_rows(),
                cols == old(self).spec_cols(),
                self.spec_cells() == hammersley_pass(
                    old(self).spec_cells(),
                    cols as nat,
                    *f,
                    shape,
                    width as nat,
                    height as nat,
                    count as nat,
                    i as nat,
                ),
            decreases count - i,
        {
            let r = reverse_bits_of(i, bits);
            let scale = pow2_of(bits);
            proof {
                let (ii, w, c, ri, h, p) = (i as int, width as int, count as int, r as int, height as int, scale as int);
                assert(ii * w / c <= w) by (nonlinear_arith)
                    requires 0 <= ii < c, w >= 0;
                assert(ri * h / p <= h) by (nonlinear_arith)
                    requires 0 <= ri < p, h >= 0;
                assert(ii * w <= u32::MAX as int * u64::MAX as int) by (nonlinear_arith)
                    requires 0 <= ii <= u32::MAX, 0 <= w <= u64::MAX;
                assert(ri * h <= u32::MAX as int * u64::MAX as int) by (nonlinear_arith)
                    requires 0 <= ri <= u32::MAX, 0 <= h <= u64::MAX;
            }
            let px: u64 = ((i as u128) * (width as u128) / (count as u128)) as u64;
            let py: u64 = ((r as u128) * (height as u128) / (scale as u128)) as u64;
            let c = match shape.sample(px, py) {
                Some(c) => c,
                None => Pixel(0),
            };
            self.add_sample(f, px, py, c);
            i += 1;
        }
    }

    /// Writes the color of every cell to the pixel at its place.
    pub fn apply_to_display<D: PixelDisplay>(&self, display: &mut D)
        requires
            self.wf(),
            old(display).frame().len() == old(display).spec_rows() * old(display).spec_cols(),
            old(display).spec_rows() == self.spec_rows(),
            old(display).spec_cols() == self.spec_cols(),
        ensures
            final(display).frame().len() == final(display).spec_rows() * final(display).spec_cols(),
            final(display).spec_rows() == old(display).spec_rows(),
            final(display).spec_cols() == old(display).spec_cols(),
            final(display).shown() == old(display).shown(),
            final(display).frame() == normalized_frame(self.spec_cells()),
    {
        let n: usize = self.cells.len();
        let cols = self.cols;
        let rows = self.rows;
        let mut j: usize = 0;
        while j < n
            invariant
                j <= n,
                n == self.cells@.len(),
                n == rows * cols,
                rows == self.rows,
                cols == self.cols,
                display.frame().len() == n,
                display.spec_rows() == rows,
                display.spec_cols() == cols,
                display.shown() == old(display).shown(),
                forall|k: int| 0 <= k < j ==> display.frame()[k] == #[trigger] self.cells@[k].normalized(),
            decreases n - j,
        {
            proof {
                if cols == 0 {
                    assert(rows * cols == 0) by (nonlinear_arith)
                        requires cols == 0;
                }
            }
            let x = j % cols;
            let y = j / cols;
            proof {
                vstd::arithmetic::div_mod::lemma_fundamental_div_mod(j as int, cols as int);
                assert(cols * y <= j) by (nonlinear_arith)
                    requires j == cols * y + x, 0 <= x;
                assert(y < rows) by (nonlinear_arith)
                    requires cols * y <= j, j < rows * cols, 0 < cols;
                assert(cell_index(x as int, y as int, cols as int) == j) by (nonlinear_arith)
                    requires j == cols * y + x;
            }
            let p = self.cells[j].scaled_color();
            display.set_at(x, y, p);
            j += 1;
        }
        assert(display.frame() =~= normalized_frame(self.spec_cells()));
    }
}

/// Renders `shape` onto `display` with anti-aliasing: empties the buffer,
/// samples the shape over the whole grid, and writes the normalized cells.
pub fn super_sample_to_display<S: Samplable, D: PixelDisplay>(
    shape: &S,
    f: &ReconstructionFilter,
    buffer: &mut Buffer,
    display: &mut D,
)
    requires
        old(buffer).wf(),
        old(display).frame().len() == old(display).spec_rows() * old(display).spec_cols(),
        old(display).spec_rows() == old(buffer).spec_rows(),
        old(display).spec_cols() == old(buffer).spec_cols(),
        old(buffer).spec_cols() * f.spec_density() <= u64::MAX,
        old(buffer).spec_rows() * f.spec_density() <= u64::MAX,
        old(buffer).spec_cols() * f.spec_density() * (old(buffer).spec_rows() * f.spec_density())
            <= u64::MAX,
    ensures
        final(buffer).wf(),
        final(buffer).spec_rows() == old(buffer).spec_rows(),
        final(buffer).spec_cols() == old(buffer).spec_cols(),
        final(buffer).spec_cells() == samples_pass(
            empty_cells(old(buffer).spec_cells().len()),
            old(buffer).spec_cols(),
            *f,
            shape,
            old(buffer).spec_cols() * f.spec_density(),
            old(buffer).spec_cols() * f.spec_density() * (old(buffer).spec_rows() * f.spec_density()),
        ),
        final(display).frame().len() == final(display).spec_rows() * final(display).spec_cols(),
        final(display).spec_rows() == old(display).spec_rows(),
        final(display).spec_cols() == old(display).spec_cols(),
        final(display).shown() == old(display).shown(),
        final(display).frame() == normalized_frame(final(buffer).spec_cells()),
{
    buffer.clear();
    buffer.add_samples_grid(shape, f);
    buffer.apply_to_display(display);
}

} // verus!
