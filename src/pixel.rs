use vstd::prelude::*;

verus! {

/// The packed word of four channels: white in the top byte, then red, green
/// and blue.
pub open spec fn pack(r: u8, g: u8, b: u8, w: u8) -> u32 {
    ((w as u32) << 24u32) | ((r as u32) << 16u32) | ((g as u32) << 8u32) | (b as u32)
}

/// The bit position of channel `i`: 0 red, 1 green, 2 blue, 3 white.
pub open spec fn shift_of(i: int) -> u32 {
    if i == 0 {
        16
    } else if i == 1 {
        8
    } else if i == 2 {
        0
    } else {
        24
    }
}

/// The byte at `shift` in `v`.
pub open spec fn byte_at(v: u32, shift: u32) -> u8 {
    ((v >> shift) & 0xffu32) as u8
}

/// A color of four 8-bit channels (red, green, blue, white) packed in one word.
#[derive(Clone, Copy, Debug, PartialEq, Eq, Structural)]
pub struct Pixel(pub u32);

impl Pixel {
    /// Channel `i` of the pixel: 0 red, 1 green, 2 blue, 3 white.
    pub open spec fn channel(self, i: int) -> u8 {
        byte_at(self.0, shift_of(i))
    }

    pub open spec fn red(self) -> u8 {
        self.channel(0)
    }

    pub open spec fn green(self) -> u8 {
        self.channel(1)
    }

    pub open spec fn blue(self) -> u8 {
        self.channel(2)
    }

    pub open spec fn white(self) -> u8 {
        self.channel(3)
    }

    /// The pixel whose channel `i` is `c(i)`, for `i` in `0..4`.
    pub open spec fn from_channels(c: spec_fn(int) -> u8) -> Pixel {
        Pixel(pack(c(0), c(1), c(2), c(3)))
    }

    /// The pixel with every channel scaled by `num / den`, rounded down.
    pub open spec fn spec_scale(self, num: int, den: int) -> Pixel {
        Pixel::from_channels(|i: int| (self.channel(i) as int * num / den) as u8)
    }

    pub fn new(r: u8, g: u8, b: u8, w: u8) -> (p: Pixel)
        ensures
            p.0 == pack(r, g, b, w),
            p.red() == r,
            p.green() == g,
            p.blue() == b,
            p.white() == w,
    {
        let v: u32 = ((w as u32) << 24u32) | ((r as u32) << 16u32) | ((g as u32) << 8u32) | (b as u32);
        proof {
            lemma_pack_channels(r, g, b, w);
        }
        Pixel(v)
    }

    /// The pixel with all four channels zero.
    pub fn zero() -> (p: Pixel)
        ensures
            p.0 == 0,
            forall|i: int| 0 <= i < 4 ==> p.channel(i) == 0,
    {
        proof {
            lemma_pack_channels(0, 0, 0, 0);
            assert(pack(0, 0, 0, 0) == 0u32) by (bit_vector);
        }
        Pixel::new(0, 0, 0, 0)
    }

    pub fn w(self) -> (c: u8)
        ensures
            c == self.white(),
    {
        let v = self.0;
        assert(((v & 0xff000000u32) >> 24u32) == ((v >> 24u32) & 0xffu32)) by (bit_vector);
        ((v & 0xff000000u32) >> 24u32) as u8
    }

    pub fn r(self) -> (c: u8)
        ensures
            c == self.red(),
    {
        let v = self.0;
        assert(((v & 0x00ff0000u32) >> 16u32) == ((v >> 16u32) & 0xffu32)) by (bit_vector);
        ((v & 0x00ff0000u32) >> 16u32) as u8
    }

    pub fn g(self) -> (c: u8)
        ensures
            c == self.green(),
    {
        let v = self.0;
        assert(((v & 0x0000ff00u32) >> 8u32) == ((v >> 8u32) & 0xffu32)) by (bit_vector);
        ((v & 0x0000ff00u32) >> 8u32) as u8
    }

    pub fn b(self) -> (c: u8)
        ensures
            c == self.blue(),
    {
        let v = self.0;
        assert((v & 0xffu32) == ((v >> 0u32) & 0xffu32)) by (bit_vector);
        (v & 0x000000ffu32) as u8
    }

    /// Every channel scaled by `num / den` and rounded down; `num / den` is
    /// the factor in `[0, 1]`.
    pub fn scale(&self, num: u32, den: u32) -> (p: Pixel)
        requires
            0 < den,
            num <= den,
        ensures
            p == self.spec_scale(num as int, den as int),
            forall|i: int| 0 <= i < 4 ==> p.channel(i) == self.channel(i) as int * num as int / den as int,
    {
        let r = scale_channel(self.r(), num, den);
        let g = scale_channel(self.g(), num, den);
        let b = scale_channel(self.b(), num, den);
        let w = scale_channel(self.w(), num, den);
        let p = Pixel::new(r, g, b, w);
        assert(forall|i: int| 0 <= i < 4 ==> p.channel(i) == self.channel(i) as int * num as int / den as int);
        p
    }

    /// The pixel at a brightness of `brightness / 255`.
    pub fn at_brightness(&self, brightness: u8) -> (p: Pixel)
        ensures
            p == self.spec_scale(brightness as int, 255),
            forall|i: int| 0 <= i < 4 ==> p.channel(i) == self.channel(i) as int * brightness as int / 255,
    {
        self.scale(brightness as u32, 255)
    }
}

/// `c * num / den`, which fits in a byte when `num <= den`.
fn scale_channel(c: u8, num: u32, den: u32) -> (r: u8)
    requires
        0 < den,
        num <= den,
    ensures
        r == c as int * num as int / den as int,
{
    proof {
        let (ci, ni, di) = (c as int, num as int, den as int);
        assert(ci * ni <= 255 * 0xffff_ffff) by (nonlinear_arith)
            requires 0 <= ci <= 255, 0 <= ni <= 0xffff_ffff;
        assert(ci * ni / di <= ci) by (nonlinear_arith)
            requires 0 <= ci, 0 <= ni <= di, 0 < di;
    }
    let prod: u64 = (c as u64) * (num as u64);
    (prod / (den as u64)) as u8
}

impl Default for Pixel {
    fn default() -> (p: Pixel)
        ensures
            p.0 == 0,
    {
        Pixel::zero()
    }
}

impl From<u32> for Pixel {
    fn from(v: u32) -> (p: Pixel) {
        Pixel(v)
    }
}

impl vstd::std_specs::convert::FromSpecImpl<u32> for Pixel {
    open spec fn obeys_from_spec() -> bool {
        true
    }

    open spec fn from_spec(v: u32) -> Pixel {
        Pixel(v)
    }
}

impl From<Pixel> for u32 {
    fn from(p: Pixel) -> (v: u32) {
        p.0
    }
}

impl vstd::std_specs::convert::FromSpecImpl<Pixel> for u32 {
    open spec fn obeys_from_spec() -> bool {
        true
    }

    open spec fn from_spec(p: Pixel) -> u32 {
        p.0
    }
}

/// The four channels read back out of a packed word are the ones packed in.
pub proof fn lemma_pack_channels(r: u8, g: u8, b: u8, w: u8)
    ensures
        byte_at(pack(r, g, b, w), 16) == r,
        byte_at(pack(r, g, b, w), 8) == g,
        byte_at(pack(r, g, b, w), 0) == b,
        byte_at(pack(r, g, b, w), 24) == w,
{
    let (r32, g32, b32, w32) = (r as u32, g as u32, b as u32, w as u32);
    assert(r32 < 256 && g32 < 256 && b32 < 256 && w32 < 256);
    assert(((((w32 << 24u32) | (r32 << 16u32) | (g32 << 8u32) | b32) >> 16u32) & 0xffu32) == r32)
        by (bit_vector)
        requires r32 < 256 && g32 < 256 && b32 < 256 && w32 < 256;
    assert(((((w32 << 24u32) | (r32 << 16u32) | (g32 << 8u32) | b32) >> 8u32) & 0xffu32) == g32)
        by (bit_vector)
        requires r32 < 256 && g32 < 256 && b32 < 256 && w32 < 256;
    assert(((((w32 << 24u32) | (r32 << 16u32) | (g32 << 8u32) | b32) >> 0u32) & 0xffu32) == b32)
        by (bit_vector)
        requires r32 < 256 && g32 < 256 && b32 < 256 && w32 < 256;
    assert(((((w32 << 24u32) | (r32 << 16u32) | (g32 << 8u32) | b32) >> 24u32) & 0xffu32) == w32)
        by (bit_vector)
        requires r32 < 256 && g32 < 256 && b32 < 256 && w32 < 256;
}

/// The channels of a pixel built from channel values are those values.
pub proof fn lemma_from_channels(c: spec_fn(int) -> u8)
    ensures
        forall|i: int| 0 <= i < 4 ==> #[trigger] Pixel::from_channels(c).channel(i) == c(i),
{
    lemma_pack_channels(c(0), c(1), c(2), c(3));
}

/// A packed word is determined by its four channels.
pub proof fn lemma_pack_of_channels(p: Pixel)
    ensures
        pack(p.red(), p.green(), p.blue(), p.white()) == p.0,
{
    let v = p.0;
    let (a, b, c, d) = ((v >> 24u32) & 0xffu32, (v >> 16u32) & 0xffu32, (v >> 8u32) & 0xffu32, (v
        >> 0u32) & 0xffu32);
    assert(a < 256 && b < 256 && c < 256 && d < 256) by (bit_vector)
        requires
            a == (v >> 24u32) & 0xffu32,
            b == (v >> 16u32) & 0xffu32,
            c == (v >> 8u32) & 0xffu32,
            d == (v >> 0u32) & 0xffu32,
    ;
    assert(((((v >> 24u32) & 0xffu32) << 24u32) | (((v >> 16u32) & 0xffu32) << 16u32) | (((v
        >> 8u32) & 0xffu32) << 8u32) | ((v >> 0u32) & 0xffu32)) == v) by (bit_vector);
}

/// Each channel of a scaled pixel is the scaled channel.
pub proof fn lemma_scale_channels(p: Pixel, num: int, den: int)
    requires
        0 <= num <= den,
        0 < den,
    ensures
        forall|i: int| 0 <= i < 4 ==> #[trigger] p.spec_scale(num, den).channel(i) == p.channel(i) as int * num / den,
{
    assert forall|i: int| 0 <= i < 4 implies p.channel(i) as int * num / den <= 255 by {
        let c = p.channel(i) as int;
        assert(c * num / den <= c) by (nonlinear_arith)
            requires 0 <= c, 0 <= num <= den, 0 < den;
    }
    let c = |i: int| (p.channel(i) as int * num / den) as u8;
    lemma_pack_channels(c(0), c(1), c(2), c(3));
}

/// Scaling by one is the identity on every channel.
pub proof fn lemma_scale_by_one(p: Pixel, n: int)
    requires
        0 < n,
    ensures
        p.spec_scale(n, n) == p,
{
    lemma_scale_channels(p, n, n);
    assert forall|i: int| 0 <= i < 4 implies p.channel(i) as int * n / n == p.channel(i) by {
        let c = p.channel(i) as int;
        assert(c * n / n == c) by (nonlinear_arith)
            requires 0 < n;
    }
    let q = p.spec_scale(n, n);
    assert(q.channel(0) == p.channel(0) && q.channel(1) == p.channel(1) && q.channel(2) == p.channel(2) && q.channel(3) == p.channel(3));
    lemma_pack_of_channels(p);
    lemma_pack_of_channels(q);
}

/// Scaling by zero gives the pixel with every channel zero.
pub proof fn lemma_scale_by_zero(p: Pixel, den: int)
    requires
        0 < den,
    ensures
        p.spec_scale(0, den) == Pixel(0),
        forall|i: int| 0 <= i < 4 ==> p.spec_scale(0, den).channel(i) == 0,
{
    lemma_scale_channels(p, 0, den);
    assert(pack(0, 0, 0, 0) == 0u32) by (bit_vector);
}

/// Scaling is monotonic in the factor: for factors `n1 / d1 <= n2 / d2` in
/// `[0, 1]`, each channel scaled by the first is at most the same channel
/// scaled by the second.
pub proof fn lemma_scale_monotonic(p: Pixel, n1: int, d1: int, n2: int, d2: int)
    requires
        0 <= n1 <= d1,
        0 <= n2 <= d2,
        0 < d1,
        0 < d2,
        n1 * d2 <= n2 * d1,
    ensures
        forall|i: int| 0 <= i < 4 ==> p.spec_scale(n1, d1).channel(i) <= p.spec_scale(n2, d2).channel(i),
{
    lemma_scale_channels(p, n1, d1);
    lemma_scale_channels(p, n2, d2);
    assert forall|i: int| 0 <= i < 4 implies p.channel(i) as int * n1 / d1 <= p.channel(i) as int * n2 / d2 by {
        let c = p.channel(i) as int;
        let q = c * n1 / d1;
        assert(q * d1 <= c * n1) by (nonlinear_arith)
            requires q == c * n1 / d1, 0 < d1, 0 <= c, 0 <= n1;
        assert(q * d1 * d2 <= c * n2 * d1) by (nonlinear_arith)
            requires q * d1 <= c * n1, 0 < d1, 0 < d2, 0 <= c, n1 * d2 <= n2 * d1;
        assert(q * d2 <= c * n2) by (nonlinear_arith)
            requires q * d1 * d2 <= c * n2 * d1, 0 < d1;
        assert(q <= c * n2 / d2) by (nonlinear_arith)
            requires q * d2 <= c * n2, 0 < d2;
    }
}

} // verus!
