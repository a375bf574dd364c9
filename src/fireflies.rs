use vstd::prelude::*;
use crate::pixel::Pixel;
use crate::display::{PixelDisplay, cell_index};
use crate::scheduler::{Animation, sat_add};
use crate::wave::{TURN, HALF_TURN, QUARTER_TURN, UNIT, sine, spec_sine};
use crate::effects::SECOND;
use rand::rngs::StdRng;

verus! {

/// rand's `StdRng`, declared so that a generator can be owned by the
/// animation and handed to the wrappers below; nothing is assumed of it.
#[verifier::external_type_specification]
#[verifier::external_body]
pub struct ExStdRng(rand::rngs::StdRng);

/// Relies on rand's `SeedableRng::seed_from_u64`: a generator whose stream
/// is fixed by `seed`.
#[verifier::external_body]
fn seeded_rng(seed: u64) -> StdRng {
    <StdRng as rand::SeedableRng>::seed_from_u64(seed)
}

/// Relies on rand's `Rng::gen_range`: a value in `[low, high)`; it panics
/// when `low >= high`.
#[verifier::external_body]
fn random_in(rng: &mut StdRng, low: u64, high: u64) -> (r: u64)
    requires
        low < high,
    ensures
        low <= r < high,
{
    rand::Rng::gen_range(rng, low, high)
}

/// Relies on rand's `Rng::gen` for `u32`: any word.
#[verifier::external_body]
fn random_word(rng: &mut StdRng) -> u32 {
    rand::Rng::gen(rng)
}

/// The most particles alive at once.
pub const MAX_BALLS: usize = 10;

/// The shortest and longest lifetimes of a particle.
pub const MIN_TTL: u64 = 1_000_000;

pub const MAX_TTL: u64 = 60_000_000;

/// The point `ratio` of the way (in `TURN` units) through one cycle of a
/// wave between `0` and `a` that starts at `start`: `(a sin(x - p) + a) / 2`
/// with `x` the ratio as an angle and `p` placing `start` at its phase.
pub open spec fn spec_cycle(a: int, ratio: int, start: int) -> int {
    if a == 0 {
        0
    } else {
        let angle = ratio + TURN + QUARTER_TURN - start * HALF_TURN / a;
        a * (spec_sine(angle as u64) + UNIT) / (2 * UNIT)
    }
}

/// A point on one cycle of the wave between `0` and `a` that starts at
/// `start`.
pub fn cycle(a: u64, ratio: u64, start: u64) -> (r: u64)
    requires
        start <= a,
        ratio <= TURN,
        a <= u32::MAX,
    ensures
        r == spec_cycle(a as int, ratio as int, start as int),
        r <= a,
{
    if a == 0 {
        return 0;
    }
    proof {
        let (si, ai, h) = (start as int, a as int, HALF_TURN as int);
        assert(si * h / ai <= h) by (nonlinear_arith)
            requires si <= ai, ai > 0, h > 0, si >= 0;
        assert(si * h <= u32::MAX as int * h) by (nonlinear_arith)
            requires si <= u32::MAX, h > 0;
    }
    let angle: u64 = ratio + TURN + QUARTER_TURN - start * HALF_TURN / a;
    let s = sine(angle);
    let k: u64 = (s + UNIT) as u64;
    proof {
        let (ai, ki, u) = (a as int, k as int, UNIT as int);
        assert(ai * ki <= ai * (2 * u)) by (nonlinear_arith)
            requires ki <= 2 * u, ai >= 0;
        assert(ai * ki / (2 * u) <= ai) by (nonlinear_arith)
            requires ai * ki <= ai * (2 * u), ai >= 0, u > 0;
        assert(ai * ki <= u32::MAX as int * (2 * u)) by (nonlinear_arith)
            requires ai * ki <= ai * (2 * u), ai <= u32::MAX, u > 0;
    }
    a * k / (2 * (UNIT as u64))
}

/// The share of its lifetime that a particle has lived, in `TURN` units,
/// capped at one whole.
pub open spec fn life_ratio(elapsed: u64, ttl: u64) -> int {
    if elapsed as int * TURN / ttl as int > TURN {
        TURN as int
    } else {
        elapsed as int * TURN / ttl as int
    }
}

/// A particle: a fixed color that brightens and dims along a cycle over its
/// lifetime, while its position runs through a cycle from its start.
#[derive(Clone, Copy, Debug)]
pub struct Ball {
    pub id: u32,
    pub pos_x: usize,
    pub pos_y: usize,
    pub color: Pixel,
    pub elapsed: u64,
    pub ttl: u64,
}

impl Ball {
    pub open spec fn wf(&self) -> bool {
        self.ttl > 0
    }

    /// A fresh particle at a random cell of a grid of `rows` by `cols`, with
    /// a random color and a random lifetime.
    pub fn new(id: u32, rows: usize, cols: usize, rng: &mut StdRng) -> (b: Ball)
        requires
            rows > 0,
            cols > 0,
        ensures
            b.wf(),
            b.id == id,
            b.pos_x < cols,
            b.pos_y < rows,
            b.elapsed == 0,
            MIN_TTL <= b.ttl < MAX_TTL,
    {
        let pos_x = random_in(rng, 0, cols as u64) as usize;
        let pos_y = random_in(rng, 0, rows as u64) as usize;
        let color = Pixel(random_word(rng));
        let ttl = random_in(rng, MIN_TTL, MAX_TTL);
        Ball { id, pos_x, pos_y, color, elapsed: 0, ttl }
    }

    pub fn is_finished(&self) -> (r: bool)
        ensures
            r == (self.elapsed > self.ttl),
    {
        self.elapsed > self.ttl
    }

    /// Ages the particle by `delta` and plots it at its place on its cycle,
    /// at its brightness there.
    pub fn update<D: PixelDisplay>(&mut self, display: &mut D, delta: u64)
        requires
            old(self).wf(),
            old(display).frame().len() == old(display).spec_rows() * old(display).spec_cols(),
            0 < old(display).spec_rows() <= u32::MAX,
            0 < old(display).spec_cols() <= u32::MAX,
            old(self).pos_x < old(display).spec_cols(),
            old(self).pos_y < old(display).spec_rows(),
        ensures
            *final(self) == (Ball { elapsed: sat_add(old(self).elapsed, delta), ..*old(self) }),
            final(display).frame().len() == final(display).spec_rows() * final(display).spec_cols(),
            final(display).spec_rows() == old(display).spec_rows(),
            final(display).spec_cols() == old(display).spec_cols(),
            final(display).shown() == old(display).shown(),
            ({
                let ratio = life_ratio(final(self).elapsed, final(self).ttl);
                let x = spec_cycle(old(display).spec_cols() - 1, ratio, old(self).pos_x as int);
                let y = spec_cycle(old(display).spec_rows() - 1, ratio, old(self).pos_y as int);
                let level = spec_cycle(255, ratio, 255);
                final(display).frame() == old(display).frame().update(
                    cell_index(x, y, old(display).spec_cols() as int),
                    old(self).color.spec_scale(level, 255),
                )
            }),
    {
        self.elapsed = if self.elapsed > u64::MAX - delta {
            u64::MAX
        } else {
            self.elapsed + delta
        };
        let scaled: u128 = crate::effects::mul_wide(self.elapsed, TURN) / (self.ttl as u128);
        let ratio: u64 = if scaled > TURN as u128 {
            TURN
        } else {
            scaled as u64
        };
        let rows = display.rows();
        let cols = display.cols();
        let level = cycle(255, ratio, 255);
        let x = cycle(cols as u64 - 1, ratio, self.pos_x as u64) as usize;
        let y = cycle(rows as u64 - 1, ratio, self.pos_y as u64) as usize;
        display.set_at(x, y, self.color.at_brightness(level as u8));
    }
}

/// Whether particles can live on a grid of `rows` by `cols`: not empty, and
/// small enough to address.
pub open spec fn grid_fits(rows: int, cols: int) -> bool {
    &&& 0 < rows <= u32::MAX
    &&& 0 < cols <= u32::MAX
    &&& rows * cols <= usize::MAX
}

/// The id after `id`, wrapping.
pub open spec fn next_id(id: u32) -> u32 {
    if id == u32::MAX {
        0
    } else {
        (id + 1) as u32
    }
}

/// `b` is a fresh particle with id `id` on a grid of `rows` by `cols`.
pub open spec fn spawned(b: Ball, id: u32, rows: nat, cols: nat) -> bool {
    &&& b.wf()
    &&& b.id == id
    &&& b.pos_x < cols
    &&& b.pos_y < rows
    &&& b.elapsed == 0
    &&& MIN_TTL <= b.ttl < MAX_TTL
}

/// `b` aged by `delta`.
pub open spec fn aged(b: Ball, delta: u64) -> Ball {
    Ball { elapsed: sat_add(b.elapsed, delta), ..b }
}

/// `b` can be plotted on a grid of `rows` by `cols`.
pub open spec fn placeable(b: Ball, rows: nat, cols: nat) -> bool {
    b.ttl > 0 && b.pos_x < cols && b.pos_y < rows
}

/// `frame` with `b` plotted where it stands on its cycles, at its brightness
/// there.
pub open spec fn plotted(frame: Seq<Pixel>, b: Ball, rows: nat, cols: nat) -> Seq<Pixel> {
    let ratio = life_ratio(b.elapsed, b.ttl);
    let x = spec_cycle(cols - 1, ratio, b.pos_x as int);
    let y = spec_cycle(rows - 1, ratio, b.pos_y as int);
    frame.update(cell_index(x, y, cols as int), b.color.spec_scale(spec_cycle(255, ratio, 255), 255))
}

/// `frame` with each placeable particle of `balls`, aged by `delta`,
/// plotted in order.
pub open spec fn plot_balls(frame: Seq<Pixel>, balls: Seq<Ball>, delta: u64, rows: nat, cols: nat) -> Seq<Pixel>
    decreases balls.len(),
{
    if balls.len() == 0 {
        frame
    } else {
        let f = plot_balls(frame, balls.drop_last(), delta, rows, cols);
        if placeable(balls.last(), rows, cols) {
            plotted(f, aged(balls.last(), delta), rows, cols)
        } else {
            f
        }
    }
}

/// The placeable particles of `balls`, aged by `delta`, that are still
/// within their lifetimes, in order.
pub open spec fn survivors(balls: Seq<Ball>, delta: u64, rows: nat, cols: nat) -> Seq<Ball>
    decreases balls.len(),
{
    if balls.len() == 0 {
        Seq::empty()
    } else {
        let s = survivors(balls.drop_last(), delta, rows, cols);
        let b = aged(balls.last(), delta);
        if placeable(balls.last(), rows, cols) && b.elapsed <= b.ttl {
            s.push(b)
        } else {
            s
        }
    }
}

/// `frame` with every pixel dimmed to nine tenths.
pub open spec fn faded(frame: Seq<Pixel>) -> Seq<Pixel> {
    Seq::new(frame.len(), |j: int| frame[j].spec_scale(9, 10))
}

/// The survivors are no more than the particles, and each is placeable and
/// within its lifetime.
pub proof fn lemma_survivors(balls: Seq<Ball>, delta: u64, rows: nat, cols: nat)
    ensures
        survivors(balls, delta, rows, cols).len() <= balls.len(),
        forall|k: int|
            0 <= k < survivors(balls, delta, rows, cols).len() ==> {
                let b = #[trigger] survivors(balls, delta, rows, cols)[k];
                &&& b.wf()
                &&& b.elapsed <= b.ttl
                &&& b.pos_x < cols
                &&& b.pos_y < rows
            },
    decreases balls.len(),
{
    if balls.len() > 0 {
        lemma_survivors(balls.drop_last(), delta, rows, cols);
    }
}

/// Particles that appear one per tick up to ten, wander and pulse over their
/// lifetimes and leave fading trails; done after thirty seconds.
pub struct Fireflies {
    ball_id: u32,
    balls: Vec<Ball>,
    rng: StdRng,
}

impl Default for Fireflies {
    fn default() -> (f: Fireflies)
        ensures
            f.spec_balls().len() == 0,
            f.spec_ball_id() == 0,
    {
        Fireflies::new(0)
    }
}

impl Fireflies {
    pub closed spec fn spec_balls(&self) -> Seq<Ball> {
        self.balls@
    }

    /// The id the next particle gets.
    pub closed spec fn spec_ball_id(&self) -> u32 {
        self.ball_id
    }

    /// What one frame does on a grid of `rows` by `cols`, whatever the random
    /// generator gives: on a grid particles fit, a new particle (with the
    /// next id, at a cell of the grid, not yet aged, with a lifetime in
    /// range) joins when there are fewer than ten and the id advances; then
    /// the frame is the old one faded to nine tenths with every particle
    /// plotted in order, and the particles kept are the aged ones still
    /// within their lifetimes, in order. On another grid nothing changes.
    pub open spec fn spec_stepped(
        &self,
        next: &Self,
        rows: nat,
        cols: nat,
        before: Seq<Pixel>,
        after: Seq<Pixel>,
        delta: u64,
    ) -> bool {
        let fits = grid_fits(rows as int, cols as int);
        let room = self.spec_balls().len() < MAX_BALLS;
        &&& fits && room ==> exists|nb: Ball|
            {
                &&& #[trigger] spawned(nb, self.spec_ball_id(), rows, cols)
                &&& next.spec_balls() == survivors(self.spec_balls().push(nb), delta, rows, cols)
                &&& after == plot_balls(faded(before), self.spec_balls().push(nb), delta, rows, cols)
            }
        &&& fits && room ==> next.spec_ball_id() == next_id(self.spec_ball_id())
        &&& fits && !room ==> {
            &&& next.spec_balls() == survivors(self.spec_balls(), delta, rows, cols)
            &&& after == plot_balls(faded(before), self.spec_balls(), delta, rows, cols)
            &&& next.spec_ball_id() == self.spec_ball_id()
        }
        &&& !fits ==> {
            &&& next.spec_balls() == self.spec_balls()
            &&& next.spec_ball_id() == self.spec_ball_id()
            &&& after == before
        }
    }

    /// Fireflies whose randomness is the stream seeded by `seed`.
    pub fn new(seed: u64) -> (f: Fireflies)
        ensures
            f.spec_balls().len() == 0,
            f.spec_ball_id() == 0,
    {
        Fireflies { ball_id: 0, balls: Vec::new(), rng: seeded_rng(seed) }
    }

    pub fn balls(&self) -> (b: &Vec<Ball>)
        ensures
            b@ == self.spec_balls(),
    {
        &self.balls
    }

    /// Dims every pixel of the display to nine tenths, which leaves trails.
    pub fn fade<D: PixelDisplay>(display: &mut D)
        requires
            old(display).frame().len() == old(display).spec_rows() * old(display).spec_cols(),
            old(display).frame().len() <= usize::MAX,
        ensures
            final(display).spec_rows() == old(display).spec_rows(),
            final(display).spec_cols() == old(display).spec_cols(),
            final(display).shown() == old(display).shown(),
            final(display).frame().len() == old(display).frame().len(),
            forall|j: int|
                0 <= j < final(display).frame().len() ==> #[trigger] final(display).frame()[j]
                    == old(display).frame()[j].spec_scale(9, 10),
    {
        let rows = display.rows();
        let cols = display.cols();
        let ghost n = rows * cols;
        let mut y: usize = 0;
        while y < rows
            invariant
                n <= usize::MAX,
                y <= rows,
                rows == display.spec_rows(),
                cols == display.spec_cols(),
                n == rows * cols,
                display.frame().len() == n,
                display.shown() == old(display).shown(),
                old(display).frame().len() == n,
                forall|j: int| 0 <= j < y * cols ==> #[trigger] display.frame()[j] == old(display).frame()[j].spec_scale(9, 10),
                forall|j: int| y * cols <= j < n ==> #[trigger] display.frame()[j] == old(display).frame()[j],
            decreases rows - y,
        {
            let mut x: usize = 0;
            while x < cols
                invariant
                    n <= usize::MAX,
                    y < rows,
                    x <= cols,
                    rows == display.spec_rows(),
                    cols == display.spec_cols(),
                    n == rows * cols,
                    display.frame().len() == n,
                    display.shown() == old(display).shown(),
                    old(display).frame().len() == n,
                    forall|j: int| 0 <= j < y * cols + x ==> #[trigger] display.frame()[j] == old(display).frame()[j].spec_scale(9, 10),
                    forall|j: int| y * cols + x <= j < n ==> #[trigger] display.frame()[j] == old(display).frame()[j],
                decreases cols - x,
            {
                proof {
                    crate::display::lemma_cell_in_grid(x as int, y as int, rows as int, cols as int);
                }
                match display.get_at(x, y) {
                    Some(p) => display.set_at(x, y, p.scale(9, 10)),
                    None => {},
                }
                x += 1;
            }
            proof {
                assert((y + 1) * cols == y * cols + cols) by (nonlinear_arith);
            }
            y += 1;
        }
    }

    /// Every particle aged by `delta` and plotted over the trails faded to
    /// nine tenths, in order; the particles past their lifetimes, and any
    /// that do not fit the grid, are dropped.
    pub fn advance<D: PixelDisplay>(&mut self, display: &mut D, delta: u64)
        requires
            old(display).frame().len() == old(display).spec_rows() * old(display).spec_cols(),
            grid_fits(old(display).spec_rows() as int, old(display).spec_cols() as int),
        ensures
            final(display).frame().len() == old(display).frame().len(),
            final(display).spec_rows() == old(display).spec_rows(),
            final(display).spec_cols() == old(display).spec_cols(),
            final(display).shown() == old(display).shown(),
            final(self).spec_balls() == survivors(
                old(self).spec_balls(),
                delta,
                old(display).spec_rows(),
                old(display).spec_cols(),
            ),
            final(display).frame() == plot_balls(
                faded(old(display).frame()),
                old(self).spec_balls(),
                delta,
                old(display).spec_rows(),
                old(display).spec_cols(),
            ),
            final(self).spec_ball_id() == old(self).spec_ball_id(),
    {
        let rows = display.rows();
        let cols = display.cols();
        Fireflies::fade(display);
        let ghost start = display.frame();
        assert(start =~= faded(old(display).frame()));
        let mut kept: Vec<Ball> = Vec::new();
        let mut i: usize = 0;
        while i < self.balls.len()
            invariant
                i <= self.balls@.len(),
                self.balls@ == old(self).balls@,
                self.ball_id == old(self).ball_id,
                kept@ == survivors(self.balls@.subrange(0, i as int), delta, rows as nat, cols as nat),
                display.frame() == plot_balls(start, self.balls@.subrange(0, i as int), delta, rows as nat, cols as nat),
                start == faded(old(display).frame()),
                rows == display.spec_rows(),
                cols == display.spec_cols(),
                grid_fits(rows as int, cols as int),
                display.frame().len() == rows * cols,
                display.shown() == old(display).shown(),
            decreases self.balls.len() - i,
        {
            let mut b = self.balls[i];
            proof {
                assert(self.balls@.subrange(0, i + 1).drop_last() =~= self.balls@.subrange(0, i as int));
                assert(self.balls@.subrange(0, i + 1).last() == b);
            }
            if b.ttl > 0 && b.pos_x < cols && b.pos_y < rows {
                b.update(display, delta);
                if !b.is_finished() {
                    kept.push(b);
                }
            }
            i += 1;
        }
        proof {
            assert(self.balls@.subrange(0, i as int) =~= self.balls@);
        }
        self.balls = kept;
    }

    /// One frame: a new particle if there are fewer than ten, the trails
    /// faded, every particle aged by `delta` and plotted, and the particles
    /// past their lifetimes dropped. Nothing happens on an empty grid or one
    /// too large to address.
    pub fn step<D: PixelDisplay>(&mut self, display: &mut D, delta: u64)
        requires
            old(display).frame().len() == old(display).spec_rows() * old(display).spec_cols(),
        ensures
            final(display).frame().len() == final(display).spec_rows() * final(display).spec_cols(),
            final(display).spec_rows() == old(display).spec_rows(),
            final(display).spec_cols() == old(display).spec_cols(),
            final(display).shown() == old(display).shown(),
            old(self).spec_stepped(
                final(self),
                old(display).spec_rows(),
                old(display).spec_cols(),
                old(display).frame(),
                final(display).frame(),
                delta,
            ),
            final(self).spec_balls().len() <= old(self).spec_balls().len() + 1,
            old(self).spec_balls().len() <= MAX_BALLS ==> final(self).spec_balls().len() <= MAX_BALLS,
            grid_fits(old(display).spec_rows() as int, old(display).spec_cols() as int) ==> forall|k: int|
                0 <= k < final(self).spec_balls().len() ==> {
                    let b = #[trigger] final(self).spec_balls()[k];
                    &&& b.wf()
                    &&& b.elapsed <= b.ttl
                    &&& b.pos_x < old(display).spec_cols()
                    &&& b.pos_y < old(display).spec_rows()
                },
    {
        let rows = display.rows();
        let cols = display.cols();
        if rows == 0 || cols == 0 || rows as u64 > u32::MAX as u64 || cols as u64 > u32::MAX as u64
            || cols > usize::MAX / rows {
            proof {
                if rows > 0 && cols > usize::MAX / rows {
                    assert(rows * cols > usize::MAX) by (nonlinear_arith)
                        requires cols > usize::MAX / rows, rows > 0;
                }
            }
            return;
        }
        proof {
            assert(rows * cols <= rows * (usize::MAX / rows)) by (nonlinear_arith)
                requires cols <= usize::MAX / rows, rows > 0;
            assert(rows * (usize::MAX / rows) <= usize::MAX) by (nonlinear_arith)
                requires rows > 0;
        }
        let ghost mut pool = self.balls@;
        let ghost mut fresh: Ball = arbitrary();
        if self.balls.len() < MAX_BALLS {
            let b = Ball::new(self.ball_id, rows, cols, &mut self.rng);
            self.ball_id = if self.ball_id == u32::MAX {
                0
            } else {
                self.ball_id + 1
            };
            self.balls.push(b);
            proof {
                pool = self.balls@;
                fresh = b;
                assert(pool == old(self).balls@.push(fresh));
            }
        }
        self.advance(display, delta);
        proof {
            lemma_survivors(pool, delta, rows as nat, cols as nat);
            if old(self).balls@.len() < MAX_BALLS {
                assert(spawned(fresh, old(self).spec_ball_id(), rows as nat, cols as nat));
            }
        }
    }
}

impl<D: PixelDisplay> Animation<D> for Fireflies {
    open spec fn spec_set_up(&self, next: &Self, rows: nat, cols: nat, before: Seq<Pixel>, after: Seq<Pixel>) -> bool {
        next.spec_balls().len() == 0 && next.spec_ball_id() == 0 && after == before
    }

    open spec fn spec_updated(
        &self,
        next: &Self,
        rows: nat,
        cols: nat,
        before: Seq<Pixel>,
        after: Seq<Pixel>,
        delta: u64,
        elapsed: u64,
    ) -> bool {
        self.spec_stepped(next, rows, cols, before, after, delta)
    }

    open spec fn spec_is_finished(&self, elapsed: u64) -> bool {
        elapsed > 30 * SECOND
    }

    fn setup(&mut self, display: &mut D)
        ensures
            final(self).spec_balls().len() == 0,
            final(self).spec_ball_id() == 0,
            *final(display) == *old(display),
    {
        self.balls = Vec::new();
        self.ball_id = 0;
    }

    fn update(&mut self, display: &mut D, delta: u64, elapsed: u64)
        ensures
            old(self).spec_stepped(
                final(self),
                old(display).spec_rows(),
                old(display).spec_cols(),
                old(display).frame(),
                final(display).frame(),
                delta,
            ),
            old(self).spec_balls().len() <= MAX_BALLS ==> final(self).spec_balls().len() <= MAX_BALLS,
    {
        self.step(display, delta);
    }

    fn is_finished(&self, display: &D, elapsed: u64) -> (r: bool) {
        elapsed > 30 * SECOND
    }
}

} // verus!
