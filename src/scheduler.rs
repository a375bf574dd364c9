use vstd::prelude::*;
use crate::display::{PixelDisplay, blank_frame};
use crate::pixel::Pixel;

verus! {

/// A unit of animation that the scheduler plays: it is set up once per
/// activation, updated once per tick, and asked after each tick whether it
/// is done. Times are in microseconds.
pub trait Animation<D: PixelDisplay> {
    /// Whether the animation is done after `elapsed` microseconds; the
    /// default stands for an animation that is not modeled.
    closed spec fn spec_is_finished(&self, elapsed: u64) -> bool {
        false
    }

    /// What setup does: `next` is the animation after it, on a grid of
    /// `rows` by `cols` whose frame goes from `before` to `after`; the
    /// default stands for an animation that is not modeled.
    closed spec fn spec_set_up(&self, next: &Self, rows: nat, cols: nat, before: Seq<Pixel>, after: Seq<Pixel>) -> bool {
        true
    }

    /// What an update by `delta` at `elapsed` does, in the same terms.
    closed spec fn spec_updated(
        &self,
        next: &Self,
        rows: nat,
        cols: nat,
        before: Seq<Pixel>,
        after: Seq<Pixel>,
        delta: u64,
        elapsed: u64,
    ) -> bool {
        true
    }

    fn setup(&mut self, display: &mut D)
        requires
            old(display).frame().len() == old(display).spec_rows() * old(display).spec_cols(),
        ensures
            final(display).frame().len() == final(display).spec_rows() * final(display).spec_cols(),
            final(display).spec_rows() == old(display).spec_rows(),
            final(display).spec_cols() == old(display).spec_cols(),
            final(display).shown() == old(display).shown(),
            forall|e: u64| #[trigger] final(self).spec_is_finished(e) == old(self).spec_is_finished(e),
            old(self).spec_set_up(
                final(self),
                old(display).spec_rows(),
                old(display).spec_cols(),
                old(display).frame(),
                final(display).frame(),
            ),
    ;

    /// Draws the frame for a tick that follows the last one by `delta`, at
    /// `elapsed` since the animation became active.
    fn update(&mut self, display: &mut D, delta: u64, elapsed: u64)
        requires
            old(display).frame().len() == old(display).spec_rows() * old(display).spec_cols(),
        ensures
            final(display).frame().len() == final(display).spec_rows() * final(display).spec_cols(),
            final(display).spec_rows() == old(display).spec_rows(),
            final(display).spec_cols() == old(display).spec_cols(),
            final(display).shown() == old(display).shown(),
            forall|e: u64| #[trigger] final(self).spec_is_finished(e) == old(self).spec_is_finished(e),
            old(self).spec_updated(
                final(self),
                old(display).spec_rows(),
                old(display).spec_cols(),
                old(display).frame(),
                final(display).frame(),
                delta,
                elapsed,
            ),
    ;

    fn is_finished(&self, display: &D, elapsed: u64) -> (r: bool)
        ensures
            r == self.spec_is_finished(elapsed),
    ;
}

/// Entry `e0` becomes `e1` in a tick on a grid of `rows` by `cols` whose
/// frame goes from `before` to `after`: set up first when `did_setup`, then
/// updated by `delta` at `elapsed`.
pub open spec fn played<D: PixelDisplay, A: Animation<D>>(
    e0: A,
    e1: A,
    did_setup: bool,
    rows: nat,
    cols: nat,
    before: Seq<Pixel>,
    after: Seq<Pixel>,
    delta: u64,
    elapsed: u64,
) -> bool {
    if did_setup {
        exists|mid: A, fm: Seq<Pixel>|
            <A as Animation<D>>::spec_set_up(&e0, &mid, rows, cols, before, fm)
                && #[trigger] <A as Animation<D>>::spec_updated(&mid, &e1, rows, cols, fm, after, delta, elapsed)
    } else {
        <A as Animation<D>>::spec_updated(&e0, &e1, rows, cols, before, after, delta, elapsed)
    }
}

/// `after` is `before` with at most entry `i` changed, and that one with
/// the same finish predicate.
pub open spec fn keeps_playlist<D: PixelDisplay, A: Animation<D>>(before: Seq<A>, after: Seq<A>, i: int) -> bool {
    &&& after.len() == before.len()
    &&& forall|j: int| 0 <= j < before.len() && j != i ==> after[j] == before[j]
    &&& forall|e: u64| #[trigger] after[i].spec_is_finished(e) == before[i].spec_is_finished(e)
}

/// `a + b`, or `u64::MAX` where the sum does not fit.
pub open spec fn sat_add(a: u64, b: u64) -> u64 {
    if a + b > u64::MAX {
        u64::MAX
    } else {
        (a + b) as u64
    }
}

/// `a - b`, or zero where `b` exceeds `a`.
pub open spec fn sat_sub(a: u64, b: u64) -> u64 {
    if a < b {
        0
    } else {
        (a - b) as u64
    }
}

/// The playlist position after `i` in a playlist of `n` entries.
pub open spec fn next_index(i: int, n: int) -> int {
    (i + 1) % n
}

fn add_saturating(a: u64, b: u64) -> (r: u64)
    ensures
        r == sat_add(a, b),
{
    if a > u64::MAX - b {
        u64::MAX
    } else {
        a + b
    }
}

fn sub_saturating(a: u64, b: u64) -> (r: u64)
    ensures
        r == sat_sub(a, b),
{
    if a < b {
        0
    } else {
        a - b
    }
}

/// Where playback stands: the active entry, the time spent in it, the time
/// of the last tick, and whether the entry still has to be set up. Times are
/// in microseconds.
#[derive(Clone, Copy, Debug, PartialEq, Eq, Structural)]
pub struct PlaybackState {
    pub index: usize,
    pub elapsed: u64,
    pub last: u64,
    pub needs_setup: bool,
}

/// What one tick did: the entry it played, whether it set that entry up
/// first, the time since the last tick, and the time spent in the entry when
/// the update ran.
#[derive(Clone, Copy, Debug, PartialEq, Eq, Structural)]
pub struct TickReport {
    pub index: usize,
    pub did_setup: bool,
    pub delta: u64,
    pub elapsed: u64,
}

impl PlaybackState {
    /// The state at the start of the playlist at time `now`.
    pub open spec fn spec_reset(now: u64) -> PlaybackState {
        PlaybackState { index: 0, elapsed: 0, last: now, needs_setup: true }
    }

    /// The report of a tick at time `now`.
    pub open spec fn spec_report(self, now: u64) -> TickReport {
        TickReport {
            index: self.index,
            did_setup: self.needs_setup,
            delta: sat_sub(now, self.last),
            elapsed: self.elapsed,
        }
    }

    /// The state after the update of a tick at time `now`: the time since the
    /// last tick is added to the time in the entry, which is now set up.
    pub open spec fn spec_begin(self, now: u64) -> PlaybackState {
        PlaybackState {
            index: self.index,
            elapsed: sat_add(self.elapsed, sat_sub(now, self.last)),
            last: now,
            needs_setup: false,
        }
    }

    /// The state after the finish check of a tick at time `now`: a finished
    /// entry hands over to the next one of `len`, from the start.
    pub open spec fn spec_finish(self, finished: bool, len: nat, now: u64) -> PlaybackState {
        if finished {
            PlaybackState {
                index: next_index(self.index as int, len as int) as usize,
                elapsed: 0,
                last: now,
                needs_setup: true,
            }
        } else {
            self
        }
    }

    pub fn reset(now: u64) -> (s: PlaybackState)
        ensures
            s == PlaybackState::spec_reset(now),
    {
        PlaybackState { index: 0, elapsed: 0, last: now, needs_setup: true }
    }

    /// Steps the state through the update of a tick at time `now`.
    pub fn begin(&mut self, now: u64) -> (r: TickReport)
        ensures
            r == old(self).spec_report(now),
            *final(self) == old(self).spec_begin(now),
    {
        let delta = sub_saturating(now, self.last);
        let r = TickReport { index: self.index, did_setup: self.needs_setup, delta, elapsed: self.elapsed };
        self.elapsed = add_saturating(self.elapsed, delta);
        self.last = now;
        self.needs_setup = false;
        r
    }

    /// Steps the state through the finish check of a tick at time `now`.
    pub fn finish(&mut self, finished: bool, len: usize, now: u64)
        requires
            0 < len,
        ensures
            *final(self) == old(self).spec_finish(finished, len as nat, now),
    {
        if finished {
            self.index = ((self.index as u128 + 1) % (len as u128)) as usize;
            self.elapsed = 0;
            self.last = now;
            self.needs_setup = true;
        }
    }
}

/// How long to sleep after a tick whose work took `cost`, to hold a frame
/// interval of `interval`: the rest of the interval, or nothing where the
/// work used it up.
pub fn frame_sleep(interval: u64, cost: u64) -> (r: u64)
    ensures
        cost < interval ==> cost + r == interval,
        cost >= interval ==> r == 0,
{
    if cost < interval {
        interval - cost
    } else {
        0
    }
}

/// Relies on time::precise_time_ns: a reading of a high-resolution counter
/// in nanoseconds; nothing is assumed of the value.
#[verifier::external_body]
fn precise_time_ns() -> (t: u64) {
    time::precise_time_ns()
}

/// The clock in microseconds.
fn clock_us() -> u64 {
    precise_time_ns() / 1000
}

/// Why a scheduler could not be built.
#[derive(Clone, Copy, Debug, PartialEq, Eq, Structural)]
pub enum ConfigError {
    /// The playlist has no entries.
    EmptyPlaylist,
    /// The grid has no rows or no columns.
    EmptyGrid,
}

/// Plays a playlist of animations on a display, in order and forever: each
/// tick measures the time since the last one, sets up the active entry when
/// it has just become active, updates it, renders, and moves to the next
/// entry once the active one is finished.
pub struct LightBox<D: PixelDisplay, A: Animation<D>> {
    display: D,
    playlist: Vec<A>,
    state: PlaybackState,
    interval: u64,
    stopped: bool,
}

impl<D: PixelDisplay, A: Animation<D>> LightBox<D, A> {
    pub closed spec fn spec_display(&self) -> D {
        self.display
    }

    pub closed spec fn spec_playlist(&self) -> Seq<A> {
        self.playlist@
    }

    pub closed spec fn spec_state(&self) -> PlaybackState {
        self.state
    }

    /// The frame interval in microseconds.
    pub closed spec fn spec_interval(&self) -> u64 {
        self.interval
    }

    /// Whether the playback loop has been stopped and the display torn down.
    pub closed spec fn is_stopped(&self) -> bool {
        self.stopped
    }

    pub open spec fn wf(&self) -> bool {
        &&& 0 < self.spec_playlist().len() <= usize::MAX
        &&& self.spec_state().index < self.spec_playlist().len()
        &&& self.spec_display().frame().len() == self.spec_display().spec_rows()
            * self.spec_display().spec_cols()
    }

    /// A scheduler at the start of `playlist`, with a frame interval of
    /// `frame_ms` milliseconds (saturating at the largest number of
    /// microseconds). Fails on an empty playlist or an empty grid.
    pub fn new(display: D, playlist: Vec<A>, frame_ms: u64) -> (r: Result<Self, ConfigError>)
        requires
            display.frame().len() == display.spec_rows() * display.spec_cols(),
        ensures
            playlist@.len() == 0 ==> r == Err::<Self, ConfigError>(ConfigError::EmptyPlaylist),
            playlist@.len() > 0 && (display.spec_rows() == 0 || display.spec_cols() == 0) ==> r
                == Err::<Self, ConfigError>(ConfigError::EmptyGrid),
            playlist@.len() > 0 && display.spec_rows() > 0 && display.spec_cols() > 0 ==> r is Ok,
            r matches Ok(lb) ==> {
                &&& lb.wf()
                &&& lb.spec_display() == display
                &&& lb.spec_playlist() == playlist@
                &&& lb.spec_state() == PlaybackState::spec_reset(0)
                &&& lb.spec_interval() == sat_mul_1000(frame_ms)
                &&& !lb.is_stopped()
            },
    {
        if playlist.len() == 0 {
            return Err(ConfigError::EmptyPlaylist);
        }
        if display.rows() == 0 || display.cols() == 0 {
            return Err(ConfigError::EmptyGrid);
        }
        let interval = if frame_ms > u64::MAX / 1000 {
            u64::MAX
        } else {
            frame_ms * 1000
        };
        Ok(LightBox { display, playlist, state: PlaybackState::reset(0), interval, stopped: false })
    }

    pub fn display(&self) -> (d: &D)
        ensures
            *d == self.spec_display(),
    {
        &self.display
    }

    pub fn state(&self) -> (s: PlaybackState)
        ensures
            s == self.spec_state(),
    {
        self.state
    }

    /// Goes back to the start of the playlist at time `now`: the first entry,
    /// no time spent in it, to be set up at the next tick.
    pub fn reset_at(&mut self, now: u64)
        requires
            old(self).wf(),
        ensures
            final(self).wf(),
            final(self).spec_state() == PlaybackState::spec_reset(now),
            final(self).spec_display() == old(self).spec_display(),
            final(self).spec_playlist() == old(self).spec_playlist(),
            final(self).spec_interval() == old(self).spec_interval(),
            !final(self).is_stopped(),
    {
        self.state = PlaybackState::reset(now);
        self.stopped = false;
    }

    /// `reset_at` the time read from the clock.
    pub fn reset(&mut self)
        requires
            old(self).wf(),
        ensures
            final(self).wf(),
            final(self).spec_state().index == 0,
            final(self).spec_state().elapsed == 0,
            final(self).spec_state().needs_setup,
            final(self).spec_display() == old(self).spec_display(),
            final(self).spec_playlist() == old(self).spec_playlist(),
            final(self).spec_interval() == old(self).spec_interval(),
            !final(self).is_stopped(),
    {
        let now = clock_us();
        self.reset_at(now);
    }

    /// The first part of a tick at time `now`: sets the active entry up if it
    /// has just become active, updates it with the time since the last tick,
    /// adds that time to the time spent in it, and renders once.
    pub fn update_at(&mut self, now: u64) -> (r: TickReport)
        requires
            old(self).wf(),
        ensures
            final(self).wf(),
            r == old(self).spec_state().spec_report(now),
            final(self).spec_state() == old(self).spec_state().spec_begin(now),
            keeps_playlist(old(self).spec_playlist(), final(self).spec_playlist(), old(self).spec_state().index as int),
            played::<D, A>(
                old(self).spec_playlist()[old(self).spec_state().index as int],
                final(self).spec_playlist()[old(self).spec_state().index as int],
                old(self).spec_state().needs_setup,
                old(self).spec_display().spec_rows(),
                old(self).spec_display().spec_cols(),
                old(self).spec_display().frame(),
                final(self).spec_display().frame(),
                r.delta,
                old(self).spec_state().elapsed,
            ),
            final(self).spec_interval() == old(self).spec_interval(),
            final(self).is_stopped() == old(self).is_stopped(),
            final(self).spec_display().spec_rows() == old(self).spec_display().spec_rows(),
            final(self).spec_display().spec_cols() == old(self).spec_display().spec_cols(),
            final(self).spec_display().shown() == old(self).spec_display().shown().push(
                final(self).spec_display().frame(),
            ),
    {
        let report = self.state.begin(now);
        let i = report.index;
        let mut entry = self.playlist.remove(i);
        let ghost e0 = entry;
        let ghost f0 = self.display.frame();
        if report.did_setup {
            entry.setup(&mut self.display);
        }
        let ghost mid = entry;
        let ghost fm = self.display.frame();
        entry.update(&mut self.display, report.delta, report.elapsed);
        proof {
            if report.did_setup {
                assert(<A as Animation<D>>::spec_set_up(&e0, &mid, self.display.spec_rows(), self.display.spec_cols(), f0, fm));
                assert(<A as Animation<D>>::spec_updated(&mid, &entry, self.display.spec_rows(), self.display.spec_cols(), fm, self.display.frame(), report.delta, report.elapsed));
            }
        }
        self.playlist.insert(i, entry);
        self.display.render();
        report
    }

    /// The second part of a tick at time `now`: asks the active entry whether
    /// it is finished and, if so, moves to the next entry, cyclically, with no
    /// time spent in it, to be set up at the next tick.
    pub fn finish_at(&mut self, now: u64) -> (finished: bool)
        requires
            old(self).wf(),
        ensures
            final(self).wf(),
            finished == old(self).spec_playlist()[old(self).spec_state().index as int].spec_is_finished(
                old(self).spec_state().elapsed,
            ),
            final(self).spec_state() == old(self).spec_state().spec_finish(
                finished,
                old(self).spec_playlist().len(),
                now,
            ),
            final(self).spec_display() == old(self).spec_display(),
            final(self).spec_playlist() == old(self).spec_playlist(),
            final(self).spec_interval() == old(self).spec_interval(),
            final(self).is_stopped() == old(self).is_stopped(),
    {
        let len = self.playlist.len();
        let finished = self.playlist[self.state.index].is_finished(&self.display, self.state.elapsed);
        self.state.finish(finished, len, now);
        finished
    }

    /// A tick at time `now` without pacing: `update_at`, then `finish_at`.
    pub fn tick_at(&mut self, now: u64) -> (r: (TickReport, bool))
        requires
            old(self).wf(),
        ensures
            final(self).wf(),
            r.0 == old(self).spec_state().spec_report(now),
            final(self).spec_state() == old(self).spec_state().spec_begin(now).spec_finish(
                r.1,
                old(self).spec_playlist().len(),
                now,
            ),
            r.1 == old(self).spec_playlist()[old(self).spec_state().index as int].spec_is_finished(
                old(self).spec_state().spec_begin(now).elapsed,
            ),
            keeps_playlist(old(self).spec_playlist(), final(self).spec_playlist(), old(self).spec_state().index as int),
            played::<D, A>(
                old(self).spec_playlist()[old(self).spec_state().index as int],
                final(self).spec_playlist()[old(self).spec_state().index as int],
                old(self).spec_state().needs_setup,
                old(self).spec_display().spec_rows(),
                old(self).spec_display().spec_cols(),
                old(self).spec_display().frame(),
                final(self).spec_display().frame(),
                r.0.delta,
                old(self).spec_state().elapsed,
            ),
            final(self).spec_display().shown() == old(self).spec_display().shown().push(
                final(self).spec_display().frame(),
            ),
            final(self).spec_interval() == old(self).spec_interval(),
            final(self).is_stopped() == old(self).is_stopped(),
            final(self).spec_display().shown().len() == old(self).spec_display().shown().len() + 1,
    {
        let report = self.update_at(now);
        let finished = self.finish_at(now);
        (report, finished)
    }

    /// The first part of a tick on the clock: `update_at` the time read, then
    /// the time to sleep to hold the frame interval, given what the tick took.
    pub fn update(&mut self) -> (sleep_us: u64)
        requires
            old(self).wf(),
        ensures
            final(self).wf(),
            sleep_us <= old(self).spec_interval(),
            exists|t: u64|
                {
                    &&& #[trigger] old(self).spec_state().spec_begin(t) == final(self).spec_state()
                    &&& played::<D, A>(
                        old(self).spec_playlist()[old(self).spec_state().index as int],
                        final(self).spec_playlist()[old(self).spec_state().index as int],
                        old(self).spec_state().needs_setup,
                        old(self).spec_display().spec_rows(),
                        old(self).spec_display().spec_cols(),
                        old(self).spec_display().frame(),
                        final(self).spec_display().frame(),
                        sat_sub(t, old(self).spec_state().last),
                        old(self).spec_state().elapsed,
                    )
                },
            final(self).spec_display().shown() == old(self).spec_display().shown().push(
                final(self).spec_display().frame(),
            ),
            final(self).spec_state().index == old(self).spec_state().index,
            !final(self).spec_state().needs_setup,
            keeps_playlist(old(self).spec_playlist(), final(self).spec_playlist(), old(self).spec_state().index as int),
            final(self).spec_interval() == old(self).spec_interval(),
            final(self).is_stopped() == old(self).is_stopped(),
            final(self).spec_display().shown().len() == old(self).spec_display().shown().len() + 1,
    {
        let start = clock_us();
        self.update_at(start);
        assert(old(self).spec_state().spec_begin(start) == self.spec_state());
        let end = clock_us();
        frame_sleep(self.interval, sub_saturating(end, start))
    }

    /// The second part of a tick on the clock, after the sleep: `finish_at`
    /// the time read.
    pub fn finish(&mut self) -> (finished: bool)
        requires
            old(self).wf(),
        ensures
            final(self).wf(),
            finished == old(self).spec_playlist()[old(self).spec_state().index as int].spec_is_finished(
                old(self).spec_state().elapsed,
            ),
            final(self).spec_state().index == (if finished {
                next_index(old(self).spec_state().index as int, old(self).spec_playlist().len() as int)
            } else {
                old(self).spec_state().index as int
            }),
            exists|t: u64| final(self).spec_state() == old(self).spec_state().spec_finish(
                finished,
                old(self).spec_playlist().len(),
                t,
            ),
            finished ==> final(self).spec_state().elapsed == 0 && final(self).spec_state().needs_setup,
            !finished ==> final(self).spec_state() == old(self).spec_state(),
            final(self).spec_interval() == old(self).spec_interval(),
            final(self).spec_display() == old(self).spec_display(),
            final(self).spec_playlist() == old(self).spec_playlist(),
            final(self).is_stopped() == old(self).is_stopped(),
    {
        let now = clock_us();
        let n = self.playlist.len();
        let ghost i = self.state.index as int;
        proof {
            assert(0 <= next_index(i, n as int) < n);
        }
        self.finish_at(now)
    }

    /// Blanks the display and renders the blank frame.
    pub fn clear(&mut self)
        requires
            old(self).wf(),
        ensures
            final(self).wf(),
            final(self).spec_display().frame() == blank_frame(old(self).spec_display().frame().len()),
            final(self).spec_display().shown() == old(self).spec_display().shown().push(
                blank_frame(old(self).spec_display().frame().len()),
            ),
            final(self).spec_display().spec_rows() == old(self).spec_display().spec_rows(),
            final(self).spec_display().spec_cols() == old(self).spec_display().spec_cols(),
            final(self).spec_state() == old(self).spec_state(),
            final(self).spec_playlist() == old(self).spec_playlist(),
            final(self).spec_interval() == old(self).spec_interval(),
            final(self).is_stopped() == old(self).is_stopped(),
    {
        self.display.clear();
        self.display.render();
    }

    /// The decision at the top of each tick of the playback loop, given
    /// whether cancellation was asked for: on the first cancellation the
    /// display is cleared and the blank frame rendered, once; the result says
    /// whether to run the tick.
    pub fn poll(&mut self, cancelled: bool) -> (run: bool)
        requires
            old(self).wf(),
        ensures
            final(self).wf(),
            run == (!cancelled && !old(self).is_stopped()),
            final(self).is_stopped() == (cancelled || old(self).is_stopped()),
            final(self).spec_state() == old(self).spec_state(),
            final(self).spec_playlist() == old(self).spec_playlist(),
            cancelled && !old(self).is_stopped() ==> {
                &&& final(self).spec_display().frame() == blank_frame(
                    old(self).spec_display().frame().len(),
                )
                &&& final(self).spec_display().shown() == old(self).spec_display().shown().push(
                    blank_frame(old(self).spec_display().frame().len()),
                )
            },
            !(cancelled && !old(self).is_stopped()) ==> final(self).spec_display()
                == old(self).spec_display(),
    {
        if self.stopped {
            return false;
        }
        if cancelled {
            self.clear();
            self.stopped = true;
            return false;
        }
        true
    }
}

/// `m * 1000`, or `u64::MAX` where the product does not fit.
pub open spec fn sat_mul_1000(m: u64) -> u64 {
    if m * 1000 > u64::MAX {
        u64::MAX
    } else {
        (m * 1000) as u64
    }
}

/// The state after `k` finishes in a row at time `now`, in a playlist of
/// `len` entries.
pub open spec fn finish_times(s: PlaybackState, len: nat, now: u64, k: nat) -> PlaybackState
    decreases k,
{
    if k == 0 {
        s
    } else {
        finish_times(s, len, now, (k - 1) as nat).spec_finish(true, len, now)
    }
}

/// In a playlist of `len` entries, a finish moves the active entry from `i`
/// to `(i + 1) mod len`, and `k` finishes in a row move it to
/// `(i + k) mod len`; so `len` finishes from the first entry return to it.
pub proof fn lemma_playlist_cycles(s: PlaybackState, len: nat, now: u64, k: nat)
    requires
        0 < len <= usize::MAX,
        s.index < len,
    ensures
        s.spec_finish(true, len, now).index == (s.index + 1) % (len as int),
        finish_times(s, len, now, k).index == (s.index + k) % (len as int),
        s.index == 0 ==> finish_times(s, len, now, len).index == 0,
{
    assert(0 <= (s.index + 1) % (len as int) < len);
    lemma_finish_index(s, len, now, k);
    if s.index == 0 {
        lemma_finish_index(s, len, now, len);
        vstd::arithmetic::div_mod::lemma_mod_self_0(len as int);
    }
}

proof fn lemma_finish_index(s: PlaybackState, len: nat, now: u64, k: nat)
    requires
        0 < len <= usize::MAX,
        s.index < len,
    ensures
        finish_times(s, len, now, k).index == (s.index + k) % (len as int),
    decreases k,
{
    if k == 0 {
        vstd::arithmetic::div_mod::lemma_small_mod(s.index as nat, len);
    } else {
        lemma_finish_index(s, len, now, (k - 1) as nat);
        let a = s.index + k - 1;
        vstd::arithmetic::div_mod::lemma_add_mod_noop(a, 1, len as int);
        if len > 1 {
            vstd::arithmetic::div_mod::lemma_small_mod(1, len);
        }
        assert(0 <= (a % (len as int) + 1) % (len as int) < len);
    }
}

/// After a reset at `now` the first entry is active with no time spent in
/// it; the next tick sets it up before updating it, and a tick after that
/// (with no finish between) does not set it up again.
pub proof fn lemma_reset_then_tick(now: u64, t1: u64, t2: u64, len: nat)
    requires
        0 < len,
    ensures
        PlaybackState::spec_reset(now).index == 0,
        PlaybackState::spec_reset(now).elapsed == 0,
        PlaybackState::spec_reset(now).spec_report(t1).did_setup,
        PlaybackState::spec_reset(now).spec_report(t1).index == 0,
        PlaybackState::spec_reset(now).spec_report(t1).elapsed == 0,
        !PlaybackState::spec_reset(now).spec_begin(t1).spec_finish(false, len, t1).spec_report(
            t2,
        ).did_setup,
{
}

} // verus!
