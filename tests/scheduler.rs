use std::cell::RefCell;
use std::rc::Rc;

use lightbox::display::{Display, PixelDisplay};
use lightbox::pixel::Pixel;
use lightbox::scheduler::{frame_sleep, Animation, ConfigError, LightBox, PlaybackState};

#[derive(Clone, Debug, PartialEq)]
enum Event {
    Setup(&'static str),
    Update(&'static str, u64, u64),
    Clear,
    Render,
}

type Log = Rc<RefCell<Vec<Event>>>;

struct LoggingDisplay {
    inner: Display,
    log: Log,
}

impl PixelDisplay for LoggingDisplay {
    fn rows(&self) -> usize {
        self.inner.rows()
    }

    fn cols(&self) -> usize {
        self.inner.cols()
    }

    fn set_at(&mut self, x: usize, y: usize, pixel: Pixel) {
        self.inner.set_at(x, y, pixel)
    }

    fn get_at(&self, x: usize, y: usize) -> Option<Pixel> {
        self.inner.get_at(x, y)
    }

    fn render(&mut self) {
        self.log.borrow_mut().push(Event::Render);
        self.inner.render()
    }

    fn clear(&mut self) {
        self.log.borrow_mut().push(Event::Clear);
        self.inner.clear()
    }
}

struct Timed {
    name: &'static str,
    finish_after: u64,
    log: Log,
}

impl<D: PixelDisplay> Animation<D> for Timed {
    fn setup(&mut self, _display: &mut D) {
        self.log.borrow_mut().push(Event::Setup(self.name));
    }

    fn update(&mut self, _display: &mut D, delta: u64, elapsed: u64) {
        self.log.borrow_mut().push(Event::Update(self.name, delta, elapsed));
    }

    fn is_finished(&self, _display: &D, elapsed: u64) -> bool {
        elapsed > self.finish_after
    }
}

fn lightbox(entries: &[(&'static str, u64)], log: &Log) -> LightBox<LoggingDisplay, Timed> {
    let display = LoggingDisplay { inner: Display::new(7, 7), log: log.clone() };
    let playlist = entries
        .iter()
        .map(|&(name, finish_after)| Timed { name, finish_after, log: log.clone() })
        .collect();
    match LightBox::new(display, playlist, 33) {
        Ok(lb) => lb,
        Err(e) => panic!("{:?}", e),
    }
}

#[test]
fn empty_playlist_is_refused() {
    let r: Result<LightBox<Display, Timed>, ConfigError> = LightBox::new(Display::new(7, 7), Vec::new(), 33);
    assert!(matches!(r, Err(ConfigError::EmptyPlaylist)));
}

#[test]
fn empty_grid_is_refused() {
    let log: Log = Rc::new(RefCell::new(Vec::new()));
    let t = Timed { name: "a", finish_after: 0, log };
    let r = LightBox::new(Display::new(0, 7), vec![t], 33);
    assert!(matches!(r, Err(ConfigError::EmptyGrid)));
}

#[test]
fn frame_sleep_fills_the_interval() {
    assert_eq!(frame_sleep(33_000, 10_000), 23_000);
    assert_eq!(frame_sleep(33_000, 0), 33_000);
    assert_eq!(frame_sleep(33_000, 32_999), 1);
    assert_eq!(frame_sleep(33_000, 33_000), 0);
    assert_eq!(frame_sleep(33_000, 50_000), 0);
}

#[test]
fn finishes_cycle_through_the_playlist() {
    let log: Log = Rc::new(RefCell::new(Vec::new()));
    let mut lb = lightbox(&[("a", 0), ("b", 0), ("c", 0)], &log);
    lb.reset_at(0);
    let mut seen = Vec::new();
    for k in 1..=6u64 {
        let (report, finished) = lb.tick_at(k * 1000);
        assert!(finished);
        seen.push(report.index);
    }
    assert_eq!(seen, vec![0, 1, 2, 0, 1, 2]);
    assert_eq!(lb.state().index, 0);
}

#[test]
fn reset_sets_up_the_first_entry_once_before_updating() {
    let log: Log = Rc::new(RefCell::new(Vec::new()));
    let mut lb = lightbox(&[("a", 10_000_000), ("b", 10_000_000)], &log);
    lb.reset_at(500);
    assert_eq!(lb.state(), PlaybackState { index: 0, elapsed: 0, last: 500, needs_setup: true });
    let (r1, _) = lb.tick_at(1500);
    assert!(r1.did_setup);
    assert_eq!(r1.index, 0);
    let (r2, _) = lb.tick_at(2500);
    assert!(!r2.did_setup);
    assert_eq!(
        *log.borrow(),
        vec![
            Event::Setup("a"),
            Event::Update("a", 1000, 0),
            Event::Render,
            Event::Update("a", 1000, 1000),
            Event::Render,
        ]
    );
    lb.reset_at(9000);
    assert_eq!(lb.state().elapsed, 0);
    assert_eq!(lb.state().index, 0);
    let (r3, _) = lb.tick_at(9100);
    assert!(r3.did_setup);
}

#[test]
fn two_entry_playlist_switches_once_in_five_half_second_ticks() {
    let log: Log = Rc::new(RefCell::new(Vec::new()));
    let mut lb = lightbox(&[("A", 1_000_000), ("B", 2_000_000)], &log);
    lb.reset_at(0);
    let mut active = Vec::new();
    let mut switches = 0;
    for k in 1..=5u64 {
        let (report, finished) = lb.tick_at(k * 500_000);
        active.push(if report.index == 0 { "A" } else { "B" });
        if finished {
            switches += 1;
        }
    }
    assert_eq!(active, vec!["A", "A", "A", "B", "B"]);
    assert_eq!(switches, 1);
    let setups: Vec<Event> =
        log.borrow().iter().filter(|e| matches!(e, Event::Setup(_))).cloned().collect();
    assert_eq!(setups, vec![Event::Setup("A"), Event::Setup("B")]);
}

#[test]
fn cancellation_stops_after_the_tick_and_tears_down_once() {
    let log: Log = Rc::new(RefCell::new(Vec::new()));
    let mut lb = lightbox(&[("a", u64::MAX)], &log);
    lb.reset_at(0);
    let mut cancelled = false;
    let mut ticks = 0u64;
    while lb.poll(cancelled) {
        ticks += 1;
        lb.tick_at(ticks * 33_000);
        if ticks == 3 {
            cancelled = true;
        }
        assert!(ticks < 100);
    }
    assert_eq!(ticks, 3);
    assert!(!lb.poll(true));
    let events = log.borrow().clone();
    let renders = events.iter().filter(|e| **e == Event::Render).count();
    let clears = events.iter().filter(|e| **e == Event::Clear).count();
    assert_eq!(renders, 4);
    assert_eq!(clears, 1);
    assert_eq!(&events[events.len() - 2..], &[Event::Clear, Event::Render]);
    for y in 0..7 {
        for x in 0..7 {
            assert_eq!(lb.display().get_at(x, y), Some(Pixel(0)));
        }
    }
}

#[test]
fn clock_driven_tick_sleeps_at_most_the_interval() {
    let log: Log = Rc::new(RefCell::new(Vec::new()));
    let mut lb = lightbox(&[("a", u64::MAX), ("b", u64::MAX)], &log);
    lb.reset();
    let sleep = lb.update();
    assert!(sleep <= 33_000);
    assert!(!lb.finish());
    assert_eq!(lb.state().index, 0);
    assert!(!lb.state().needs_setup);
    lb.clear();
    assert_eq!(log.borrow().last(), Some(&Event::Render));
}
