use lightbox::display::{serpentine_index, Display, PixelDisplay};
use lightbox::effects::{
    circle_radius_at, stripe_angle_at, BasicAnimation, CircleAnimation, Effect, MyAnimation, StripeAnimation,
};
use lightbox::fireflies::{cycle, Fireflies, MAX_BALLS, MAX_TTL, MIN_TTL};
use lightbox::letters::{letter_at, Letters};
use lightbox::pixel::Pixel;
use lightbox::scheduler::Animation;
use lightbox::wave::{cosine, sine};

fn lit(d: &Display) -> usize {
    let mut n = 0;
    for y in 0..d.rows() {
        for x in 0..d.cols() {
            if d.get_at(x, y) != Some(Pixel(0)) {
                n += 1;
            }
        }
    }
    n
}

#[test]
fn fixed_point_wave_values() {
    assert_eq!(sine(0), 0);
    assert_eq!(sine(8192), 11565);
    assert_eq!(sine(16384), 16384);
    assert_eq!(sine(32768), 0);
    assert_eq!(sine(49152), -16384);
    assert_eq!(sine(65536 + 16384), 16384);
    assert_eq!(cosine(0), 16384);
    assert_eq!(cosine(32768), -16384);
}

#[test]
fn display_ignores_writes_outside_the_grid() {
    let mut d = Display::new(2, 3);
    d.set_at(3, 0, Pixel(5));
    d.set_at(0, 2, Pixel(5));
    assert_eq!(lit(&d), 0);
    assert_eq!(d.get_at(3, 0), None);
    d.set_at(2, 1, Pixel(5));
    assert_eq!(d.get_at(2, 1), Some(Pixel(5)));
    d.clear();
    assert_eq!(lit(&d), 0);
    let seven = Display::default();
    assert_eq!((seven.rows(), seven.cols()), (7, 7));
}

#[test]
fn serpentine_rows_alternate_direction() {
    assert_eq!(serpentine_index(0, 0, 7), 0);
    assert_eq!(serpentine_index(6, 0, 7), 6);
    assert_eq!(serpentine_index(0, 1, 7), 13);
    assert_eq!(serpentine_index(6, 1, 7), 7);
    assert_eq!(serpentine_index(2, 2, 7), 16);
}

#[test]
fn sweep_lights_twenty_cells_a_second() {
    let mut d = Display::default();
    let mut a = BasicAnimation::default();
    a.setup(&mut d);
    a.update(&mut d, 0, 0);
    assert_eq!(lit(&d), 0);
    a.update(&mut d, 0, 1_000_000);
    assert_eq!(lit(&d), 20);
    assert_eq!(d.get_at(0, 0), Some(Pixel::new(255, 0, 127, 255)));
    assert_eq!(d.get_at(5, 2), Some(Pixel::new(255, 0, 127, 255)));
    assert_eq!(d.get_at(6, 2), Some(Pixel(0)));
    a.update(&mut d, 0, 2_450_000);
    assert_eq!(lit(&d), 0);
    assert!(!a.is_finished(&d, 4_900_000));
    assert!(a.is_finished(&d, 4_900_001));
    let _ = MyAnimation::new(3);
}

#[test]
fn sweep_counter_steps_modulo_49() {
    let mut d = Display::default();
    let mut a = MyAnimation::new(100);
    a.update(&mut d, 0, 0);
    assert_eq!(a.count(), 3);
    let mut b = BasicAnimation::new(48);
    b.update(&mut d, 0, 0);
    assert_eq!(b.count(), 0);
    let mut n = BasicAnimation::new(-5);
    n.update(&mut d, 0, 0);
    assert_eq!(n.count(), -4);
    let mut m = BasicAnimation::new(-100);
    m.update(&mut d, 0, 0);
    assert_eq!(m.count(), -99 % 49);
    assert_eq!(BasicAnimation::default().count(), 0);
}

#[test]
fn circle_radius_swells_and_shrinks() {
    assert_eq!(circle_radius_at(0, 7, 8), 0);
    // half a period in: the largest radius, 7 * 8 * 11 / 14 = 44 sub-steps
    assert_eq!(circle_radius_at(3_141_593, 7, 8), 44);
    assert!(circle_radius_at(1_000_000, 7, 8) < 44);
}

#[test]
fn circle_fills_from_the_middle() {
    let mut d = Display::default();
    let mut a = CircleAnimation::default();
    a.setup(&mut d);
    a.update(&mut d, 0, 0);
    assert_eq!(lit(&d), 0);
    a.update(&mut d, 0, 3_141_593);
    assert_eq!(a.shape().radius, 44);
    assert_eq!((a.shape().origin_x, a.shape().origin_y), (24, 24));
    // the middle is close to the white at the center of the blend
    let mid = d.get_at(3, 3).unwrap();
    assert_eq!((mid.r(), mid.w()), (255, 255));
    assert!(mid.g() >= 250 && mid.b() >= 245);
    assert!(lit(&d) > 40);
    assert!(a.is_finished(&d, 5_000_001));
}

#[test]
fn stripes_turn_with_time() {
    assert_eq!(stripe_angle_at(0), 0);
    assert!(stripe_angle_at(1_000_000) > 0);
    let mut d = Display::default();
    let mut a = StripeAnimation::default();
    a.setup(&mut d);
    a.update(&mut d, 0, 0);
    let first = (0..7).map(|x| d.get_at(x, 0)).collect::<Vec<_>>();
    assert!(first.iter().any(|p| *p != first[0]));
    a.update(&mut d, 0, 1_500_000);
    let later = (0..7).map(|x| d.get_at(x, 0)).collect::<Vec<_>>();
    assert_ne!(first, later);
    assert!(!a.is_finished(&d, 10_000_000));
    assert!(a.is_finished(&d, 10_000_001));
}

#[test]
fn wave_cycle_stays_between_zero_and_its_height() {
    assert_eq!(cycle(0, 100, 0), 0);
    assert_eq!(cycle(255, 0, 255), 0);
    assert_eq!(cycle(255, 16384, 255), 127);
    assert_eq!(cycle(6, 0, 0), 6);
    assert_eq!(cycle(6, 32768, 0), 0);
    for r in (0..=65536u64).step_by(4096) {
        assert!(cycle(6, r, 3) <= 6);
    }
}

#[test]
fn fireflies_spawn_one_per_tick_up_to_the_cap() {
    let mut d = Display::default();
    let mut f = Fireflies::new(7);
    f.setup(&mut d);
    for k in 1..=12usize {
        f.update(&mut d, 1000, 1000 * k as u64);
        assert_eq!(f.balls().len(), k.min(MAX_BALLS));
    }
    for b in f.balls() {
        assert!(b.pos_x < 7 && b.pos_y < 7);
        assert!(b.ttl >= MIN_TTL && b.ttl < MAX_TTL);
    }
    let ids: Vec<u32> = f.balls().iter().map(|b| b.id).collect();
    assert_eq!(ids, (0..10).collect::<Vec<u32>>());
    assert!(f.is_finished(&d, 30_000_001));
}

#[test]
fn fireflies_setup_empties_the_pool() {
    let mut d = Display::default();
    let mut f = Fireflies::new(11);
    f.update(&mut d, 1000, 1000);
    assert_eq!(f.balls().len(), 1);
    f.setup(&mut d);
    assert_eq!(f.balls().len(), 0);
    f.update(&mut d, 1000, 1000);
    assert_eq!(f.balls()[0].id, 0);
    assert_eq!(f.balls()[0].elapsed, 1000);
}

#[test]
fn fireflies_glow_and_expire() {
    let mut d = Display::default();
    let mut f = Fireflies::new(3);
    f.update(&mut d, 0, 0);
    let mut k = 1u64;
    while f.balls().len() > 0 && k < 2000 {
        f.update(&mut d, 250_000, k * 250_000);
        if f.balls().iter().all(|b| b.elapsed > 0) {
            assert!(f.balls().iter().all(|b| b.elapsed <= b.ttl));
        }
        k += 1;
        if k == 3 {
            assert!(lit(&d) > 0);
        }
    }
    assert!(f.balls().len() <= MAX_BALLS);
}

#[test]
fn fireflies_are_reproducible_from_their_seed() {
    let mut d1 = Display::default();
    let mut d2 = Display::default();
    let mut f1 = Fireflies::new(42);
    let mut f2 = Fireflies::new(42);
    for k in 1..=5u64 {
        f1.update(&mut d1, 20_000, k * 20_000);
        f2.update(&mut d2, 20_000, k * 20_000);
    }
    let key = |f: &Fireflies| f.balls().iter().map(|b| (b.pos_x, b.pos_y, b.ttl, u32::from(b.color))).collect::<Vec<_>>();
    assert_eq!(key(&f1), key(&f2));
    let ttls: Vec<u64> = f1.balls().iter().map(|b| b.ttl).collect();
    assert!(ttls.iter().any(|t| *t != ttls[0]));
}

#[test]
fn faded_pixels_keep_nine_tenths() {
    let mut d = Display::default();
    d.set_at(1, 1, Pixel::new(100, 50, 9, 255));
    Fireflies::fade(&mut d);
    assert_eq!(d.get_at(1, 1), Some(Pixel::new(90, 45, 8, 229)));
}

#[test]
fn letters_follow_the_alphabet_once_a_second() {
    assert_eq!(letter_at(0), 'A');
    assert_eq!(letter_at(1_500_000), 'B');
    assert_eq!(letter_at(25_999_999), 'Z');
    assert_eq!(letter_at(27_000_000), 'B');
    let mut a_glyph = vec![0u8; 49];
    a_glyph[24] = 255;
    let b_glyph = vec![128u8; 49];
    let mut d = Display::default();
    let mut l = Letters::new(vec![a_glyph, b_glyph]);
    l.setup(&mut d);
    l.update(&mut d, 0, 100);
    assert_eq!(lit(&d), 49);
    assert_eq!(d.get_at(0, 0), Some(Pixel::new(0, 0, 0, 255)));
    assert_eq!(d.get_at(3, 3), Some(Pixel::new(255, 255, 255, 255)));
    l.update(&mut d, 0, 1_000_000);
    assert_eq!(d.get_at(0, 0), Some(Pixel::new(128, 128, 128, 255)));
    let before = (0..7).map(|x| d.get_at(x, 6)).collect::<Vec<_>>();
    l.update(&mut d, 0, 2_000_000);
    assert_eq!((0..7).map(|x| d.get_at(x, 6)).collect::<Vec<_>>(), before);
    assert!(l.is_finished(&d, 26_000_001));
}

#[test]
fn effect_dispatches_to_its_animation() {
    let mut d = Display::default();
    let mut e = Effect::Basic(BasicAnimation::default());
    e.setup(&mut d);
    e.update(&mut d, 0, 1_000_000);
    assert_eq!(lit(&d), 20);
    assert!(!e.is_finished(&d, 4_000_000));
    let e2 = Effect::Fireflies(Fireflies::default());
    assert!(!e2.is_finished(&d, 30_000_000));
    assert!(e2.is_finished(&d, 30_000_001));
}
