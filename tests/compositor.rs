use lightbox::buffer::{super_sample_to_display, BufferPixel, Buffer, ReconstructionFilter, Samplable};
use lightbox::display::{Display, PixelDisplay};
use lightbox::pixel::Pixel;
use lightbox::shapes::{BlendedCircle, Circle, StripePattern};
use lightbox::wave::UNIT;

#[test]
fn gaussian_weights_are_separable_and_vanish_at_the_radius() {
    let f = ReconstructionFilter::gaussian();
    assert_eq!(f.density(), 8);
    assert_eq!(f.evaluate(0, 0), 65535 * 65535);
    assert_eq!(f.evaluate(-3, 2), 51934 * 59254);
    assert_eq!(f.evaluate(3, -2), 51934 * 59254);
    assert_eq!(f.evaluate(8, 0), 0);
    assert_eq!(f.evaluate(0, -9), 0);
}

#[test]
fn custom_filter_uses_its_taps() {
    let f = ReconstructionFilter::new(2, vec![4, 1]);
    assert_eq!(f.evaluate(0, 0), 16);
    assert_eq!(f.evaluate(1, -1), 1);
    assert_eq!(f.evaluate(2, 0), 0);
}

#[test]
fn cell_with_no_samples_normalizes_to_zero() {
    let b = Buffer::new(7, 7);
    for y in 0..7 {
        for x in 0..7 {
            assert_eq!(b.at(x, y).scaled_color(), Pixel(0));
        }
    }
    assert_eq!(BufferPixel::empty().scaled_color(), Pixel(0));
}

#[test]
fn deposits_average_with_rounding() {
    let mut c = BufferPixel::empty();
    c.deposit(Pixel::new(10, 0, 255, 3), 3);
    c.deposit(Pixel::new(20, 0, 0, 4), 1);
    assert_eq!(c.weight, 4);
    assert_eq!(c.red, 50);
    // 50 / 4 = 12.5 rounds up; 765 / 4 = 191.25 rounds down
    assert_eq!(c.scaled_color(), Pixel::new(13, 0, 191, 3));
}

#[test]
fn deposit_past_the_cap_is_dropped() {
    let mut c = BufferPixel { red: 0, green: 0, blue: 0, white: 0, weight: lightbox::buffer::WEIGHT_CAP - 1 };
    c.deposit(Pixel::new(255, 255, 255, 255), 2);
    assert_eq!(c.weight, lightbox::buffer::WEIGHT_CAP - 1);
    c.deposit(Pixel::new(255, 255, 255, 255), 1);
    assert_eq!(c.weight, lightbox::buffer::WEIGHT_CAP);
}

#[test]
fn sample_reaches_only_cells_within_the_radius() {
    let f = ReconstructionFilter::gaussian();
    let mut b = Buffer::new(7, 7);
    let c = Pixel::new(9, 8, 7, 6);
    b.add_sample(&f, 0, 0, c);
    assert_eq!(b.at(0, 0).weight, 65535 * 65535);
    assert_eq!(b.at(0, 0).scaled_color(), c);
    assert_eq!(b.at(1, 0).weight, 0);
    b.add_sample(&f, 12, 4, c);
    assert_eq!(b.at(1, 0).weight, 42602 * 42602);
    assert_eq!(b.at(2, 1).weight, 42602 * 42602);
    assert_eq!(b.at(2, 0).weight, 42602 * 42602);
    assert_eq!(b.at(1, 1).weight, 42602 * 42602);
    assert_eq!(b.at(3, 0).weight, 0);
}

#[test]
fn uniform_color_is_reproduced_exactly() {
    let f = ReconstructionFilter::gaussian();
    let c = Pixel::new(255, 128, 64, 200);
    let shape = Circle::new(10_000, 24, 24, c);
    let mut b = Buffer::new(7, 7);
    b.add_samples_grid(&shape, &f);
    for y in 0..7 {
        for x in 0..7 {
            assert!(b.at(x, y).weight > 0);
            assert_eq!(b.at(x, y).scaled_color(), c);
        }
    }
    b.clear();
    assert_eq!(b.at(3, 3), BufferPixel::empty());
}

#[test]
fn hammersley_samples_reproduce_a_uniform_color() {
    let f = ReconstructionFilter::gaussian();
    let c = Pixel::new(1, 2, 3, 4);
    let shape = Circle::new(10_000, 24, 24, c);
    let mut b = Buffer::new(7, 7);
    b.add_samples_hammersley(&shape, &f, 4096);
    let mut covered = 0;
    for y in 0..7 {
        for x in 0..7 {
            let cell = b.at(x, y);
            if cell.weight > 0 {
                covered += 1;
                assert_eq!(cell.scaled_color(), c);
            } else {
                assert_eq!(cell.scaled_color(), Pixel(0));
            }
        }
    }
    assert!(covered > 40);
}

#[test]
fn super_sampling_writes_the_normalized_cells() {
    let f = ReconstructionFilter::gaussian();
    let c = Pixel::new(255, 255, 255, 255);
    let shape = Circle::new(20, 24, 24, c);
    let mut b = Buffer::new(7, 7);
    let mut d = Display::new(7, 7);
    super_sample_to_display(&shape, &f, &mut b, &mut d);
    assert_eq!(d.get_at(3, 3), Some(c));
    assert_eq!(d.get_at(0, 0), Some(Pixel(0)));
    for y in 0..7 {
        for x in 0..7 {
            assert_eq!(d.get_at(x, y), Some(b.at(x, y).scaled_color()));
        }
    }
    let edge = d.get_at(5, 3).unwrap();
    assert!(edge.r() > 0 && edge.r() < 255);
}

#[test]
fn circle_covers_its_center_and_nothing_beyond_its_radius() {
    let c = Pixel::new(1, 1, 1, 1);
    let mut circle = Circle::new(5, 100, 100, c);
    assert_eq!(circle.sample(100, 100), Some(c));
    assert_eq!(circle.sample(104, 102), Some(c));
    assert_eq!(circle.sample(105, 100), None);
    assert_eq!(circle.sample(104, 104), None);
    assert_eq!(circle.sample(0, u64::MAX), None);
    circle.set_radius(0);
    assert_eq!(circle.sample(100, 100), None);
    circle.set_radius(1);
    circle.set_color(Pixel::new(2, 2, 2, 2));
    assert_eq!(circle.sample(100, 100), Some(Pixel::new(2, 2, 2, 2)));
}

#[test]
fn blended_circle_runs_from_outer_to_inner() {
    let shape = BlendedCircle {
        origin_x: 50,
        origin_y: 50,
        radius: 10,
        inner: Pixel::new(255, 128, 64, 255),
        outer: Pixel::new(255, 255, 255, 255),
    };
    assert_eq!(shape.sample(50, 50), Some(Pixel::new(255, 255, 255, 255)));
    // d2 = 36 of r2 = 100: (128 * 36 + 255 * 64) / 100 = 209
    assert_eq!(shape.sample(56, 50), Some(Pixel::new(255, 209, 186, 255)));
    assert_eq!(shape.sample(60, 50), None);
}

#[test]
fn stripes_alternate_and_cycle_colors() {
    let p = StripePattern { center_x: 0, center_y: 0, cos: UNIT, sin: 0, density: 8 };
    let first = p.sample(0, 0);
    assert!(first.is_some());
    assert_eq!(p.sample(7, 3), first);
    assert_eq!(p.sample(8, 0), None);
    assert_eq!(p.sample(15, 5), None);
    let second = p.sample(16, 0);
    assert!(second.is_some());
    assert_ne!(second, first);
    assert_eq!(p.sample(64, 0), first);
    let turned = StripePattern { center_x: 0, center_y: 0, cos: 0, sin: UNIT, density: 8 };
    assert_eq!(turned.sample(3, 0), turned.sample(60, 0));
}
