use lightbox::pixel::Pixel;
use lightbox::control::{brightness_to_percentage, percentage_to_brightness};

#[test]
fn new_packs_white_red_green_blue() {
    let p = Pixel::new(0x11, 0x22, 0x33, 0x44);
    assert_eq!(u32::from(p), 0x4411_2233);
    assert_eq!(p.r(), 0x11);
    assert_eq!(p.g(), 0x22);
    assert_eq!(p.b(), 0x33);
    assert_eq!(p.w(), 0x44);
}

#[test]
fn from_word_reads_channels_back() {
    let p = Pixel::from(0xff00_80c0u32);
    assert_eq!(p.w(), 0xff);
    assert_eq!(p.r(), 0x00);
    assert_eq!(p.g(), 0x80);
    assert_eq!(p.b(), 0xc0);
    assert_eq!(Pixel::default(), Pixel::new(0, 0, 0, 0));
    assert_eq!(u32::from(Pixel::zero()), 0);
}

#[test]
fn scale_by_one_is_identity() {
    let p = Pixel::new(200, 13, 255, 1);
    assert_eq!(p.scale(1, 1), p);
    assert_eq!(p.scale(7, 7), p);
    assert_eq!(p.at_brightness(255), p);
}

#[test]
fn scale_by_zero_is_black() {
    let p = Pixel::new(200, 13, 255, 1);
    assert_eq!(p.scale(0, 10), Pixel::new(0, 0, 0, 0));
    assert_eq!(p.at_brightness(0), Pixel::new(0, 0, 0, 0));
}

#[test]
fn scale_truncates_each_channel() {
    let p = Pixel::new(200, 13, 255, 1);
    assert_eq!(p.scale(9, 10), Pixel::new(180, 11, 229, 0));
    assert_eq!(p.at_brightness(128), Pixel::new(100, 6, 128, 0));
}

#[test]
fn scale_is_monotonic_per_channel() {
    let p = Pixel::new(250, 99, 17, 128);
    let mut prev = p.scale(0, 100);
    for n in 1..=100u32 {
        let cur = p.scale(n, 100);
        assert!(cur.r() >= prev.r());
        assert!(cur.g() >= prev.g());
        assert!(cur.b() >= prev.b());
        assert!(cur.w() >= prev.w());
        prev = cur;
    }
    assert_eq!(prev, p);
}

#[test]
fn brightness_percentages_round_down() {
    assert_eq!(brightness_to_percentage(255), 100);
    assert_eq!(brightness_to_percentage(128), 50);
    assert_eq!(brightness_to_percentage(0), 0);
    assert_eq!(percentage_to_brightness(100), 255);
    assert_eq!(percentage_to_brightness(50), 127);
    assert_eq!(percentage_to_brightness(200), 255);
}
