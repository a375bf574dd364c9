//! Playback of time-driven light effects on a small grid of RGBW elements,
//! with an anti-aliasing compositor that turns analytic shapes into pixels.

pub mod pixel;
pub mod display;
pub mod buffer;
pub mod scheduler;
pub mod wave;
pub mod shapes;
pub mod effects;
pub mod fireflies;
pub mod letters;
pub mod control;
