use vstd::prelude::*;

verus! {

/// A strip brightness (`0..=255`) as a percentage, rounded down.
pub fn brightness_to_percentage(brightness: u8) -> (p: u8)
    ensures
        p == brightness as int * 100 / 255,
        p <= 100,
{
    ((brightness as u32) * 100 / 255) as u8
}

/// A percentage as a strip brightness, rounded down; percentages above 100
/// give full brightness.
pub fn percentage_to_brightness(percentage: u8) -> (b: u8)
    ensures
        percentage <= 100 ==> b == percentage as int * 255 / 100,
        percentage > 100 ==> b == 255,
{
    if percentage > 100 {
        255
    } else {
        ((percentage as u32) * 255 / 100) as u8
    }
}

} // verus!
