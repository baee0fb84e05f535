//! Colour samples and their relative luminance.

use vstd::prelude::*;

verus! {

/// One colour sample, eight bits per channel.
#[derive(Clone, Copy, Debug, PartialEq, Eq, Structural)]
pub struct Rgb {
    pub r: u8,
    pub g: u8,
    pub b: u8,
}

/// Weight of the red channel, in ten-thousandths.
pub const RED_WEIGHT: u32 = 2126;

/// Weight of the green channel, in ten-thousandths.
pub const GREEN_WEIGHT: u32 = 7152;

/// Weight of the blue channel, in ten-thousandths.
pub const BLUE_WEIGHT: u32 = 722;

/// Sum of the three weights.
pub const WEIGHT_SCALE: u32 = 10000;

/// Relative luminance of a colour: the weighted channel sum
/// `0.2126 R + 0.7152 G + 0.0722 B`, truncated to an integer.
pub open spec fn luminance_of(color: Rgb) -> int {
    (RED_WEIGHT * color.r + GREEN_WEIGHT * color.g + BLUE_WEIGHT * color.b) / (WEIGHT_SCALE as int)
}

impl Rgb {
    /// A colour from its three channels.
    pub fn new(r: u8, g: u8, b: u8) -> (color: Rgb)
        ensures
            color == (Rgb { r, g, b }),
    {
        Rgb { r, g, b }
    }

    /// A grey of the given level.
    pub fn gray(level: u8) -> (color: Rgb)
        ensures
            color == (Rgb { r: level, g: level, b: level }),
    {
        Rgb { r: level, g: level, b: level }
    }

    /// Relative luminance of this colour.
    pub fn luminance(&self) -> (level: u8)
        ensures
            level == luminance_of(*self),
    {
        let weighted: u32 = RED_WEIGHT * (self.r as u32) + GREEN_WEIGHT * (self.g as u32)
            + BLUE_WEIGHT * (self.b as u32);
        (weighted / WEIGHT_SCALE) as u8
    }
}

/// Luminance is a byte.
pub proof fn lemma_luminance_is_byte(color: Rgb)
    ensures
        0 <= luminance_of(color) <= 255,
{
}

/// A grey has its own level as luminance: the weights sum to one.
pub proof fn lemma_gray_luminance(level: u8)
    ensures
        luminance_of(Rgb { r: level, g: level, b: level }) == level,
{
}

} // verus!
