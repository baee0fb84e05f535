//! From an averaged colour to the glyph that shows it: relative luminance,
//! gamma correction, then the palette.

use crate::color::{lemma_luminance_is_byte, luminance_of, Rgb};
use crate::gamma::{identity_table, GammaCurve};
use crate::palette::{glyph_for, glyph_of, lemma_rank_monotone, rank_of};
use vstd::prelude::*;

verus! {

/// Luminance of a colour after gamma correction by a response table.
pub open spec fn corrected_luminance(color: Rgb, curve: Seq<u8>) -> int {
    curve[luminance_of(color)] as int
}

/// The glyph that shows a colour under a response table.
pub open spec fn glyph_of_color(color: Rgb, curve: Seq<u8>) -> char {
    glyph_of(corrected_luminance(color, curve))
}

/// The glyph that shows a colour under a gamma response.
pub fn map_color(color: Rgb, curve: &GammaCurve) -> (glyph: char)
    ensures
        glyph == glyph_of_color(color, curve@),
{
    glyph_for(curve.apply(color.luminance()))
}

/// Under the identity response a colour is shown by the glyph of its own
/// luminance.
pub proof fn lemma_identity_keeps_luminance(color: Rgb)
    ensures
        corrected_luminance(color, identity_table()) == luminance_of(color),
        glyph_of_color(color, identity_table()) == glyph_of(luminance_of(color)),
{
    lemma_luminance_is_byte(color);
}

/// Of two responses, the one that corrects a colour's luminance to the
/// lower level shows it with a glyph at least as dark.
pub proof fn lemma_lower_response_is_darker(color: Rgb, lower: Seq<u8>, upper: Seq<u8>)
    requires
        lower[luminance_of(color)] <= upper[luminance_of(color)],
    ensures
        rank_of(corrected_luminance(color, lower)) <= rank_of(corrected_luminance(color, upper)),
{
    lemma_rank_monotone(corrected_luminance(color, lower), corrected_luminance(color, upper));
}

/// No glyph is the line separator.
pub proof fn lemma_glyph_is_not_separator(luminance: int)
    ensures
        glyph_of(luminance) != '\n',
{
}

} // verus!
