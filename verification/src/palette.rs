//! The glyph palette: nine glyphs, darkest first, each owning a closed range
//! of corrected luminance.

use vstd::prelude::*;

verus! {

/// Number of glyphs in the palette.
pub const PALETTE_SIZE: usize = 9;

/// Largest luminance shown with the glyph of the given rank. The last rank
/// ends the byte range, and so does whatever is asked beyond it.
pub open spec fn upper_bound(rank: int) -> int {
    if rank == 0 {
        25
    } else if rank == 1 {
        51
    } else if rank == 2 {
        76
    } else if rank == 3 {
        102
    } else if rank == 4 {
        127
    } else if rank == 5 {
        153
    } else if rank == 6 {
        178
    } else if rank == 7 {
        204
    } else {
        255
    }
}

/// Smallest luminance shown with the glyph of the given rank: one past the
/// range of the rank below.
pub open spec fn lower_bound(rank: int) -> int {
    if rank <= 0 {
        0
    } else {
        upper_bound(rank - 1) + 1
    }
}

/// The glyph of the given rank, rank 0 being the darkest.
pub open spec fn glyph_at(rank: int) -> char {
    if rank == 0 {
        '#'
    } else if rank == 1 {
        '@'
    } else if rank == 2 {
        '8'
    } else if rank == 3 {
        '&'
    } else if rank == 4 {
        'o'
    } else if rank == 5 {
        '*'
    } else if rank == 6 {
        ':'
    } else if rank == 7 {
        ','
    } else {
        '.'
    }
}

/// Whether `luminance` lies in the range owned by `rank`.
pub open spec fn in_bucket(luminance: int, rank: int) -> bool {
    0 <= rank < PALETTE_SIZE && lower_bound(rank) <= luminance <= upper_bound(rank)
}

/// The rank whose range holds `luminance`: the number of ranges that end
/// below it.
pub open spec fn rank_of(luminance: int) -> int {
    if luminance <= 25 {
        0
    } else if luminance <= 51 {
        1
    } else if luminance <= 76 {
        2
    } else if luminance <= 102 {
        3
    } else if luminance <= 127 {
        4
    } else if luminance <= 153 {
        5
    } else if luminance <= 178 {
        6
    } else if luminance <= 204 {
        7
    } else {
        8
    }
}

/// The glyph shown for a corrected luminance.
pub open spec fn glyph_of(luminance: int) -> char {
    glyph_at(rank_of(luminance))
}

/// Largest luminance of a rank, as a byte.
pub fn bound_of(rank: usize) -> (bound: u8)
    ensures
        bound == upper_bound(rank as int),
{
    match rank {
        0 => 25,
        1 => 51,
        2 => 76,
        3 => 102,
        4 => 127,
        5 => 153,
        6 => 178,
        7 => 204,
        _ => 255,
    }
}

/// The glyph of a rank.
pub fn glyph_at_rank(rank: usize) -> (glyph: char)
    ensures
        glyph == glyph_at(rank as int),
{
    match rank {
        0 => '#',
        1 => '@',
        2 => '8',
        3 => '&',
        4 => 'o',
        5 => '*',
        6 => ':',
        7 => ',',
        _ => '.',
    }
}

/// Finds the rank of a luminance by walking the palette from the dark end.
pub fn rank_for(luminance: u8) -> (rank: usize)
    ensures
        rank == rank_of(luminance as int),
        in_bucket(luminance as int, rank as int),
{
    let mut rank: usize = 0;
    while rank + 1 < PALETTE_SIZE && luminance > bound_of(rank)
        invariant
            rank < PALETTE_SIZE,
            lower_bound(rank as int) <= luminance,
            rank as int <= rank_of(luminance as int),
        decreases PALETTE_SIZE - rank,
    {
        rank = rank + 1;
    }
    rank
}

/// The glyph shown for a corrected luminance.
pub fn glyph_for(luminance: u8) -> (glyph: char)
    ensures
        glyph == glyph_of(luminance as int),
{
    glyph_at_rank(rank_for(luminance))
}

/// Every byte lies in the range of exactly one rank, and that rank is the
/// one the lookup reports.
pub proof fn lemma_buckets_partition(luminance: int)
    requires
        0 <= luminance <= 255,
    ensures
        in_bucket(luminance, rank_of(luminance)),
        forall|rank: int| in_bucket(luminance, rank) ==> rank == rank_of(luminance),
{
}

/// The ranges tile the byte range: the first starts at 0, the last ends at
/// 255, and each starts one past the end of the one before.
pub proof fn lemma_buckets_contiguous()
    ensures
        lower_bound(0) == 0,
        upper_bound(PALETTE_SIZE - 1) == 255,
        forall|rank: int|
            0 <= rank < PALETTE_SIZE ==> lower_bound(rank) <= #[trigger] upper_bound(rank),
        forall|rank: int|
            0 < rank < PALETTE_SIZE ==> #[trigger] lower_bound(rank) == upper_bound(rank - 1) + 1,
{
}

/// No two ranks share a glyph.
pub proof fn lemma_glyphs_distinct(a: int, b: int)
    requires
        0 <= a < PALETTE_SIZE,
        0 <= b < PALETTE_SIZE,
        a != b,
    ensures
        glyph_at(a) != glyph_at(b),
{
}

/// A brighter luminance never maps to a darker glyph.
pub proof fn lemma_rank_monotone(darker: int, brighter: int)
    requires
        darker <= brighter,
    ensures
        rank_of(darker) <= rank_of(brighter),
{
}

} // verus!
