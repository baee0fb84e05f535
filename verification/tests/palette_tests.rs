use ascii_art::color::Rgb;
use ascii_art::gamma::{CurveError, GammaCurve};
use ascii_art::mapper::map_color;
use ascii_art::palette::{bound_of, glyph_at_rank, glyph_for, rank_for, PALETTE_SIZE};

#[test]
fn bucket_boundaries_are_closed_as_tabled() {
    let table: [(u8, u8, char); 9] = [
        (0, 25, '#'),
        (26, 51, '@'),
        (52, 76, '8'),
        (77, 102, '&'),
        (103, 127, 'o'),
        (128, 153, '*'),
        (154, 178, ':'),
        (179, 204, ','),
        (205, 255, '.'),
    ];
    for (low, high, glyph) in table {
        assert_eq!(glyph_for(low), glyph);
        assert_eq!(glyph_for(high), glyph);
    }
    assert_eq!(glyph_for(25), '#');
    assert_eq!(glyph_for(26), '@');
}

#[test]
fn every_byte_falls_in_exactly_one_bucket() {
    for level in 0..=255u8 {
        let mut owners = 0;
        for rank in 0..PALETTE_SIZE {
            let low = if rank == 0 { 0 } else { bound_of(rank - 1) as u32 + 1 };
            let high = bound_of(rank) as u32;
            if low <= level as u32 && level as u32 <= high {
                owners += 1;
                assert_eq!(rank_for(level), rank);
                assert_eq!(glyph_for(level), glyph_at_rank(rank));
            }
        }
        assert_eq!(owners, 1);
    }
}

#[test]
fn buckets_hold_twenty_five_or_twenty_six_levels_but_the_last() {
    let mut counts = [0u32; 9];
    for level in 0..=255u8 {
        counts[rank_for(level)] += 1;
    }
    assert_eq!(counts, [26, 26, 25, 26, 25, 26, 25, 26, 51]);
}

#[test]
fn glyphs_are_ordered_dark_to_light_and_distinct() {
    let glyphs: Vec<char> = (0..PALETTE_SIZE).map(glyph_at_rank).collect();
    assert_eq!(glyphs, vec!['#', '@', '8', '&', 'o', '*', ':', ',', '.']);
    for a in 0..PALETTE_SIZE {
        for b in 0..PALETTE_SIZE {
            if a != b {
                assert_ne!(glyphs[a], glyphs[b]);
            }
        }
    }
}

#[test]
fn rank_never_falls_as_luminance_rises() {
    for level in 0..255u8 {
        assert!(rank_for(level) <= rank_for(level + 1));
    }
}

#[test]
fn luminance_weighs_the_channels() {
    assert_eq!(Rgb::new(255, 255, 255).luminance(), 255);
    assert_eq!(Rgb::new(0, 0, 0).luminance(), 0);
    assert_eq!(Rgb::new(255, 0, 0).luminance(), 54);
    assert_eq!(Rgb::new(0, 255, 0).luminance(), 182);
    assert_eq!(Rgb::new(0, 0, 255).luminance(), 18);
    assert_eq!(Rgb::new(10, 200, 30).luminance(), 147);
}

#[test]
fn gray_has_its_level_as_luminance() {
    for level in 0..=255u8 {
        assert_eq!(Rgb::gray(level).luminance(), level);
    }
}

#[test]
fn identity_curve_keeps_every_level() {
    let curve = GammaCurve::identity();
    assert_eq!(curve.table().len(), 256);
    for level in 0..=255u8 {
        assert_eq!(curve.apply(level), level);
    }
}

#[test]
fn curve_from_table_applies_the_table() {
    let table: Vec<u8> = (0..=255u32).map(|v| (v * v / 255) as u8).collect();
    let curve = GammaCurve::from_table(table.clone()).unwrap();
    for level in 0..=255u8 {
        assert_eq!(curve.apply(level), table[level as usize]);
    }
    assert_eq!(curve.apply(128), 64);
    let copy = curve.clone();
    assert_eq!(copy.table(), curve.table());
}

#[test]
fn curve_of_wrong_length_is_refused() {
    assert_eq!(GammaCurve::from_table(vec![]).err(), Some(CurveError::Length));
    assert_eq!(GammaCurve::from_table(vec![0; 255]).err(), Some(CurveError::Length));
    assert_eq!(GammaCurve::from_table(vec![0; 257]).err(), Some(CurveError::Length));
}

#[test]
fn curve_of_a_non_positive_exponent_is_refused() {
    let flat: Vec<u8> = vec![255; 256];
    assert_eq!(GammaCurve::from_table(flat).err(), Some(CurveError::BlackPoint));
    let exponent_zero: Vec<u8> =
        (0..=255u32).map(|v| ((v as f32 / 255.0).powf(0.0) * 255.0) as u8).collect();
    assert_eq!(GammaCurve::from_table(exponent_zero).err(), Some(CurveError::BlackPoint));
    let exponent_negative: Vec<u8> =
        (0..=255u32).map(|v| ((v as f32 / 255.0).powf(-1.5) * 255.0) as u8).collect();
    assert_eq!(GammaCurve::from_table(exponent_negative).err(), Some(CurveError::BlackPoint));
}

#[test]
fn curve_that_moves_white_is_refused() {
    let mut table: Vec<u8> = (0..=255u8).collect();
    table[255] = 254;
    assert_eq!(GammaCurve::from_table(table).err(), Some(CurveError::WhitePoint));
}

#[test]
fn curves_of_positive_exponents_are_taken() {
    for gamma in [0.1f32, 0.5, 0.8, 1.0, 1.7, 2.2, 40.0] {
        let table: Vec<u8> =
            (0..=255u32).map(|v| ((v as f32 / 255.0).powf(gamma) * 255.0) as u8).collect();
        assert!(GammaCurve::from_table(table).is_ok());
    }
}

#[test]
fn curve_errors_have_messages() {
    assert_eq!(CurveError::Length.message(), "gamma table must have 256 entries");
    assert_eq!(
        CurveError::BlackPoint.message(),
        "gamma table must map 0 to 0: the exponent must be positive"
    );
    assert_eq!(CurveError::WhitePoint.message(), "gamma table must map 255 to 255");
}

#[test]
fn colour_maps_through_luminance_and_curve() {
    let identity = GammaCurve::identity();
    assert_eq!(map_color(Rgb::new(255, 255, 255), &identity), '.');
    assert_eq!(map_color(Rgb::new(0, 0, 0), &identity), '#');
    assert_eq!(map_color(Rgb::new(255, 0, 0), &identity), '8');
    assert_eq!(map_color(Rgb::new(0, 255, 0), &identity), ',');
    assert_eq!(map_color(Rgb::new(0, 0, 255), &identity), '#');
    let squared: Vec<u8> = (0..=255u32).map(|v| (v * v / 255) as u8).collect();
    let squared = GammaCurve::from_table(squared).unwrap();
    assert_eq!(map_color(Rgb::gray(128), &identity), '*');
    assert_eq!(map_color(Rgb::gray(128), &squared), '8');
}

#[test]
fn higher_gamma_never_maps_to_a_lighter_glyph() {
    let curve_of = |gamma: f64| -> GammaCurve {
        let table: Vec<u8> =
            (0..=255u32).map(|v| ((v as f64 / 255.0).powf(gamma) * 255.0) as u8).collect();
        GammaCurve::from_table(table).unwrap()
    };
    let rank = |glyph: char| (0..PALETTE_SIZE).find(|&r| glyph_at_rank(r) == glyph).unwrap();
    let low = curve_of(0.5);
    let unit = GammaCurve::identity();
    let high = curve_of(2.0);
    for level in 1..255u8 {
        let color = Rgb::gray(level);
        let below = rank(map_color(color, &low));
        let at = rank(map_color(color, &unit));
        let above = rank(map_color(color, &high));
        assert!(above <= at);
        assert!(at <= below);
    }
    assert_eq!(map_color(Rgb::gray(100), &low), ':');
    assert_eq!(map_color(Rgb::gray(100), &unit), '&');
    assert_eq!(map_color(Rgb::gray(100), &high), '@');
}
