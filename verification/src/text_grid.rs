//! The text a conversion produces: one line per row of cells, each line one
//! glyph per cell followed by a line separator.

use crate::color::Rgb;
use crate::downsample::{cell_color, lemma_uniform_cell};
use crate::mapper::{glyph_of_color, lemma_glyph_is_not_separator, corrected_luminance};
use crate::raster::{uniform_raster, Raster};
use vstd::prelude::*;

verus! {

/// The character that ends every line.
pub const LINE_SEPARATOR: char = '\n';

/// What a conversion is asked for: the number of cells across and down, and
/// the gamma response.
pub struct Settings {
    pub width: int,
    pub height: int,
    pub curve: Seq<u8>,
}

/// The glyph of cell `(x, y)`.
pub open spec fn cell_glyph(rows: Raster, settings: Settings, x: int, y: int) -> char {
    glyph_of_color(cell_color(rows, settings.width, settings.height, x, y), settings.curve)
}

/// The glyphs of the first `count` cells of line `y`.
pub open spec fn line_prefix(rows: Raster, settings: Settings, y: int, count: int) -> Seq<char> {
    Seq::new(count as nat, |x: int| cell_glyph(rows, settings, x, y))
}

/// Line `y`: its glyphs from the left, then the separator.
pub open spec fn text_line(rows: Raster, settings: Settings, y: int) -> Seq<char> {
    line_prefix(rows, settings, y, settings.width).push(LINE_SEPARATOR)
}

/// The first `count` lines, one after another from the top.
pub open spec fn text_lines(rows: Raster, settings: Settings, count: int) -> Seq<char>
    decreases count,
{
    if count <= 0 {
        Seq::empty()
    } else {
        text_lines(rows, settings, count - 1) + text_line(rows, settings, count - 1)
    }
}

/// The text grid of a raster.
pub open spec fn ascii_art(rows: Raster, settings: Settings) -> Seq<char> {
    text_lines(rows, settings, settings.height)
}

/// A line has one character per cell and the separator, which is its only
/// separator.
pub proof fn lemma_line_shape(rows: Raster, settings: Settings, y: int)
    requires
        0 <= settings.width,
    ensures
        text_line(rows, settings, y).len() == settings.width + 1,
        text_line(rows, settings, y)[settings.width] == LINE_SEPARATOR,
        forall|x: int|
            0 <= x < settings.width ==> #[trigger] text_line(rows, settings, y)[x] == cell_glyph(
                rows,
                settings,
                x,
                y,
            ) && text_line(rows, settings, y)[x] != LINE_SEPARATOR,
{
    assert forall|x: int| 0 <= x < settings.width implies #[trigger] text_line(
        rows,
        settings,
        y,
    )[x] == cell_glyph(rows, settings, x, y) && text_line(rows, settings, y)[x]
        != LINE_SEPARATOR by {
        lemma_glyph_is_not_separator(
            corrected_luminance(
                cell_color(rows, settings.width, settings.height, x, y),
                settings.curve,
            ),
        );
    }
}

/// The first `count` lines take `count * (width + 1)` characters, and line
/// `y` among them is the stretch that starts at `y * (width + 1)`.
pub proof fn lemma_lines_shape(rows: Raster, settings: Settings, count: int)
    requires
        0 <= settings.width,
        0 <= count,
    ensures
        text_lines(rows, settings, count).len() == count * (settings.width + 1),
        forall|y: int|
            0 <= y < count ==> #[trigger] text_lines(rows, settings, count).subrange(
                y * (settings.width + 1),
                (y + 1) * (settings.width + 1),
            ) == text_line(rows, settings, y),
    decreases count,
{
    let stride = settings.width + 1;
    if count > 0 {
        lemma_lines_shape(rows, settings, count - 1);
        lemma_line_shape(rows, settings, count - 1);
        let above = text_lines(rows, settings, count - 1);
        let last = text_line(rows, settings, count - 1);
        let all = text_lines(rows, settings, count);
        assert(count * stride == (count - 1) * stride + stride) by (nonlinear_arith);
        assert forall|y: int| 0 <= y < count implies #[trigger] all.subrange(
            y * stride,
            (y + 1) * stride,
        ) == text_line(rows, settings, y) by {
            assert((y + 1) * stride == y * stride + stride) by (nonlinear_arith);
            assert(0 <= y * stride) by (nonlinear_arith)
                requires
                    0 <= y,
                    0 <= stride,
            ;
            if y < count - 1 {
                assert((y + 1) * stride <= (count - 1) * stride) by (nonlinear_arith)
                    requires
                        y + 1 <= count - 1,
                        0 <= stride,
                ;
                assert(all.subrange(y * stride, (y + 1) * stride) =~= above.subrange(
                    y * stride,
                    (y + 1) * stride,
                ));
            } else {
                assert(all.subrange(y * stride, (y + 1) * stride) =~= last);
            }
        }
    } else {
        assert(count * stride == 0) by (nonlinear_arith)
            requires
                count == 0,
        ;
    }
}

/// A conversion to `width` by `height` cells yields exactly `height` lines
/// of exactly `width` glyphs each: the text is `height` stretches of
/// `width + 1` characters, and each stretch is the glyphs of its row of
/// cells followed by the one separator in it.
pub proof fn lemma_art_shape(rows: Raster, settings: Settings)
    requires
        0 <= settings.width,
        0 <= settings.height,
    ensures
        ascii_art(rows, settings).len() == settings.height * (settings.width + 1),
        forall|y: int|
            0 <= y < settings.height ==> #[trigger] ascii_art(rows, settings).subrange(
                y * (settings.width + 1),
                (y + 1) * (settings.width + 1),
            ) == text_line(rows, settings, y),
        forall|x: int, y: int|
            0 <= x < settings.width ==> #[trigger] text_line(rows, settings, y)[x] == cell_glyph(
                rows,
                settings,
                x,
                y,
            ) && text_line(rows, settings, y)[x] != LINE_SEPARATOR,
        forall|y: int|
            (#[trigger] text_line(rows, settings, y)).len() == settings.width + 1 && text_line(
                rows,
                settings,
                y,
            )[settings.width] == LINE_SEPARATOR,
{
    lemma_lines_shape(rows, settings, settings.height);
    assert forall|x: int, y: int| 0 <= x < settings.width implies #[trigger] text_line(
        rows,
        settings,
        y,
    )[x] == cell_glyph(rows, settings, x, y) && text_line(rows, settings, y)[x]
        != LINE_SEPARATOR by {
        lemma_line_shape(rows, settings, y);
    }
    assert forall|y: int|
        (#[trigger] text_line(rows, settings, y)).len() == settings.width + 1 && text_line(
            rows,
            settings,
            y,
        )[settings.width] == LINE_SEPARATOR by {
        lemma_line_shape(rows, settings, y);
    }
}

/// The character at column `x` of line `y` of a text grid: the glyph of the
/// cell there, or the separator just past the last cell.
pub proof fn lemma_art_at(rows: Raster, settings: Settings, x: int, y: int)
    requires
        0 <= x <= settings.width,
        0 <= y < settings.height,
    ensures
        0 <= y * (settings.width + 1) + x < ascii_art(rows, settings).len(),
        x < settings.width ==> ascii_art(rows, settings)[y * (settings.width + 1) + x]
            == cell_glyph(rows, settings, x, y),
        x == settings.width ==> ascii_art(rows, settings)[y * (settings.width + 1) + x]
            == LINE_SEPARATOR,
{
    let stride = settings.width + 1;
    let art = ascii_art(rows, settings);
    lemma_lines_shape(rows, settings, settings.height);
    lemma_line_shape(rows, settings, y);
    assert((y + 1) * stride == y * stride + stride) by (nonlinear_arith);
    assert(0 <= y * stride) by (nonlinear_arith)
        requires
            0 <= y,
            0 <= stride,
    ;
    assert((y + 1) * stride <= settings.height * stride) by (nonlinear_arith)
        requires
            y + 1 <= settings.height,
            0 <= stride,
    ;
    assert(art.subrange(y * stride, (y + 1) * stride)[x] == art[y * stride + x]);
}

/// Converting twice what is pixel for pixel and entry for entry the same
/// yields the same text: the text grid is a function of the raster and the
/// settings, and of nothing else.
pub proof fn lemma_same_input_same_art(
    rows: Raster,
    settings: Settings,
    again_rows: Raster,
    again_settings: Settings,
)
    requires
        rows.len() == again_rows.len(),
        forall|y: int| 0 <= y < rows.len() ==> rows[y].len() == again_rows[y].len(),
        forall|x: int, y: int|
            0 <= y < rows.len() && 0 <= x < rows[y].len() ==> rows[y][x] == again_rows[y][x],
        settings.width == again_settings.width,
        settings.height == again_settings.height,
        settings.curve.len() == again_settings.curve.len(),
        forall|level: int|
            0 <= level < settings.curve.len() ==> settings.curve[level]
                == again_settings.curve[level],
    ensures
        ascii_art(rows, settings) == ascii_art(again_rows, again_settings),
{
    assert forall|y: int| 0 <= y < rows.len() implies rows[y] == again_rows[y] by {
        assert(rows[y] =~= again_rows[y]);
    }
    assert(rows =~= again_rows);
    assert(settings.curve =~= again_settings.curve);
}

/// A bitmap of one colour converts to a grid of one glyph, the one that
/// shows that colour, whatever the two sizes.
pub proof fn lemma_uniform_art(
    source_width: int,
    source_height: int,
    color: Rgb,
    settings: Settings,
    x: int,
    y: int,
)
    requires
        0 < source_width,
        0 < source_height,
        0 <= x < settings.width,
        0 <= y < settings.height,
    ensures
        ascii_art(
            uniform_raster(source_width, source_height, color),
            settings,
        )[y * (settings.width + 1) + x] == glyph_of_color(color, settings.curve),
{
    lemma_art_at(uniform_raster(source_width, source_height, color), settings, x, y);
    lemma_uniform_cell(source_width, source_height, color, settings.width, settings.height, x, y);
}

/// A bitmap of one pixel converted to one cell is the glyph that shows the
/// pixel, and the separator.
pub proof fn lemma_single_pixel(color: Rgb, curve: Seq<u8>)
    ensures
        ascii_art(uniform_raster(1, 1, color), Settings { width: 1, height: 1, curve })
            == seq![glyph_of_color(color, curve), LINE_SEPARATOR],
{
    let rows = uniform_raster(1, 1, color);
    let settings = Settings { width: 1, height: 1, curve };
    lemma_art_shape(rows, settings);
    lemma_art_at(rows, settings, 0, 0);
    lemma_art_at(rows, settings, 1, 0);
    lemma_uniform_cell(1, 1, color, 1, 1, 0, 0);
    let art = ascii_art(rows, settings);
    assert(settings.height * (settings.width + 1) == 2) by (nonlinear_arith)
        requires
            settings.height == 1,
            settings.width == 1,
    ;
    assert(0 * (settings.width + 1) == 0) by (nonlinear_arith);
    assert(art.len() == 2);
    assert(art[0] == glyph_of_color(color, curve));
    assert(art[1] == LINE_SEPARATOR);
    assert(art =~= seq![glyph_of_color(color, curve), LINE_SEPARATOR]);
}

} // verus!
