//! Box-filter reduction of a raster to a grid of cells.
//!
//! With `rx = source_width / target_width` as a real number, cell `x` starts
//! at column `floor(x * rx)` and covers `floor(rx)` columns, at least one;
//! rows alike. The sample of a cell is the truncated mean, channel by
//! channel, of the pixels it covers. Columns and rows beyond the integer
//! part of the ratio are not sampled.

use crate::color::Rgb;
use crate::pixels::{has_integer_samples, image_rows, pixel_at};
use crate::raster::{is_raster, raster_height, raster_width, uniform_raster, Raster};
use image::DynamicImage;
use vstd::arithmetic::div_mod::{
    lemma_div_is_ordered, lemma_div_multiples_vanish, lemma_fundamental_div_mod,
    lemma_multiply_divide_lt,
};
use vstd::arithmetic::mul::{
    lemma_mul_inequality, lemma_mul_is_commutative, lemma_mul_is_distributive_add,
    lemma_mul_strict_inequality,
};
use vstd::prelude::*;

verus! {

/// First source index covered by the cell `index` of `target` cells laid
/// over `source` pixels: `floor(index * source / target)`.
pub open spec fn block_origin(index: int, source: int, target: int) -> int {
    (index * source) / target
}

/// Number of source pixels a cell covers along one axis:
/// `floor(source / target)`, raised to one where the target is finer than
/// the source.
pub open spec fn block_span(source: int, target: int) -> int {
    if source / target < 1 {
        1
    } else {
        source / target
    }
}

/// One channel of a colour: 0 red, 1 green, otherwise blue.
pub open spec fn channel(color: Rgb, which: int) -> int {
    if which == 0 {
        color.r as int
    } else if which == 1 {
        color.g as int
    } else {
        color.b as int
    }
}

/// Sum of one channel over `count` pixels of a row, from column `start`.
pub open spec fn row_total(row: Seq<Rgb>, start: int, count: int, which: int) -> int
    decreases count,
{
    if count <= 0 {
        0
    } else {
        row_total(row, start, count - 1, which) + channel(row[start + count - 1], which)
    }
}

/// Sum of one channel over a block `columns` wide and `lines` high whose
/// top left pixel is `(left, top)`.
pub open spec fn block_total(
    rows: Raster,
    left: int,
    top: int,
    columns: int,
    lines: int,
    which: int,
) -> int
    decreases lines,
{
    if lines <= 0 {
        0
    } else {
        block_total(rows, left, top, columns, lines - 1, which) + row_total(
            rows[top + lines - 1],
            left,
            columns,
            which,
        )
    }
}

/// Truncated mean colour of a block.
pub open spec fn block_mean(rows: Raster, left: int, top: int, columns: int, lines: int) -> Rgb {
    Rgb {
        r: (block_total(rows, left, top, columns, lines, 0) / (columns * lines)) as u8,
        g: (block_total(rows, left, top, columns, lines, 1) / (columns * lines)) as u8,
        b: (block_total(rows, left, top, columns, lines, 2) / (columns * lines)) as u8,
    }
}

/// The sample of cell `(x, y)` when `rows` is reduced to `width` by `height`
/// cells.
pub open spec fn cell_color(rows: Raster, width: int, height: int, x: int, y: int) -> Rgb {
    block_mean(
        rows,
        block_origin(x, raster_width(rows), width),
        block_origin(y, raster_height(rows), height),
        block_span(raster_width(rows), width),
        block_span(raster_height(rows), height),
    )
}

/// First source index of a cell.
pub fn origin_of(index: u32, source: u32, target: u32) -> (origin: u32)
    requires
        index < target,
    ensures
        origin == block_origin(index as int, source as int, target as int),
        source > 0 ==> origin + block_span(source as int, target as int) <= source,
{
    proof {
        if source > 0 {
            lemma_block_fits(index as int, source as int, target as int);
        }
        lemma_mul_inequality(index as int, target as int, source as int);
        lemma_mul_is_commutative(index as int, source as int);
        lemma_mul_is_commutative(target as int, source as int);
        lemma_div_is_ordered(index * source, target * source, target as int);
        lemma_div_multiples_vanish(source as int, target as int);
        assert(index * source <= u32::MAX * u32::MAX) by (nonlinear_arith)
            requires
                index <= u32::MAX,
                source <= u32::MAX,
        ;
    }
    ((index as u64 * source as u64) / (target as u64)) as u32
}

/// Number of source pixels a cell covers along one axis.
pub fn span_of(source: u32, target: u32) -> (span: u32)
    requires
        target > 0,
    ensures
        span == block_span(source as int, target as int),
        span >= 1,
{
    let whole: u32 = source / target;
    if whole < 1 {
        1
    } else {
        whole
    }
}

/// Truncated mean colour of the block `columns` wide and `lines` high whose
/// top left pixel is `(left, top)`.
pub(crate) fn mean_of_block(image: &DynamicImage, left: u32, top: u32, columns: u32, lines: u32) -> (mean:
    Rgb)
    requires
        has_integer_samples(image),
        is_raster(image_rows(image)),
        0 < columns,
        0 < lines,
        left + columns <= raster_width(image_rows(image)),
        top + lines <= raster_height(image_rows(image)),
    ensures
        mean == block_mean(
            image_rows(image),
            left as int,
            top as int,
            columns as int,
            lines as int,
        ),
{
    let ghost rows = image_rows(image);
    let mut red: u128 = 0;
    let mut green: u128 = 0;
    let mut blue: u128 = 0;
    let mut dy: u32 = 0;
    while dy < lines
        invariant
            has_integer_samples(image),
            rows == image_rows(image),
            is_raster(rows),
            left + columns <= raster_width(rows),
            top + lines <= raster_height(rows),
            dy <= lines,
            red == block_total(rows, left as int, top as int, columns as int, dy as int, 0),
            green == block_total(rows, left as int, top as int, columns as int, dy as int, 1),
            blue == block_total(rows, left as int, top as int, columns as int, dy as int, 2),
            red <= 255 * (columns * dy),
            green <= 255 * (columns * dy),
            blue <= 255 * (columns * dy),
        decreases lines - dy,
    {
        let ghost row = rows[top + dy];
        let ghost above_red = red;
        let ghost above_green = green;
        let ghost above_blue = blue;
        let mut dx: u32 = 0;
        while dx < columns
            invariant
                has_integer_samples(image),
                rows == image_rows(image),
                is_raster(rows),
                left + columns <= raster_width(rows),
                top + lines <= raster_height(rows),
                dy < lines,
                dx <= columns,
                row == rows[top + dy],
                red == above_red + row_total(row, left as int, dx as int, 0),
                green == above_green + row_total(row, left as int, dx as int, 1),
                blue == above_blue + row_total(row, left as int, dx as int, 2),
                above_red <= 255 * (columns * dy),
                above_green <= 255 * (columns * dy),
                above_blue <= 255 * (columns * dy),
                red <= 255 * (columns * dy) + 255 * dx,
                green <= 255 * (columns * dy) + 255 * dx,
                blue <= 255 * (columns * dy) + 255 * dx,
            decreases columns - dx,
        {
            proof {
                lemma_total_fits(columns as int, dy as int, dx as int);
            }
            let color = pixel_at(image, left + dx, top + dy);
            red = red + color.r as u128;
            green = green + color.g as u128;
            blue = blue + color.b as u128;
            dx = dx + 1;
        }
        proof {
            assert(columns * (dy + 1) == columns * dy + columns) by (nonlinear_arith);
        }
        dy = dy + 1;
    }
    proof {
        assert(0 < columns * lines <= u32::MAX * u32::MAX) by (nonlinear_arith)
            requires
                0 < columns <= u32::MAX,
                0 < lines <= u32::MAX,
        ;
    }
    let count: u128 = columns as u128 * lines as u128;
    proof {
        lemma_mean_is_byte(red as int, count as int);
        lemma_mean_is_byte(green as int, count as int);
        lemma_mean_is_byte(blue as int, count as int);
    }
    Rgb { r: (red / count) as u8, g: (green / count) as u8, b: (blue / count) as u8 }
}

/// The sample of cell `(x, y)` when the image is reduced to `width` by
/// `height` cells.
pub(crate) fn sample_cell(image: &DynamicImage, width: u32, height: u32, x: u32, y: u32) -> (sample: Rgb)
    requires
        has_integer_samples(image),
        is_raster(image_rows(image)),
        x < width,
        y < height,
    ensures
        sample == cell_color(image_rows(image), width as int, height as int, x as int, y as int),
{
    let source_width = image.width();
    let source_height = image.height();
    proof {
        lemma_block_fits(x as int, source_width as int, width as int);
        lemma_block_fits(y as int, source_height as int, height as int);
    }
    mean_of_block(
        image,
        origin_of(x, source_width, width),
        origin_of(y, source_height, height),
        span_of(source_width, width),
        span_of(source_height, height),
    )
}

/// A running channel total of a block stays far below the 128-bit limit.
proof fn lemma_total_fits(columns: int, dy: int, dx: int)
    requires
        0 <= columns <= u32::MAX,
        0 <= dy <= u32::MAX,
        0 <= dx <= u32::MAX,
    ensures
        255 * (columns * dy) + 255 * dx + 255 <= u128::MAX,
{
    assert(columns * dy <= u32::MAX * u32::MAX) by (nonlinear_arith)
        requires
            0 <= columns <= u32::MAX,
            0 <= dy <= u32::MAX,
    ;
}

/// The mean of `count` bytes is a byte.
proof fn lemma_mean_is_byte(total: int, count: int)
    requires
        0 < count,
        0 <= total <= 255 * count,
    ensures
        0 <= total / count <= 255,
{
    lemma_div_is_ordered(0, total, count);
    lemma_div_is_ordered(total, 255 * count, count);
    lemma_div_multiples_vanish(255, count);
    lemma_mul_is_commutative(255, count);
}

/// Flooring a sum never yields less than the sum of the floors.
proof fn lemma_div_superadditive(a: int, b: int, d: int)
    requires
        0 <= a,
        0 <= b,
        0 < d,
    ensures
        a / d + b / d <= (a + b) / d,
{
    lemma_fundamental_div_mod(a, d);
    lemma_fundamental_div_mod(b, d);
    lemma_mul_is_distributive_add(d, a / d, b / d);
    lemma_div_is_ordered(d * (a / d + b / d), a + b, d);
    lemma_div_multiples_vanish(a / d + b / d, d);
}

/// Every cell's block lies inside the source: the conversion never reads
/// past an edge, also where the target is finer than the source.
pub proof fn lemma_block_fits(index: int, source: int, target: int)
    requires
        0 <= index < target,
        0 < source,
    ensures
        0 <= block_origin(index, source, target),
        1 <= block_span(source, target),
        block_origin(index, source, target) + block_span(source, target) <= source,
{
    lemma_mul_inequality(0, index, source);
    lemma_div_is_ordered(0, index * source, target);
    if source / target < 1 {
        lemma_mul_strict_inequality(index, target, source);
        lemma_mul_is_commutative(target, source);
        lemma_multiply_divide_lt(index * source, target, source);
    } else {
        lemma_step_fits(index, source, target);
        lemma_mul_inequality(index + 1, target, source);
        lemma_mul_is_commutative(target, source);
        lemma_div_is_ordered((index + 1) * source, target * source, target);
        lemma_div_multiples_vanish(source, target);
    }
}

/// A block of unclamped span ends no later than the next block starts.
proof fn lemma_step_fits(index: int, source: int, target: int)
    requires
        0 <= index,
        0 < source,
        0 < target,
    ensures
        block_origin(index, source, target) + source / target <= block_origin(
            index + 1,
            source,
            target,
        ),
{
    lemma_mul_inequality(0, index, source);
    lemma_div_superadditive(index * source, source, target);
    lemma_mul_is_distributive_add(source, index, 1);
    lemma_mul_is_commutative(index, source);
    lemma_mul_is_commutative(index + 1, source);
}

/// Block origins never decrease from one cell to the next.
pub proof fn lemma_origin_monotone(first: int, second: int, source: int, target: int)
    requires
        0 <= first <= second,
        0 <= source,
        0 < target,
    ensures
        block_origin(first, source, target) <= block_origin(second, source, target),
{
    lemma_mul_inequality(first, second, source);
    lemma_div_is_ordered(first * source, second * source, target);
}

/// The filter does not overlap: where the source is at least as fine as the
/// target, the block of a cell ends before the block of any later cell
/// starts.
pub proof fn lemma_blocks_disjoint(first: int, second: int, source: int, target: int)
    requires
        0 <= first < second,
        0 < target <= source,
    ensures
        block_origin(first, source, target) + block_span(source, target) <= block_origin(
            second,
            source,
            target,
        ),
{
    lemma_div_is_ordered(target, source, target);
    lemma_div_multiples_vanish(1, target);
    lemma_step_fits(first, source, target);
    lemma_origin_monotone(first + 1, second, source, target);
}

/// Over pixels of one colour a row total is that colour's channel, once per
/// pixel.
proof fn lemma_row_total_uniform(row: Seq<Rgb>, start: int, count: int, which: int, color: Rgb)
    requires
        0 <= count,
        forall|x: int| start <= x < start + count ==> #[trigger] row[x] == color,
    ensures
        row_total(row, start, count, which) == count * channel(color, which),
    decreases count,
{
    let c = channel(color, which);
    if count > 0 {
        lemma_row_total_uniform(row, start, count - 1, which, color);
        assert(row[start + count - 1] == color);
        assert((count - 1) * c + c == count * c) by (nonlinear_arith);
    } else {
        assert(count * c == 0) by (nonlinear_arith)
            requires
                count == 0,
        ;
    }
}

/// Over pixels of one colour a block total is that colour's channel, once
/// per pixel.
proof fn lemma_block_total_uniform(
    rows: Raster,
    left: int,
    top: int,
    columns: int,
    lines: int,
    which: int,
    color: Rgb,
)
    requires
        0 <= columns,
        0 <= lines,
        forall|x: int, y: int|
            left <= x < left + columns && top <= y < top + lines ==> rows[y][x] == color,
    ensures
        block_total(rows, left, top, columns, lines, which) == (columns * lines) * channel(
            color,
            which,
        ),
    decreases lines,
{
    if lines > 0 {
        lemma_block_total_uniform(rows, left, top, columns, lines - 1, which, color);
        lemma_row_total_uniform(rows[top + lines - 1], left, columns, which, color);
        let c = channel(color, which);
        assert((columns * (lines - 1)) * c + columns * c == (columns * lines) * c)
            by (nonlinear_arith);
    } else {
        assert((columns * lines) * channel(color, which) == 0) by (nonlinear_arith)
            requires
                lines == 0,
        ;
    }
}

/// The mean of a block of one colour is that colour.
pub proof fn lemma_uniform_block(
    rows: Raster,
    left: int,
    top: int,
    columns: int,
    lines: int,
    color: Rgb,
)
    requires
        0 < columns,
        0 < lines,
        forall|x: int, y: int|
            left <= x < left + columns && top <= y < top + lines ==> rows[y][x] == color,
    ensures
        block_mean(rows, left, top, columns, lines) == color,
{
    assert(0 < columns * lines) by (nonlinear_arith)
        requires
            0 < columns,
            0 < lines,
    ;
    lemma_block_total_uniform(rows, left, top, columns, lines, 0, color);
    lemma_block_total_uniform(rows, left, top, columns, lines, 1, color);
    lemma_block_total_uniform(rows, left, top, columns, lines, 2, color);
    lemma_div_multiples_vanish(color.r as int, columns * lines);
    lemma_div_multiples_vanish(color.g as int, columns * lines);
    lemma_div_multiples_vanish(color.b as int, columns * lines);
    lemma_mul_is_commutative(columns * lines, color.r as int);
    lemma_mul_is_commutative(columns * lines, color.g as int);
    lemma_mul_is_commutative(columns * lines, color.b as int);
}

/// Reduced to any grid, a raster of one colour has that colour in every
/// cell.
pub proof fn lemma_uniform_cell(
    source_width: int,
    source_height: int,
    color: Rgb,
    width: int,
    height: int,
    x: int,
    y: int,
)
    requires
        0 < source_width,
        0 < source_height,
        0 <= x < width,
        0 <= y < height,
    ensures
        cell_color(uniform_raster(source_width, source_height, color), width, height, x, y)
            == color,
{
    let rows = uniform_raster(source_width, source_height, color);
    lemma_block_fits(x, source_width, width);
    lemma_block_fits(y, source_height, height);
    lemma_uniform_block(
        rows,
        block_origin(x, source_width, width),
        block_origin(y, source_height, height),
        block_span(source_width, width),
        block_span(source_height, height),
        color,
    );
}

/// Reduced to a grid of its own size, a raster has each pixel in the cell
/// of the same place.
pub proof fn lemma_same_size_cell(rows: Raster, x: int, y: int)
    requires
        is_raster(rows),
        0 <= x < raster_width(rows),
        0 <= y < raster_height(rows),
    ensures
        cell_color(rows, raster_width(rows), raster_height(rows), x, y) == rows[y][x],
{
    let width = raster_width(rows);
    let height = raster_height(rows);
    lemma_div_multiples_vanish(x, width);
    lemma_div_multiples_vanish(y, height);
    lemma_div_multiples_vanish(1, width);
    lemma_div_multiples_vanish(1, height);
    lemma_mul_is_commutative(x, width);
    lemma_mul_is_commutative(y, height);
    assert(block_origin(x, width, width) == x);
    assert(block_origin(y, height, height) == y);
    assert(block_span(width, width) == 1);
    assert(block_span(height, height) == 1);
    assert(rows[y].len() == rows[0].len());
    lemma_uniform_block(rows, x, y, 1, 1, rows[y][x]);
}

} // verus!
