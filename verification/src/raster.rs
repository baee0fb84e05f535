//! The mathematical model of a source bitmap: its colours, row by row from
//! the top, each row from the left.

use crate::color::Rgb;
use vstd::prelude::*;

verus! {

/// The colours of a bitmap as a sequence of rows.
pub type Raster = Seq<Seq<Rgb>>;

/// A raster that a conversion can read: at least one pixel, all rows of one
/// length, both extents within 32 bits.
pub open spec fn is_raster(rows: Raster) -> bool {
    &&& 0 < rows.len() <= u32::MAX
    &&& 0 < rows[0].len() <= u32::MAX
    &&& forall|y: int| 0 <= y < rows.len() ==> (#[trigger] rows[y]).len() == rows[0].len()
}

/// Number of columns.
pub open spec fn raster_width(rows: Raster) -> int {
    if rows.len() == 0 {
        0
    } else {
        rows[0].len() as int
    }
}

/// Number of rows.
pub open spec fn raster_height(rows: Raster) -> int {
    rows.len() as int
}

/// The raster of one colour throughout.
pub open spec fn uniform_raster(width: int, height: int, color: Rgb) -> Raster {
    Seq::new(height as nat, |y: int| Seq::new(width as nat, |x: int| color))
}

/// The raster held by a buffer of grey levels, one byte per pixel, rows
/// following one another without padding.
pub open spec fn gray_raster(width: int, height: int, levels: Seq<u8>) -> Raster {
    Seq::new(
        height as nat,
        |y: int|
            Seq::new(
                width as nat,
                |x: int|
                    Rgb {
                        r: levels[y * width + x],
                        g: levels[y * width + x],
                        b: levels[y * width + x],
                    },
            ),
    )
}

/// The raster held by a buffer of red, green and blue bytes, three per
/// pixel, rows following one another without padding.
pub open spec fn rgb_raster(width: int, height: int, bytes: Seq<u8>) -> Raster {
    Seq::new(
        height as nat,
        |y: int|
            Seq::new(
                width as nat,
                |x: int|
                    Rgb {
                        r: bytes[3 * (y * width + x)],
                        g: bytes[3 * (y * width + x) + 1],
                        b: bytes[3 * (y * width + x) + 2],
                    },
            ),
    )
}

/// A non-empty uniform raster can be read by a conversion.
pub proof fn lemma_uniform_is_raster(width: int, height: int, color: Rgb)
    requires
        0 < width <= u32::MAX,
        0 < height <= u32::MAX,
    ensures
        is_raster(uniform_raster(width, height, color)),
        raster_width(uniform_raster(width, height, color)) == width,
        raster_height(uniform_raster(width, height, color)) == height,
{
}

} // verus!
