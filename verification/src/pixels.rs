//! What this library takes on trust from the `image` crate and from
//! `String`: the declarations below are believed, not proved.

use crate::color::Rgb;
use crate::raster::{gray_raster, rgb_raster, Raster};
use image::{DynamicImage, GenericImageView, ImageBuffer, Luma};
use vstd::prelude::*;

verus! {

/// `image::DynamicImage`, a decoded image of any of the crate's pixel
/// formats. Opaque here: it is read through the items below.
#[verifier::external_type_specification]
#[verifier::external_body]
pub struct ExDynamicImage(DynamicImage);

/// The colours of a decoded image: entry `[y][x]` is the red, green and blue
/// of what `GenericImageView::get_pixel(x, y)` returns for it, the format's
/// own samples converted to eight bits as that call does.
pub uninterp spec fn image_rows(image: &DynamicImage) -> Raster;

/// Whether a decoded image is of one of the eight formats whose samples are
/// integers, of eight or of sixteen bits, and not of one of the two whose
/// samples are floats.
pub uninterp spec fn has_integer_samples(image: &DynamicImage) -> bool;

/// Tells the variants of `DynamicImage` apart: the eight with integer
/// samples from the two with float samples, and from any that a later
/// version of the crate may add.
#[verifier::external_body]
pub(crate) fn integer_samples(image: &DynamicImage) -> (whole: bool)
    ensures
        whole == has_integer_samples(image),
{
    match image {
        DynamicImage::ImageLuma8(_) => true,
        DynamicImage::ImageLumaA8(_) => true,
        DynamicImage::ImageRgb8(_) => true,
        DynamicImage::ImageRgba8(_) => true,
        DynamicImage::ImageLuma16(_) => true,
        DynamicImage::ImageLumaA16(_) => true,
        DynamicImage::ImageRgb16(_) => true,
        DynamicImage::ImageRgba16(_) => true,
        DynamicImage::ImageRgb32F(_) => false,
        DynamicImage::ImageRgba32F(_) => false,
        _ => false,
    }
}

/// `DynamicImage::width` returns the width of the underlying buffer: every
/// row has that many pixels.
pub assume_specification[ DynamicImage::width ](image: &DynamicImage) -> (width: u32)
    ensures
        forall|y: int|
            0 <= y < image_rows(image).len() ==> (#[trigger] image_rows(image)[y]).len() == width,
;

/// `DynamicImage::height` returns the height of the underlying buffer: the
/// number of rows.
pub assume_specification[ DynamicImage::height ](image: &DynamicImage) -> (height: u32)
    ensures
        image_rows(image).len() == height,
;

/// `GenericImageView::get_pixel` on a `DynamicImage`: the pixel at `(x, y)`
/// as `Rgba<u8>`, of which the first three channels are handed on. The call
/// panics outside the image, so the position must lie inside. On a float
/// format it converts each sample through a checked cast that panics on a
/// sample that is not a number, so the samples must be integers.
#[verifier::external_body]
pub(crate) fn pixel_at(image: &DynamicImage, x: u32, y: u32) -> (color: Rgb)
    requires
        has_integer_samples(image),
        y < image_rows(image).len(),
        x < image_rows(image)[y as int].len(),
    ensures
        color == image_rows(image)[y as int][x as int],
{
    let pixel = image.get_pixel(x, y);
    Rgb { r: pixel.0[0], g: pixel.0[1], b: pixel.0[2] }
}

/// `ImageBuffer::from_raw` for `Luma<u8>`, then `DynamicImage::ImageLuma8`.
/// The buffer is taken exactly when it holds at least `width * height`
/// bytes; pixel `(x, y)` is then byte `y * width + x`, and reading it as a
/// colour repeats that grey level in all three channels. The image is of
/// an integer format.
#[verifier::external_body]
pub(crate) fn gray_image(width: u32, height: u32, levels: Vec<u8>) -> (image: Option<DynamicImage>)
    ensures
        image is Some <==> width * height <= levels@.len(),
        image is Some ==> image_rows(&image->0) == gray_raster(
            width as int,
            height as int,
            levels@,
        ),
        image is Some ==> has_integer_samples(&image->0),
{
    ImageBuffer::<Luma<u8>, Vec<u8>>::from_raw(width, height, levels).map(DynamicImage::ImageLuma8)
}

/// `ImageBuffer::from_raw` for `Rgb<u8>`, then `DynamicImage::ImageRgb8`.
/// The buffer is taken exactly when `3 * width` fits the machine word and
/// the buffer holds at least `3 * width * height` bytes; pixel `(x, y)` is
/// then the three bytes from `3 * (y * width + x)`. The image is of an
/// integer format.
#[verifier::external_body]
pub(crate) fn rgb_image(width: u32, height: u32, bytes: Vec<u8>) -> (image: Option<DynamicImage>)
    ensures
        image is Some <==> (3 * width <= usize::MAX && 3 * width * height <= bytes@.len()),
        image is Some ==> image_rows(&image->0) == rgb_raster(width as int, height as int, bytes@),
        image is Some ==> has_integer_samples(&image->0),
{
    ImageBuffer::<image::Rgb<u8>, Vec<u8>>::from_raw(width, height, bytes).map(
        DynamicImage::ImageRgb8,
    )
}

/// `String::push` appends the given character to the end of the string.
pub assume_specification[ String::push ](text: &mut String, glyph: char)
    ensures
        final(text)@ == old(text)@.push(glyph),
;

} // verus!
