//! Conversion of a decoded image to a text grid.

use crate::color::Rgb;
use crate::downsample::{cell_color, sample_cell};
use crate::gamma::{identity_table, GammaCurve};
use crate::mapper::map_color;
use crate::pixels::{gray_image, has_integer_samples, image_rows, integer_samples, rgb_image};
use crate::raster::{gray_raster, is_raster, raster_height, raster_width, rgb_raster, Raster};
use crate::text_grid::{ascii_art, line_prefix, text_line, text_lines, Settings, LINE_SEPARATOR};
use image::DynamicImage;
use vstd::prelude::*;

verus! {

/// Cells across when no options are given.
pub const DEFAULT_WIDTH: u32 = 160;

/// Cells down when no options are given.
pub const DEFAULT_HEIGHT: u32 = 90;

/// Cells across for the frames of a video.
pub const FRAME_WIDTH: u32 = 800;

/// Cells down for the frames of a video.
pub const FRAME_HEIGHT: u32 = 400;

/// The settings used when no options are given: 160 by 90 cells and no
/// gamma correction.
pub open spec fn default_settings() -> Settings {
    Settings { width: DEFAULT_WIDTH as int, height: DEFAULT_HEIGHT as int, curve: identity_table() }
}

/// The settings a conversion goes by: those given, else the defaults.
pub open spec fn chosen_settings(options: Option<AsciiOptions>) -> Settings {
    match options {
        Some(given) => given@,
        None => default_settings(),
    }
}

/// Options of one conversion: the size of the text grid and the gamma
/// response.
pub struct AsciiOptions {
    width: u32,
    height: u32,
    gamma: GammaCurve,
}

impl View for AsciiOptions {
    type V = Settings;

    closed spec fn view(&self) -> Settings {
        Settings { width: self.width as int, height: self.height as int, curve: self.gamma@ }
    }
}

impl AsciiOptions {
    /// Options for a grid of `width` by `height` cells under the given
    /// response.
    pub fn new(width: u32, height: u32, gamma: GammaCurve) -> (options: AsciiOptions)
        ensures
            options@ == (Settings { width: width as int, height: height as int, curve: gamma@ }),
    {
        AsciiOptions { width, height, gamma }
    }

    /// The options under which the frames of a video are converted: 800
    /// by 400 cells and no gamma correction.
    pub fn for_frames() -> (options: AsciiOptions)
        ensures
            options@ == (Settings {
                width: FRAME_WIDTH as int,
                height: FRAME_HEIGHT as int,
                curve: identity_table(),
            }),
    {
        AsciiOptions::new(FRAME_WIDTH, FRAME_HEIGHT, GammaCurve::identity())
    }

    /// Cells across.
    pub fn width(&self) -> (width: u32)
        ensures
            width == self@.width,
    {
        self.width
    }

    /// Cells down.
    pub fn height(&self) -> (height: u32)
        ensures
            height == self@.height,
    {
        self.height
    }

    /// The gamma response.
    pub fn gamma(&self) -> (gamma: &GammaCurve)
        ensures
            gamma@ == self@.curve,
    {
        &self.gamma
    }
}

impl Default for AsciiOptions {
    fn default() -> (options: AsciiOptions)
        ensures
            options@ == default_settings(),
    {
        AsciiOptions::new(DEFAULT_WIDTH, DEFAULT_HEIGHT, GammaCurve::identity())
    }
}

impl Clone for AsciiOptions {
    fn clone(&self) -> (copy: AsciiOptions)
        ensures
            copy@ == self@,
    {
        AsciiOptions { width: self.width, height: self.height, gamma: self.gamma.clone() }
    }
}

/// Something that can be shown as a text grid.
pub trait ToAsciiArt {
    /// The colours that are shown.
    spec fn raster(&self) -> Raster;

    /// The text grid of `self` under the given options, or under the
    /// defaults where none are given.
    fn to_ascii_art(&self, options: Option<AsciiOptions>) -> (art: String)
        ensures
            art@ == ascii_art(self.raster(), chosen_settings(options)),
    ;
}

/// A decoded image, ready to be converted.
pub struct ImageConverter {
    image: DynamicImage,
}

impl ImageConverter {
    #[verifier::type_invariant]
    spec fn readable(self) -> bool {
        is_raster(image_rows(&self.image)) && has_integer_samples(&self.image)
    }

    /// Takes a decoded image, unless it has no pixels or its samples are
    /// floats: a float sample may be no number, and has no colour then.
    pub fn new(image: DynamicImage) -> (converter: Option<ImageConverter>)
        ensures
            converter is Some <==> (is_raster(image_rows(&image)) && has_integer_samples(&image)),
            converter is Some ==> converter->0.raster() == image_rows(&image),
    {
        let width = image.width();
        let height = image.height();
        if width == 0 || height == 0 || !integer_samples(&image) {
            None
        } else {
            Some(ImageConverter { image })
        }
    }

    /// Takes a buffer of grey levels, one byte per pixel and row after row,
    /// unless it has no pixels or is shorter than `width * height`.
    pub fn from_image_buffer(width: u32, height: u32, levels: Vec<u8>) -> (converter: Option<
        ImageConverter,
    >)
        ensures
            converter is Some <==> 0 < width && 0 < height && width * height <= levels@.len(),
            converter is Some ==> converter->0.raster() == gray_raster(
                width as int,
                height as int,
                levels@,
            ),
    {
        match gray_image(width, height, levels) {
            Some(image) => ImageConverter::new(image),
            None => {
                proof {
                    lemma_empty_fits(width as int, height as int);
                }
                None
            },
        }
    }

    /// Takes a buffer of red, green and blue bytes, three per pixel and row
    /// after row, unless it has no pixels or is shorter than
    /// `3 * width * height`.
    pub fn from_rgb(width: u32, height: u32, bytes: Vec<u8>) -> (converter: Option<ImageConverter>)
        ensures
            converter is Some <==> 0 < width && 0 < height && 3 * width * height <= bytes@.len(),
            converter is Some ==> converter->0.raster() == rgb_raster(
                width as int,
                height as int,
                bytes@,
            ),
    {
        let length = bytes.len();
        proof {
            lemma_row_fits(width as int, height as int, length as int);
        }
        match rgb_image(width, height, bytes) {
            Some(image) => ImageConverter::new(image),
            None => None,
        }
    }

    /// Pixels across.
    pub fn width(&self) -> (width: u32)
        ensures
            width == raster_width(self.raster()),
            width > 0,
    {
        proof {
            use_type_invariant(self);
        }
        self.image.width()
    }

    /// Pixels down.
    pub fn height(&self) -> (height: u32)
        ensures
            height == raster_height(self.raster()),
            height > 0,
    {
        proof {
            use_type_invariant(self);
        }
        self.image.height()
    }

    /// The averaged colour of cell `(x, y)` when the image is reduced to
    /// `width` by `height` cells.
    pub fn sample(&self, width: u32, height: u32, x: u32, y: u32) -> (sample: Rgb)
        requires
            x < width,
            y < height,
        ensures
            sample == cell_color(self.raster(), width as int, height as int, x as int, y as int),
    {
        proof {
            use_type_invariant(self);
        }
        sample_cell(&self.image, width, height, x, y)
    }

    /// The text grid of the image under the given options.
    pub fn convert(&self, options: &AsciiOptions) -> (art: String)
        ensures
            art@ == ascii_art(self.raster(), options@),
    {
        proof {
            use_type_invariant(self);
        }
        let ghost rows = image_rows(&self.image);
        let ghost settings = options@;
        let width = options.width();
        let height = options.height();
        let mut art = String::new();
        let mut y: u32 = 0;
        while y < height
            invariant
                has_integer_samples(&self.image),
                rows == image_rows(&self.image),
                is_raster(rows),
                settings == options@,
                width == settings.width,
                height == settings.height,
                y <= height,
                art@ == text_lines(rows, settings, y as int),
            decreases height - y,
        {
            let mut x: u32 = 0;
            while x < width
                invariant
                    has_integer_samples(&self.image),
                    rows == image_rows(&self.image),
                    is_raster(rows),
                    settings == options@,
                    width == settings.width,
                    height == settings.height,
                    y < height,
                    x <= width,
                    art@ == text_lines(rows, settings, y as int) + line_prefix(
                        rows,
                        settings,
                        y as int,
                        x as int,
                    ),
                decreases width - x,
            {
                let sample = sample_cell(&self.image, width, height, x, y);
                let glyph = map_color(sample, options.gamma());
                art.push(glyph);
                assert(line_prefix(rows, settings, y as int, x as int).push(glyph) =~= line_prefix(
                    rows,
                    settings,
                    y as int,
                    x + 1,
                ));
                assert(art@ =~= text_lines(rows, settings, y as int) + line_prefix(
                    rows,
                    settings,
                    y as int,
                    x + 1,
                ));
                x = x + 1;
            }
            art.push(LINE_SEPARATOR);
            assert(art@ =~= text_lines(rows, settings, y as int) + text_line(
                rows,
                settings,
                y as int,
            ));
            y = y + 1;
        }
        art
    }
}

impl ToAsciiArt for ImageConverter {
    closed spec fn raster(&self) -> Raster {
        image_rows(&self.image)
    }

    fn to_ascii_art(&self, options: Option<AsciiOptions>) -> (art: String) {
        match options {
            Some(given) => self.convert(&given),
            None => self.convert(&AsciiOptions::default()),
        }
    }
}

/// A buffer holds any image without pixels.
proof fn lemma_empty_fits(width: int, height: int)
    requires
        0 <= width,
        0 <= height,
    ensures
        width == 0 || height == 0 ==> width * height == 0,
{
    assert(width == 0 || height == 0 ==> width * height == 0) by (nonlinear_arith);
}

/// A buffer that holds an image with pixels holds one row of it, and its
/// length is a machine word.
proof fn lemma_row_fits(width: int, height: int, length: int)
    requires
        0 <= width,
        0 <= height,
        length <= usize::MAX,
    ensures
        0 < height && 3 * width * height <= length ==> 3 * width <= usize::MAX,
{
    assert(0 < height && 3 * width * height <= length ==> 3 * width <= length) by (nonlinear_arith)
        requires
            0 <= width,
            0 <= height,
    ;
}

} // verus!
