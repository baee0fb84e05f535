//! Text-character rendering of bitmaps, with the pacing rules for playing
//! rendered video frames beside an audio track.

pub mod color;
pub mod converter;
pub mod downsample;
pub mod gamma;
pub mod mapper;
pub mod mode;
mod natural;
pub mod pacing;
pub mod palette;
pub mod pixels;
pub mod playback;
pub mod power_law;
pub mod raster;
pub mod session;
pub mod text_grid;
