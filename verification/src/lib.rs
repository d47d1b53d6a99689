//! A color-science and clustering engine that extracts a small set of
//! representative colors ("swatches") from a raster image and classifies them
//! against named visual profiles (vibrant/muted, light/normal/dark).

pub mod assets;
pub mod canvas;
pub mod color;
pub mod color_cut_quantizer;
pub mod color_utils;
pub mod filter;
pub mod image;
pub mod luminance;
pub mod palette;
pub mod ratio;
pub mod rect;
pub mod sparse_boolean_array;
pub mod swatch;
pub mod target;
pub mod wsum;
