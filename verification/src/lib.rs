//! Convert a grayscale raster image into a text puzzle board: the image is
//! downsampled into a grid of rectangular blocks, each block is reduced to a
//! filled/empty cell by thresholding its average brightness, and the cell grid
//! is serialized in a fixed ASCII board format.

pub mod board;
pub mod config;
pub mod raster;
pub mod sampler;

use vstd::prelude::*;

use crate::board::board_bytes;
use crate::board::encode_board;
use crate::raster::GrayImage;
use crate::sampler::sample_grid;
use crate::sampler::spec_grid;

verus! {

/// Renders the complete board for one image: samples the image into a grid
/// of `width / x_step` by `height / y_step` cells, thresholding each block's
/// average brightness, and serializes the grid in the fixed ASCII board
/// format.
pub fn render_board(
    img: &GrayImage,
    x_step: u32,
    y_step: u32,
    threshold: u8,
    invert: bool,
) -> (out: Vec<u8>)
    requires
        img.wf(),
        x_step >= 1,
        y_step >= 1,
        4 * ((img.width as int) / (x_step as int)) + 2 <= usize::MAX,
    ensures
        out@ == board_bytes(
            spec_grid(*img, x_step as int, y_step as int, threshold, invert),
            (img.width as int) / (x_step as int),
        ),
{
    let grid = sample_grid(img, x_step, y_step, threshold, invert);
    encode_board(&grid)
}

} // verus!
