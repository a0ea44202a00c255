use img2yaya::raster::GrayImage;
use img2yaya::sampler::{local_average, sample_grid};

fn image(width: u32, height: u32, pixels: Vec<u8>) -> GrayImage {
    GrayImage::new(width, height, pixels).unwrap()
}

#[test]
fn image_construction_checks_buffer_length() {
    assert!(GrayImage::new(2, 2, vec![0; 4]).is_some());
    assert!(GrayImage::new(2, 2, vec![0; 3]).is_none());
    assert!(GrayImage::new(2, 2, vec![0; 5]).is_none());
    assert!(GrayImage::new(0, 5, vec![]).is_some());
}

#[test]
fn local_average_truncates_the_mean() {
    let img = image(2, 2, vec![10, 20, 30, 40]);
    assert_eq!(local_average(&img, 0, 0, 2, 2), 25);
    // a single column: (10 + 30) / 2
    assert_eq!(local_average(&img, 0, 0, 1, 2), 20);
    // a single row: (30 + 40) / 2
    assert_eq!(local_average(&img, 0, 1, 2, 1), 35);
    // truncation toward zero: (10 + 20 + 30) is not divisible by 3
    let odd = image(3, 1, vec![10, 20, 31]);
    assert_eq!(local_average(&odd, 0, 0, 3, 1), 20);
}

#[test]
fn local_average_of_single_pixel_is_that_pixel() {
    let img = image(2, 2, vec![0, 255, 255, 0]);
    assert_eq!(local_average(&img, 0, 0, 1, 1), 0);
    assert_eq!(local_average(&img, 1, 0, 1, 1), 255);
}

#[test]
fn checkerboard_cells_average_independently() {
    // a 2x2 image sampled at step size 1x1 keeps each pixel's own decision
    let img = image(2, 2, vec![0, 255, 255, 0]);
    let grid = sample_grid(&img, 1, 1, 100, false);
    assert_eq!(grid.x_steps, 2);
    assert_eq!(grid.y_steps, 2);
    assert_eq!(grid.rows, vec![vec![false, true], vec![true, false]]);
}

#[test]
fn threshold_comparison_is_strict() {
    let img = image(1, 1, vec![100]);
    let grid = sample_grid(&img, 1, 1, 100, false);
    assert_eq!(grid.rows, vec![vec![false]]);
    let grid = sample_grid(&img, 1, 1, 99, false);
    assert_eq!(grid.rows, vec![vec![true]]);
}

#[test]
fn invert_flips_every_cell() {
    let img = image(2, 2, vec![0, 255, 255, 0]);
    let plain = sample_grid(&img, 1, 1, 100, false);
    let flipped = sample_grid(&img, 1, 1, 100, true);
    for y in 0..2 {
        for x in 0..2 {
            assert_eq!(plain.rows[y][x], !flipped.rows[y][x]);
        }
    }
}

#[test]
fn trailing_partial_blocks_are_dropped() {
    // 5x3 image with a bright right column and bottom row that fall outside
    // the 2x2-step grid and must not influence it
    let pixels = vec![
        0, 0, 0, 0, 255,
        0, 0, 0, 0, 255,
        255, 255, 255, 255, 255,
    ];
    let img = image(5, 3, pixels);
    let grid = sample_grid(&img, 2, 2, 100, false);
    assert_eq!(grid.x_steps, 2);
    assert_eq!(grid.y_steps, 1);
    assert_eq!(grid.rows, vec![vec![false, false]]);
}
