use img2yaya::board::encode_board;
use img2yaya::raster::GrayImage;
use img2yaya::render_board;
use img2yaya::sampler::sample_grid;

fn image(width: u32, height: u32, pixels: Vec<u8>) -> GrayImage {
    GrayImage::new(width, height, pixels).unwrap()
}

fn board_string(img: &GrayImage, x_step: u32, y_step: u32, threshold: u8, invert: bool) -> String {
    String::from_utf8(render_board(img, x_step, y_step, threshold, invert)).unwrap()
}

fn expected_board(content_rows: &[&str]) -> String {
    let width = content_rows.first().map_or(0, |r| r.len());
    let border = format!("+{}+\n", "-".repeat(width));
    let mut out = border.clone();
    for row in content_rows {
        assert_eq!(row.len(), width);
        out.push_str(&format!("|{}|\n", row));
        out.push_str(&format!("|{}|\n", row));
    }
    out.push_str(&border);
    out.push_str("1: filled\n");
    out.push_str("Automatically generated using img2yaya\n");
    out
}

#[test]
fn uniform_bright_image_fills_every_cell() {
    // a 16x16 image of brightness 200 under the default configuration:
    // step sizes 1x1, threshold 100, no inversion
    let img = image(16, 16, vec![200; 256]);
    let filled_row = "1".repeat(64);
    let rows: Vec<&str> = (0..16).map(|_| filled_row.as_str()).collect();
    assert_eq!(board_string(&img, 1, 1, 100, false), expected_board(&rows));
}

#[test]
fn uniform_bright_image_inverted_empties_every_cell() {
    let img = image(16, 16, vec![200; 256]);
    let empty_row = " ".repeat(64);
    let rows: Vec<&str> = (0..16).map(|_| empty_row.as_str()).collect();
    assert_eq!(board_string(&img, 1, 1, 100, true), expected_board(&rows));
}

#[test]
fn checkerboard_renders_cellwise() {
    let img = image(2, 2, vec![0, 255, 255, 0]);
    assert_eq!(
        board_string(&img, 1, 1, 100, false),
        expected_board(&["    1111", "1111    "])
    );
}

#[test]
fn line_structure_matches_grid_dimensions() {
    // 6x4 image sampled at 2x2 steps: 3 columns, 2 rows of cells
    let img = image(6, 4, vec![255; 24]);
    let text = board_string(&img, 2, 2, 100, false);
    let lines: Vec<&str> = text.split_terminator('\n').collect();
    assert_eq!(lines.len(), 2 + 2 * 2 + 2);
    assert_eq!(lines[0], format!("+{}+", "-".repeat(12)));
    assert_eq!(lines[5], format!("+{}+", "-".repeat(12)));
    for i in 1..5 {
        assert_eq!(lines[i].len(), 3 * 4 + 2);
        assert!(lines[i].starts_with('|') && lines[i].ends_with('|'));
    }
    assert_eq!(lines[6], "1: filled");
    assert_eq!(lines[7], "Automatically generated using img2yaya");
    assert!(text.ends_with('\n'));
}

#[test]
fn each_grid_row_is_rendered_twice() {
    let img = image(2, 2, vec![0, 255, 255, 0]);
    let text = board_string(&img, 1, 1, 100, false);
    let lines: Vec<&str> = text.split_terminator('\n').collect();
    assert_eq!(lines[1], lines[2]);
    assert_eq!(lines[3], lines[4]);
    assert_ne!(lines[1], lines[3]);
}

#[test]
fn encoding_the_same_grid_twice_is_byte_identical() {
    let img = image(3, 3, vec![0, 200, 0, 200, 0, 200, 0, 200, 0]);
    let grid = sample_grid(&img, 1, 1, 100, false);
    let first = encode_board(&grid);
    let second = encode_board(&grid);
    assert_eq!(first, second);
}

#[test]
fn empty_grid_still_has_borders_and_trailer() {
    // 1x1 image sampled at a 2x2 step: zero columns and zero rows of cells
    let img = image(1, 1, vec![0]);
    let grid = sample_grid(&img, 2, 2, 100, false);
    assert_eq!(grid.x_steps, 0);
    assert_eq!(grid.y_steps, 0);
    let text = String::from_utf8(encode_board(&grid)).unwrap();
    assert_eq!(text, "++\n++\n1: filled\nAutomatically generated using img2yaya\n");
}
