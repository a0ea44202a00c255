//! The grid sampler: partitions a grayscale image into a regular grid of
//! rectangular blocks and reduces each block to a single filled/empty cell by
//! thresholding the block's average brightness.

use vstd::prelude::*;

use crate::raster::GrayImage;

verus! {

/// Sum of the `n` pixel brightness values of row `y` starting at column
/// `x_start`.
pub open spec fn row_sum(img: GrayImage, y: int, x_start: int, n: int) -> int
    decreases n,
{
    if n <= 0 {
        0
    } else {
        row_sum(img, y, x_start, n - 1) + img.pixel(x_start + n - 1, y)
    }
}

/// Sum of the pixel brightness values of the `width`-wide, `n`-tall block of
/// pixels anchored at `(x_start, y_start)`.
pub open spec fn block_sum(img: GrayImage, x_start: int, y_start: int, width: int, n: int) -> int
    decreases n,
{
    if n <= 0 {
        0
    } else {
        block_sum(img, x_start, y_start, width, n - 1) + row_sum(img, y_start + n - 1, x_start, width)
    }
}

/// Arithmetic mean, truncating toward zero, of the brightness values in the
/// block anchored at `(x_start, y_start)` with the given dimensions.
pub open spec fn block_average(img: GrayImage, x_start: int, y_start: int, width: int, height: int) -> int {
    block_sum(img, x_start, y_start, width, height) / (width * height)
}

proof fn lemma_row_sum_bounds(img: GrayImage, y: int, x_start: int, n: int)
    requires
        n >= 0,
    ensures
        0 <= row_sum(img, y, x_start, n) <= 255 * n,
    decreases n,
{
    if n > 0 {
        lemma_row_sum_bounds(img, y, x_start, n - 1);
    }
}

proof fn lemma_block_sum_bounds(img: GrayImage, x_start: int, y_start: int, width: int, n: int)
    requires
        n >= 0,
        width >= 0,
    ensures
        0 <= block_sum(img, x_start, y_start, width, n) <= 255 * (width * n),
    decreases n,
{
    if n > 0 {
        lemma_block_sum_bounds(img, x_start, y_start, width, n - 1);
        lemma_row_sum_bounds(img, y_start + n - 1, x_start, width);
        assert(255 * (width * (n - 1)) + 255 * width == 255 * (width * n)) by (nonlinear_arith);
    }
}

/// Average brightness of the block of pixels anchored at `(x_start, y_start)`
/// with the given dimensions: the integer sum of its pixels divided by its
/// area, truncating toward zero.
pub fn local_average(img: &GrayImage, x_start: u32, y_start: u32, width: u32, height: u32) -> (avg: u8)
    requires
        img.wf(),
        width >= 1,
        height >= 1,
        x_start + width <= img.width,
        y_start + height <= img.height,
    ensures
        avg == block_average(*img, x_start as int, y_start as int, width as int, height as int),
{
    let n: usize = img.pixels.len();
    proof {
        assert((width as int) * (height as int) <= (img.width as int) * (img.height as int))
            by (nonlinear_arith)
            requires
                0 <= width <= img.width,
                0 <= height <= img.height,
        ;
    }
    let area: u64 = (width as u64) * (height as u64);
    let mut sum: u128 = 0;
    let mut y: u32 = 0;
    while y < height
        invariant
            img.wf(),
            width >= 1,
            height >= 1,
            x_start + width <= img.width,
            y_start + height <= img.height,
            0 <= y <= height,
            area == (width as int) * (height as int),
            area <= (img.width as int) * (img.height as int),
            sum == block_sum(*img, x_start as int, y_start as int, width as int, y as int),
        decreases height - y,
    {
        let mut x: u32 = 0;
        while x < width
            invariant
                img.wf(),
                width >= 1,
                height >= 1,
                x_start + width <= img.width,
                y_start + height <= img.height,
                0 <= y < height,
                0 <= x <= width,
                area == (width as int) * (height as int),
                area <= (img.width as int) * (img.height as int),
                sum == block_sum(*img, x_start as int, y_start as int, width as int, y as int)
                    + row_sum(*img, y_start + y, x_start as int, x as int),
            decreases width - x,
        {
            proof {
                lemma_block_sum_bounds(*img, x_start as int, y_start as int, width as int, y as int);
                lemma_row_sum_bounds(*img, y_start + y, x_start as int, x as int);
                assert(255 * ((width as int) * (y as int)) + 255 * (x as int)
                    <= 255 * ((width as int) * (height as int))) by (nonlinear_arith)
                    requires
                        0 <= x <= width,
                        0 <= y < height,
                ;
            }
            let p = img.get_pixel(x_start + x, y_start + y);
            sum = sum + p as u128;
            x = x + 1;
        }
        y = y + 1;
    }
    proof {
        lemma_block_sum_bounds(*img, x_start as int, y_start as int, width as int, height as int);
        assert(area >= 1) by (nonlinear_arith)
            requires
                width >= 1,
                height >= 1,
                area == (width as int) * (height as int),
        ;
        assert(sum / (area as u128) <= 255) by (nonlinear_arith)
            requires
                area >= 1,
                0 <= sum <= 255 * (area as int),
        ;
    }
    let avg: u128 = sum / (area as u128);
    avg as u8
}

/// The fill decision for the cell at grid position `(x, y)`: the block of
/// `x_step` by `y_step` pixels anchored at `(x * x_step, y * y_step)` fills
/// its cell exactly when its average brightness strictly exceeds the
/// threshold, with the polarity flipped when `invert` is set.
pub open spec fn cell_filled(
    img: GrayImage,
    x_step: int,
    y_step: int,
    threshold: u8,
    invert: bool,
    x: int,
    y: int,
) -> bool {
    (block_average(img, x * x_step, y * y_step, x_step, y_step) > threshold) != invert
}

/// The whole sample grid as a mathematical value: `height / y_step` rows of
/// `width / x_step` fill decisions.
pub open spec fn spec_grid(
    img: GrayImage,
    x_step: int,
    y_step: int,
    threshold: u8,
    invert: bool,
) -> Seq<Seq<bool>> {
    Seq::new(
        ((img.height as int) / y_step) as nat,
        |y: int| Seq::new(
            ((img.width as int) / x_step) as nat,
            |x: int| cell_filled(img, x_step, y_step, threshold, invert, x, y),
        ),
    )
}

/// The sample grid derived from one image: a rectangular array of
/// filled/empty cells, one per block.
pub struct SampleGrid {
    /// Number of cell columns.
    pub x_steps: u32,
    /// Number of cell rows.
    pub y_steps: u32,
    /// Fill decisions, one inner vector per row.
    pub rows: Vec<Vec<bool>>,
}

impl View for SampleGrid {
    type V = Seq<Seq<bool>>;

    open spec fn view(&self) -> Seq<Seq<bool>> {
        Seq::new(self.rows@.len(), |y: int| self.rows@[y]@)
    }
}

impl SampleGrid {
    /// The rows match the stated dimensions.
    pub open spec fn wf(self) -> bool {
        &&& self.rows@.len() == self.y_steps
        &&& forall|y: int| 0 <= y < self.rows@.len() ==> (#[trigger] self.rows@[y])@.len() == self.x_steps
    }
}

proof fn lemma_step_mul_bounds(steps: int, step: int, x: int, bound: int)
    by (nonlinear_arith)
    requires
        step >= 1,
        bound >= 0,
        steps == bound / step,
        0 <= x < steps,
    ensures
        (x + 1) * step <= steps * step <= bound,
        x * step + step == (x + 1) * step,
        x * step >= 0,
{
}

/// Samples the image into a grid of `width / x_step` by `height / y_step`
/// cells; the cell at `(x, y)` records the thresholded average brightness of
/// the pixel block anchored at `(x * x_step, y * y_step)`.
pub fn sample_grid(img: &GrayImage, x_step: u32, y_step: u32, threshold: u8, invert: bool) -> (grid: SampleGrid)
    requires
        img.wf(),
        x_step >= 1,
        y_step >= 1,
    ensures
        grid.wf(),
        grid.x_steps == (img.width as int) / (x_step as int),
        grid.y_steps == (img.height as int) / (y_step as int),
        grid@ == spec_grid(*img, x_step as int, y_step as int, threshold, invert),
{
    let x_steps: u32 = img.width / x_step;
    let y_steps: u32 = img.height / y_step;
    let mut rows: Vec<Vec<bool>> = Vec::new();
    let mut y: u32 = 0;
    while y < y_steps
        invariant
            img.wf(),
            x_step >= 1,
            y_step >= 1,
            x_steps == (img.width as int) / (x_step as int),
            y_steps == (img.height as int) / (y_step as int),
            0 <= y <= y_steps,
            rows@.len() == y,
            forall|yy: int| 0 <= yy < y ==> (#[trigger] rows@[yy])@
                == spec_grid(*img, x_step as int, y_step as int, threshold, invert)[yy],
        decreases y_steps - y,
    {
        let mut row: Vec<bool> = Vec::new();
        let mut x: u32 = 0;
        while x < x_steps
            invariant
                img.wf(),
                x_step >= 1,
                y_step >= 1,
                x_steps == (img.width as int) / (x_step as int),
                y_steps == (img.height as int) / (y_step as int),
                0 <= y < y_steps,
                0 <= x <= x_steps,
                row@.len() == x,
                forall|xx: int| 0 <= xx < x ==> #[trigger] row@[xx]
                    == cell_filled(*img, x_step as int, y_step as int, threshold, invert, xx, y as int),
            decreases x_steps - x,
        {
            proof {
                lemma_step_mul_bounds(x_steps as int, x_step as int, x as int, img.width as int);
                lemma_step_mul_bounds(y_steps as int, y_step as int, y as int, img.height as int);
            }
            let avg = local_average(img, x * x_step, y * y_step, x_step, y_step);
            row.push((avg > threshold) != invert);
            x = x + 1;
        }
        proof {
            assert(row@ =~= spec_grid(*img, x_step as int, y_step as int, threshold, invert)[y as int]);
        }
        rows.push(row);
        y = y + 1;
    }
    let grid = SampleGrid { x_steps, y_steps, rows };
    proof {
        assert(grid@ =~~= spec_grid(*img, x_step as int, y_step as int, threshold, invert));
    }
    grid
}

/// Flipping `invert` inverts every cell's fill decision and changes nothing
/// else: the grid sampled with the opposite polarity has the same dimensions,
/// and each of its cells is the negation of the corresponding cell.
pub proof fn lemma_invert_flips_every_cell(
    img: GrayImage,
    x_step: int,
    y_step: int,
    threshold: u8,
    invert: bool,
)
    ensures
        ({
            let plain = spec_grid(img, x_step, y_step, threshold, invert);
            let flipped = spec_grid(img, x_step, y_step, threshold, !invert);
            &&& flipped.len() == plain.len()
            &&& forall|y: int| 0 <= y < plain.len()
                ==> (#[trigger] flipped[y]).len() == plain[y].len()
            &&& forall|x: int, y: int| 0 <= y < plain.len() && 0 <= x < plain[y].len()
                ==> #[trigger] flipped[y][x] == !plain[y][x]
        }),
{
}

/// Two images agree on every pixel of the region `[0, w) x [0, h)`.
pub open spec fn agrees_on_region(a: GrayImage, b: GrayImage, w: int, h: int) -> bool {
    forall|x: int, y: int| 0 <= x < w && 0 <= y < h ==> a.pixel(x, y) == b.pixel(x, y)
}

proof fn lemma_row_sum_agrees(a: GrayImage, b: GrayImage, y: int, x_start: int, n: int, w: int, h: int)
    requires
        agrees_on_region(a, b, w, h),
        0 <= x_start,
        x_start + n <= w,
        0 <= y < h,
    ensures
        row_sum(a, y, x_start, n) == row_sum(b, y, x_start, n),
    decreases n,
{
    if n > 0 {
        lemma_row_sum_agrees(a, b, y, x_start, n - 1, w, h);
    }
}

proof fn lemma_block_sum_agrees(
    a: GrayImage,
    b: GrayImage,
    x_start: int,
    y_start: int,
    width: int,
    n: int,
    w: int,
    h: int,
)
    requires
        agrees_on_region(a, b, w, h),
        0 <= x_start,
        x_start + width <= w,
        0 <= y_start,
        y_start + n <= h,
    ensures
        block_sum(a, x_start, y_start, width, n) == block_sum(b, x_start, y_start, width, n),
    decreases n,
{
    if n > 0 {
        lemma_block_sum_agrees(a, b, x_start, y_start, width, n - 1, w, h);
        lemma_row_sum_agrees(a, b, y_start + n - 1, x_start, width, w, h);
    }
}

/// The sampler never reads pixels outside the sampled region
/// `[0, x_steps * x_step) x [0, y_steps * y_step)`: two images of the same
/// dimensions that agree on that region yield the same fill decision for
/// every cell, whatever the pixels outside it hold.
pub proof fn lemma_cells_read_only_sampled_region(
    a: GrayImage,
    b: GrayImage,
    x_step: int,
    y_step: int,
    threshold: u8,
    invert: bool,
)
    requires
        x_step >= 1,
        y_step >= 1,
        a.width == b.width,
        a.height == b.height,
        agrees_on_region(
            a,
            b,
            ((a.width as int) / x_step) * x_step,
            ((a.height as int) / y_step) * y_step,
        ),
    ensures
        spec_grid(a, x_step, y_step, threshold, invert)
            =~~= spec_grid(b, x_step, y_step, threshold, invert),
{
    let x_steps = (a.width as int) / x_step;
    let y_steps = (a.height as int) / y_step;
    assert forall|x: int, y: int| 0 <= x < x_steps && 0 <= y < y_steps implies
        cell_filled(a, x_step, y_step, threshold, invert, x, y)
            == cell_filled(b, x_step, y_step, threshold, invert, x, y) by {
        assert(x * x_step + x_step <= x_steps * x_step && x * x_step >= 0) by (nonlinear_arith)
            requires
                0 <= x < x_steps,
                x_step >= 1,
        ;
        assert(y * y_step + y_step <= y_steps * y_step && y * y_step >= 0) by (nonlinear_arith)
            requires
                0 <= y < y_steps,
                y_step >= 1,
        ;
        lemma_block_sum_agrees(
            a,
            b,
            x * x_step,
            y * y_step,
            x_step,
            y_step,
            x_steps * x_step,
            y_steps * y_step,
        );
    }
}

} // verus!
