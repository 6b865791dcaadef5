//! Dimensions of the raster and the order in which its pixels are visited.
use vstd::arithmetic::div_mod::{lemma_fundamental_div_mod, lemma_fundamental_div_mod_converse};
use vstd::prelude::*;

verus! {

/// `n` scaled by the ratio `num / den`, rounded down.
///
/// An image's height is its width scaled by the inverse of its aspect ratio
/// (width 800 at 16:10 gives 500); the viewport's width is its height scaled
/// by the aspect ratio (height 2 at 16:9 gives 3).
pub fn scale_floor(n: u32, num: u32, den: u32) -> (r: u64)
    requires
        den > 0,
    ensures
        r == (n as int * num as int) / den as int,
{
    assert(n as int * num as int <= u32::MAX as int * u32::MAX as int) by (nonlinear_arith);
    (n as u64 * num as u64) / den as u64
}

/// The coordinates of the `k`-th pixel of a `width` x `height` raster in scan
/// order: rows from the top of the image (`y == height - 1`) down to the
/// bottom (`y == 0`), each row from left (`x == 0`) to right.
pub open spec fn scan_position(k: int, width: int, height: int) -> (int, int) {
    (k % width, height - 1 - k / width)
}

proof fn lemma_row_split(row: int, x: int, width: int)
    requires
        0 <= row,
        0 <= x < width,
    ensures
        (row * width + x) / width == row,
        (row * width + x) % width == x,
{
    lemma_fundamental_div_mod_converse(row * width + x, width, row, x);
}

/// Scan order visits each pixel of the raster exactly once: pixel `(x, y)`
/// comes at position `(height - 1 - y) * width + x`, and at no other.
pub proof fn lemma_scan_visits_each_pixel_once(x: int, y: int, k: int, width: int, height: int)
    requires
        0 <= x < width,
        0 <= y < height,
        0 <= k < width * height,
    ensures
        0 <= (height - 1 - y) * width + x < width * height,
        scan_position((height - 1 - y) * width + x, width, height) == (x, y),
        scan_position(k, width, height) == (x, y) ==> k == (height - 1 - y) * width + x,
{
    let row = height - 1 - y;
    lemma_row_split(row, x, width);
    assert(0 <= row * width + x < width * height) by (nonlinear_arith)
        requires 0 <= row < height, 0 <= x < width;
    lemma_fundamental_div_mod(k, width);
    if scan_position(k, width, height) == (x, y) {
        assert(k / width == row && k % width == x);
        assert(width * row == row * width) by (nonlinear_arith);
    }
}

/// The coordinates of the pixel that comes `k`-th in scan order.
pub fn pixel_at(k: u64, width: u32, height: u32) -> (r: (u32, u32))
    requires
        k < width as int * height as int,
    ensures
        (r.0 as int, r.1 as int) == scan_position(k as int, width as int, height as int),
{
    assert(width > 0) by (nonlinear_arith)
        requires k < width as int * height as int;
    let row = k / width as u64;
    let x = k % width as u64;
    assert(row < height) by (nonlinear_arith)
        requires k < width as int * height as int, width > 0, row == k as int / width as int;
    (x as u32, height - 1 - row as u32)
}

/// Every pixel of a `width` x `height` raster, in scan order.
pub fn scan_order(width: u32, height: u32) -> (r: Vec<(u32, u32)>)
    requires
        width as int * height as int <= usize::MAX,
    ensures
        r@.len() == width as int * height as int,
        forall|k: int|
            0 <= k < r@.len() ==> (r@[k].0 as int, r@[k].1 as int) == #[trigger] scan_position(
                k,
                width as int,
                height as int,
            ),
{
    let mut r: Vec<(u32, u32)> = Vec::new();
    let mut row: u32 = 0;
    while row < height
        invariant
            row <= height,
            width as int * height as int <= usize::MAX,
            r@.len() == row as int * width as int,
            forall|k: int|
                0 <= k < r@.len() ==> (r@[k].0 as int, r@[k].1 as int) == #[trigger] scan_position(
                    k,
                    width as int,
                    height as int,
                ),
        decreases height - row,
    {
        let y = height - 1 - row;
        let mut x: u32 = 0;
        while x < width
            invariant
                row < height,
                y == height - 1 - row,
                x <= width,
                width as int * height as int <= usize::MAX,
                r@.len() == row as int * width as int + x as int,
                forall|k: int|
                    0 <= k < r@.len() ==> (r@[k].0 as int, r@[k].1 as int) == #[trigger] scan_position(
                        k,
                        width as int,
                        height as int,
                    ),
            decreases width - x,
        {
            proof {
                lemma_row_split(row as int, x as int, width as int);
                assert((row as int * width as int + x as int) < width as int * height as int)
                    by (nonlinear_arith)
                    requires x < width, row + 1 <= height;
            }
            r.push((x, y));
            x = x + 1;
        }
        assert((row + 1) as int * width as int == row as int * width as int + width as int)
            by (nonlinear_arith);
        row = row + 1;
    }
    assert(row as int * width as int == width as int * height as int) by (nonlinear_arith)
        requires row == height;
    r
}

} // verus!
