//! Interleaved RGB rasters described pixel by pixel.

use vstd::prelude::*;

verus! {

/// The first `count` pixels of a raster `width` pixels wide, in row-major
/// order, as interleaved samples: sample `k` is channel `k % 3` of the pixel
/// at column `(k / 3) % width`, row `(k / 3) / width`.
pub open spec fn raster(width: int, count: int, pixel: spec_fn(int, int) -> Seq<u8>) -> Seq<u8> {
    Seq::new((3 * count) as nat, |k: int| pixel((k / 3) % width, (k / 3) / width)[k % 3])
}

/// Appending the next pixel's three samples extends the raster by one pixel.
pub proof fn lemma_raster_push(
    width: int,
    count: int,
    pixel: spec_fn(int, int) -> Seq<u8>,
    x: int,
    y: int,
)
    requires
        0 <= x < width,
        0 <= y,
        count == y * width + x,
        pixel(x, y).len() == 3,
    ensures
        raster(width, count, pixel) + pixel(x, y) == raster(width, count + 1, pixel),
{
    vstd::arithmetic::div_mod::lemma_fundamental_div_mod_converse(count, width, y, x);
    let lhs = raster(width, count, pixel) + pixel(x, y);
    let rhs = raster(width, count + 1, pixel);
    assert forall|k: int| 0 <= k < 3 * count + 3 implies #[trigger] lhs[k] == rhs[k] by {
        if k >= 3 * count {
            assert(k / 3 == count);
            assert(k % 3 == k - 3 * count);
        }
    }
    assert(lhs =~= rhs);
}

/// Moving past the end of a row: pixel `width` of row `y` is pixel 0 of row `y + 1`.
pub proof fn lemma_next_row(width: int, y: int)
    ensures
        y * width + width == (y + 1) * width,
{
    vstd::arithmetic::mul::lemma_mul_is_distributive_add_other_way(width, y, 1);
}

/// The three samples of pixel `(x, y)` in a raster: those at `3 * (y * width + x)`.
pub proof fn lemma_raster_pixel(
    width: int,
    count: int,
    pixel: spec_fn(int, int) -> Seq<u8>,
    x: int,
    y: int,
)
    requires
        0 <= x < width,
        0 <= y,
        y * width + x < count,
        pixel(x, y).len() == 3,
    ensures
        raster(width, count, pixel).subrange(3 * (y * width + x), 3 * (y * width + x) + 3)
            == pixel(x, y),
{
    let p = y * width + x;
    vstd::arithmetic::div_mod::lemma_fundamental_div_mod_converse(p, width, y, x);
    let r = raster(width, count, pixel);
    let sub = r.subrange(3 * p, 3 * p + 3);
    assert forall|c: int| 0 <= c < 3 implies #[trigger] sub[c] == pixel(x, y)[c] by {
        assert((3 * p + c) / 3 == p);
        assert((3 * p + c) % 3 == c);
    }
    assert(sub =~= pixel(x, y));
}

} // verus!
