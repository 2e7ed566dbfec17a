use vstd::prelude::*;

use crate::outside::{block_fits, thumbnail_of, thumbnail_rgba};

verus! {

/// The next intermediate size on the way from `current` down to `target`:
/// half of `current`, rounded up, but never below `target`.
pub open spec fn halve_toward(current: u32, target: u32) -> u32 {
    let half = (current / 2 + current % 2) as u32;
    if half < target {
        target
    } else {
        half
    }
}

/// The thumbnail of an RGBA image, made in one step when every block of
/// that step is small enough to average, and otherwise by first halving
/// the image toward the target and shrinking the result.
pub open spec fn staged_thumbnail(
    width: u32,
    height: u32,
    rgba: Seq<u8>,
    new_width: u32,
    new_height: u32,
) -> Seq<u8>
    decreases width + height,
{
    let w1 = halve_toward(width, new_width);
    let h1 = halve_toward(height, new_height);
    if block_fits(width, height, new_width, new_height) || (w1 as int + h1 as int >= width as int
        + height as int) {
        thumbnail_of(width, height, rgba, new_width, new_height)
    } else {
        staged_thumbnail(w1, h1, thumbnail_of(width, height, rgba, w1, h1), new_width, new_height)
    }
}

/// Whether `block_fits` holds, computed without overflow.
fn block_fits_exec(width: u32, height: u32, new_width: u32, new_height: u32) -> (r: bool)
    ensures
        r == block_fits(width, height, new_width, new_height),
{
    if new_width == 0 || new_height == 0 {
        return false;
    }
    let a: u128 = (width / new_width) as u128 + (width / 1048576) as u128 + 4;
    let b: u128 = (height / new_height) as u128 + (height / 1048576) as u128 + 4;
    assert(a * b <= 0x2_0000_0000 * 0x2_0000_0000) by (nonlinear_arith)
        requires
            a <= 0x2_0000_0000,
            b <= 0x2_0000_0000,
    ;
    a * b <= 16810048
}

/// Shrinking a side to at least half its length, in a source whose RGBA
/// copy fits in memory, keeps every block small enough.
proof fn lemma_halving_fits(width: u32, height: u32, w1: u32, h1: u32)
    requires
        0 < w1 <= width,
        0 < h1 <= height,
        width <= 2 * w1,
        height <= 2 * h1,
        width * height * 4 <= usize::MAX,
    ensures
        block_fits(width, height, w1, h1),
{
    let qw = width / w1;
    let qh = height / h1;
    assert(qw <= 2) by (nonlinear_arith)
        requires
            qw == width / w1,
            0 < w1,
            width <= 2 * w1,
    {
        vstd::arithmetic::div_mod::lemma_div_is_ordered(width as int, 2 * w1, w1 as int);
        vstd::arithmetic::div_mod::lemma_div_multiples_vanish(2, w1 as int);
    }
    assert(qh <= 2) by (nonlinear_arith)
        requires
            qh == height / h1,
            0 < h1,
            height <= 2 * h1,
    {
        vstd::arithmetic::div_mod::lemma_div_is_ordered(height as int, 2 * h1, h1 as int);
        vstd::arithmetic::div_mod::lemma_div_multiples_vanish(2, h1 as int);
    }
    let a = width / 1048576;
    let b = height / 1048576;
    assert(a * 1048576 <= width && b * 1048576 <= height);
    assert(a * b <= 4194304) by (nonlinear_arith)
        requires
            a * 1048576 <= width,
            b * 1048576 <= height,
            width * height * 4 <= 0xffff_ffff_ffff_ffff,
            0 <= a,
            0 <= b,
    ;
    assert((qw + a + 4) * (qh + b + 4) <= 16810048) by (nonlinear_arith)
        requires
            0 <= qw <= 2,
            0 <= qh <= 2,
            0 <= a <= 4096,
            0 <= b <= 4096,
            a * b <= 4194304,
    ;
}

/// Shrinks an RGBA image to `new_width` by `new_height`, halving it first as
/// many times as the resampler needs to average small enough blocks.
pub fn shrink_rgba(width: u32, height: u32, rgba: Vec<u8>, new_width: u32, new_height: u32) -> (r:
    Vec<u8>)
    requires
        0 < new_width <= width,
        0 < new_height <= height,
        rgba@.len() == width * height * 4,
        width * height * 4 <= usize::MAX,
    ensures
        r@ == staged_thumbnail(width, height, rgba@, new_width, new_height),
        r@.len() == new_width * new_height * 4,
    decreases width + height,
{
    if block_fits_exec(width, height, new_width, new_height) {
        return thumbnail_rgba(width, height, rgba, new_width, new_height);
    }
    let w1: u32 = if width / 2 + width % 2 < new_width {
        new_width
    } else {
        width / 2 + width % 2
    };
    let h1: u32 = if height / 2 + height % 2 < new_height {
        new_height
    } else {
        height / 2 + height % 2
    };
    proof {
        lemma_halving_fits(width, height, w1, h1);
        if w1 as int + h1 as int >= width as int + height as int {
            assert(w1 == width && h1 == height);
            assert(w1 == new_width || width <= 1);
            assert(h1 == new_height || height <= 1);
            lemma_halving_fits(width, height, new_width, new_height);
        }
        assert(w1 * h1 <= width * height) by (nonlinear_arith)
            requires
                0 < w1 <= width,
                0 < h1 <= height,
        ;
    }
    let half = thumbnail_rgba(width, height, rgba, w1, h1);
    shrink_rgba(w1, h1, half, new_width, new_height)
}

} // verus!
