use vstd::prelude::*;

use crate::pixel::{lemma_cell_in_bounds, lemma_split_index};

verus! {

/// `i` moved into `0..n` by clamping at the edges.
pub open spec fn clamp_to(i: int, n: int) -> int {
    if i < 0 {
        0
    } else if i >= n {
        n - 1
    } else {
        i
    }
}

/// Flat index of the sample that tap `j` of the window centred on cell `i` reads.
/// Cells are laid out row by row, `ch` bytes per pixel; the window runs along
/// the row, or along the column when `vertical` holds, and is `2 * r + 1` wide.
pub open spec fn tap_index(w: int, h: int, ch: int, r: int, vertical: bool, i: int, j: int) -> int {
    let p = i / ch;
    let c = i % ch;
    let x = p % w;
    let y = p / w;
    if vertical {
        (clamp_to(y - r + j, h) * w + x) * ch + c
    } else {
        (y * w + clamp_to(x - r + j, w)) * ch + c
    }
}

/// Sum of the first `k` taps of the window centred on cell `i`.
pub open spec fn window_sum(
    data: Seq<u8>,
    w: int,
    h: int,
    ch: int,
    r: int,
    vertical: bool,
    i: int,
    k: nat,
) -> int
    decreases k,
{
    if k == 0 {
        0
    } else {
        window_sum(data, w, h, ch, r, vertical, i, (k - 1) as nat) + data[tap_index(
            w,
            h,
            ch,
            r,
            vertical,
            i,
            k - 1,
        )] as int
    }
}

/// Mean of the `kw` samples around cell `i`, rounded to the nearest integer
/// (halves cannot occur, `kw` being odd).
pub open spec fn mean_at(
    data: Seq<u8>,
    w: int,
    h: int,
    ch: int,
    kw: nat,
    vertical: bool,
    i: int,
) -> int {
    (window_sum(data, w, h, ch, kw as int / 2, vertical, i, kw) + kw as int / 2) / kw as int
}

/// One pass of the mean filter along rows, or along columns.
pub open spec fn blur_pass(
    data: Seq<u8>,
    w: int,
    h: int,
    ch: int,
    kw: nat,
    vertical: bool,
) -> Seq<u8> {
    Seq::new(data.len(), |i: int| mean_at(data, w, h, ch, kw, vertical, i) as u8)
}

/// The box blur: a horizontal pass, then a vertical pass over its result.
pub open spec fn box_blur_of(data: Seq<u8>, w: int, h: int, ch: int, kw: nat) -> Seq<u8> {
    blur_pass(blur_pass(data, w, h, ch, kw, false), w, h, ch, kw, true)
}

proof fn lemma_mean_fits(s: int, r: int, kw: int)
    requires
        0 <= s <= kw * 255,
        0 <= r < kw,
    ensures
        0 <= (s + r) / kw <= 255,
{
    vstd::arithmetic::div_mod::lemma_fundamental_div_mod(s + r, kw);
    vstd::arithmetic::div_mod::lemma_mod_bound(s + r, kw);
    vstd::arithmetic::div_mod::lemma_div_pos_is_pos(s + r, kw);
    let q = (s + r) / kw;
    let m = (s + r) % kw;
    assert(q <= 255) by (nonlinear_arith)
        requires
            s + r == kw * q + m,
            0 <= m,
            s + r < kw * 256,
            0 < kw,
    ;
}

/// Taps `from .. from + k` all reading `v` add `k * v` to the window sum.
proof fn lemma_constant_taps(
    data: Seq<u8>,
    w: int,
    h: int,
    ch: int,
    r: int,
    vertical: bool,
    i: int,
    from: nat,
    k: nat,
    v: int,
)
    requires
        forall|j: int|
            from <= j < from + k ==> data[tap_index(w, h, ch, r, vertical, i, j)] as int == v,
    ensures
        window_sum(data, w, h, ch, r, vertical, i, from + k) == window_sum(
            data,
            w,
            h,
            ch,
            r,
            vertical,
            i,
            from,
        ) + k * v,
    decreases k,
{
    if k > 0 {
        let k1 = (k - 1) as nat;
        lemma_constant_taps(data, w, h, ch, r, vertical, i, from, k1, v);
        assert(window_sum(data, w, h, ch, r, vertical, i, from + k) == window_sum(
            data,
            w,
            h,
            ch,
            r,
            vertical,
            i,
            from + k1,
        ) + data[tap_index(w, h, ch, r, vertical, i, (from + k1) as int)] as int);
        assert(k1 * v + v == k * v) by (nonlinear_arith)
            requires
                k1 + 1 == k,
        ;
    } else {
        assert(k * v == 0) by (nonlinear_arith)
            requires
                k == 0,
        ;
    }
}

/// The byte of channel `c` at column `x` of row `y`, where the coordinate
/// along the pass (the row when `vertical`, else the column) is `at`.
fn sample_at(
    data: &Vec<u8>,
    w: u32,
    h: u32,
    ch: u32,
    x: usize,
    y: usize,
    c: usize,
    at: usize,
    vertical: bool,
) -> (v: u8)
    requires
        x < w,
        y < h,
        c < ch,
        1 <= ch <= 4,
        data@.len() == h * w * ch,
        h * w * ch <= usize::MAX,
        vertical ==> at < h,
        !vertical ==> at < w,
    ensures
        v == data@[if vertical {
            (at * w + x) * ch + c
        } else {
            (y * w + at) * ch + c
        }],
{
    let ghost n = h * w;
    proof {
        assert(n <= n * ch) by (nonlinear_arith)
            requires
                n >= 0,
                ch >= 1,
        ;
    }
    let pix: usize;
    if vertical {
        proof {
            lemma_cell_in_bounds(at as int, x as int, h as int, w as int);
        }
        pix = at * (w as usize) + x;
    } else {
        proof {
            lemma_cell_in_bounds(y as int, at as int, h as int, w as int);
        }
        pix = y * (w as usize) + at;
    }
    proof {
        lemma_cell_in_bounds(pix as int, c as int, n, ch as int);
    }
    data[pix * (ch as usize) + c]
}

/// One pass of the mean filter with a window `kw` wide, along rows or columns.
/// Taps that fall past an edge read the edge sample; they are counted rather
/// than visited, so the work per sample is bounded by the image's extent.
pub fn blur_pass_exec(data: &Vec<u8>, w: u32, h: u32, ch: u32, kw: u32, vertical: bool) -> (r: Vec<
    u8,
>)
    requires
        w > 0,
        h > 0,
        1 <= ch <= 4,
        kw % 2 == 1,
        data@.len() == w * h * ch,
    ensures
        r@ == blur_pass(data@, w as int, h as int, ch as int, kw as nat, vertical),
{
    let n: Ghost<int> = Ghost(w * h);
    let len = data.len();
    let radius: u32 = kw / 2;
    let mut out: Vec<u8> = Vec::new();
    let mut i: usize = 0;
    proof {
        vstd::arithmetic::mul::lemma_mul_is_commutative(w as int, h as int);
    }
    while i < len
        invariant
            len == data@.len(),
            len == n@ * ch,
            n@ == w * h,
            n@ == h * w,
            w > 0,
            h > 0,
            1 <= ch <= 4,
            kw % 2 == 1,
            radius == kw / 2,
            i <= len,
            out@.len() == i,
            forall|k: int|
                0 <= k < i ==> out@[k] == mean_at(
                    data@,
                    w as int,
                    h as int,
                    ch as int,
                    kw as nat,
                    vertical,
                    k,
                ) as u8,
        decreases len - i,
    {
        proof {
            lemma_split_index(i as int, n@, ch as int);
        }
        let p: usize = i / (ch as usize);
        let c: usize = i % (ch as usize);
        proof {
            lemma_split_index(p as int, h as int, w as int);
        }
        let x: usize = p % (w as usize);
        let y: usize = p / (w as usize);
        let ghost wi = w as int;
        let ghost hi_ = h as int;
        let ghost chi = ch as int;
        let ghost ri = radius as int;
        let along: u64 = if vertical {
            y as u64
        } else {
            x as u64
        };
        let bound: u64 = if vertical {
            h as u64
        } else {
            w as u64
        };
        let r64: u64 = radius as u64;
        let kw64: u64 = kw as u64;
        // Taps before `lo` read the first sample, taps from `hi` on the last.
        let lo: u64 = if r64 > along {
            r64 - along
        } else {
            0
        };
        let hi: u64 = if bound - along + r64 < kw64 {
            bound - along + r64
        } else {
            kw64
        };
        let first: u8 = sample_at(data, w, h, ch, x, y, c, 0, vertical);
        let last: u8 = sample_at(data, w, h, ch, x, y, c, (bound - 1) as usize, vertical);
        assert forall|j: int| 0 <= j < lo implies data@[tap_index(
            wi,
            hi_,
            chi,
            ri,
            vertical,
            i as int,
            j,
        )] as int == first as int by {
            assert(clamp_to(along - ri + j, bound as int) == 0);
        }
        proof {
            lemma_constant_taps(data@, wi, hi_, chi, ri, vertical, i as int, 0, lo as nat, first as int);
            assert(lo * first <= lo * 255) by (nonlinear_arith)
                requires
                    first <= 255,
            ;
        }
        let mut sum: u64 = lo * (first as u64);
        let mut j: u64 = lo;
        while j < hi
            invariant
                0 <= x < w,
                0 <= y < h,
                0 <= c < ch,
                p as int == i as int / ch as int,
                c as int == i as int % ch as int,
                x as int == p as int % w as int,
                y as int == p as int / w as int,
                along == (if vertical {
                    y as u64
                } else {
                    x as u64
                }),
                bound == (if vertical {
                    h as u64
                } else {
                    w as u64
                }),
                wi == w,
                hi_ == h,
                chi == ch,
                ri == radius,
                r64 == radius,
                len == data@.len(),
                len == n@ * ch,
                n@ == h * w,
                1 <= ch <= 4,
                kw == 2 * radius + 1,
                lo <= j <= hi,
                lo == (if r64 > along {
                    r64 - along
                } else {
                    0
                }),
                hi <= bound - along + r64,
                hi <= kw,
                sum <= j * 255,
                sum == window_sum(data@, wi, hi_, chi, ri, vertical, i as int, j as nat),
            decreases hi - j,
        {
            let at: usize = (along + j - r64) as usize;
            let v = sample_at(data, w, h, ch, x, y, c, at, vertical);
            assert(clamp_to(along - ri + j, bound as int) == at);
            sum = sum + v as u64;
            j = j + 1;
        }
        assert forall|t: int| hi <= t < kw implies data@[tap_index(
            wi,
            hi_,
            chi,
            ri,
            vertical,
            i as int,
            t,
        )] as int == last as int by {
            assert(clamp_to(along - ri + t, bound as int) == bound - 1);
        }
        proof {
            lemma_constant_taps(
                data@,
                wi,
                hi_,
                chi,
                ri,
                vertical,
                i as int,
                hi as nat,
                (kw - hi) as nat,
                last as int,
            );
            assert(sum + (kw - hi) * last <= kw * 255) by (nonlinear_arith)
                requires
                    sum <= hi * 255,
                    hi <= kw,
                    last <= 255,
            ;
        }
        sum = sum + (kw64 - hi) * (last as u64);
        proof {
            lemma_mean_fits(sum as int, radius as int, kw as int);
        }
        let mean: u64 = (sum + radius as u64) / (kw as u64);
        out.push(mean as u8);
        i = i + 1;
    }
    assert(out@ =~= blur_pass(data@, w as int, h as int, ch as int, kw as nat, vertical));
    out
}

/// Box blur with an odd window `kw`: each channel of each pixel becomes the
/// rounded mean of its neighbourhood, the edges being repeated outward.
pub fn box_blur_exec(data: &Vec<u8>, w: u32, h: u32, ch: u32, kw: u32) -> (r: Vec<u8>)
    requires
        w > 0,
        h > 0,
        1 <= ch <= 4,
        kw % 2 == 1,
        data@.len() == w * h * ch,
    ensures
        r@ == box_blur_of(data@, w as int, h as int, ch as int, kw as nat),
{
    let rows = blur_pass_exec(data, w, h, ch, kw, false);
    blur_pass_exec(&rows, w, h, ch, kw, true)
}

} // verus!
