use vstd::prelude::*;

use crate::pixel::{is_alpha, lemma_cell_in_bounds, lemma_split_index};

verus! {

/// Channel `c` (of four) of pixel `p` of `data`, a buffer of `ch` channels,
/// once widened to RGBA: gray spreads over the three colours, and a missing
/// alpha is opaque.
pub open spec fn rgba_channel(data: Seq<u8>, ch: nat, p: int, c: int) -> u8 {
    if ch == 4 {
        data[p * 4 + c]
    } else if ch == 3 {
        if c == 3 {
            255
        } else {
            data[p * 3 + c]
        }
    } else if ch == 2 {
        if c == 3 {
            data[p * 2 + 1]
        } else {
            data[p * 2]
        }
    } else if c == 3 {
        255
    } else {
        data[p]
    }
}

/// The `n` pixels of `data` widened to RGBA.
pub open spec fn rgba_of(data: Seq<u8>, ch: nat, n: nat) -> Seq<u8> {
    Seq::new(n * 4, |i: int| rgba_channel(data, ch, i / 4, i % 4))
}

/// Channel `c` of pixel `p` of an RGBA buffer narrowed to `ch` channels:
/// gray is read from the red channel, and alpha is kept where the layout has it.
pub open spec fn narrow_channel(rgba: Seq<u8>, ch: nat, p: int, c: int) -> u8 {
    if ch == 4 || ch == 3 {
        rgba[p * 4 + c]
    } else if ch == 2 && c == 1 {
        rgba[p * 4 + 3]
    } else {
        rgba[p * 4]
    }
}

/// The `n` pixels of an RGBA buffer narrowed to `ch` channels.
pub open spec fn narrow_of(rgba: Seq<u8>, ch: nat, n: nat) -> Seq<u8> {
    Seq::new(n * ch, |i: int| narrow_channel(rgba, ch, i / ch as int, i % ch as int))
}

/// Channel `c` of pixel `p` of the edge map: opaque alpha, and a colour that
/// is white where the gradient (the red channel of pixel `p` of `gradient`)
/// exceeds the threshold and black elsewhere.
pub open spec fn edge_channel(gradient: Seq<u8>, ch: nat, threshold: u8, p: int, c: int) -> u8 {
    if is_alpha(c, ch) {
        255
    } else if gradient[p * 4] > threshold {
        255
    } else {
        0
    }
}

/// The edge map of `n` pixels in a layout of `ch` channels.
pub open spec fn edges_of(gradient: Seq<u8>, ch: nat, threshold: u8, n: nat) -> Seq<u8> {
    Seq::new(n * ch, |i: int| edge_channel(gradient, ch, threshold, i / ch as int, i % ch as int))
}

/// Widens `n` pixels of `ch` channels to RGBA.
pub fn widen_to_rgba(data: &Vec<u8>, ch: u32, n: usize) -> (r: Vec<u8>)
    requires
        1 <= ch <= 4,
        data@.len() == n * ch,
        n * 4 <= usize::MAX,
    ensures
        r@ == rgba_of(data@, ch as nat, n as nat),
{
    let len: usize = n * 4;
    let k: usize = ch as usize;
    let mut out: Vec<u8> = Vec::new();
    let mut i: usize = 0;
    while i < len
        invariant
            len == n * 4,
            k == ch,
            1 <= ch <= 4,
            data@.len() == n * ch,
            i <= len,
            out@.len() == i,
            forall|j: int| 0 <= j < i ==> out@[j] == rgba_channel(data@, ch as nat, j / 4, j % 4),
        decreases len - i,
    {
        let p: usize = i / 4;
        let c: usize = i % 4;
        let v: u8;
        if k == 4 {
            v = data[i];
        } else if c == 3 && (k == 3 || k == 1) {
            v = 255;
        } else {
            let cc: usize = if k == 3 {
                c
            } else if k == 2 && c == 3 {
                1
            } else {
                0
            };
            proof {
                lemma_cell_in_bounds(p as int, cc as int, n as int, k as int);
            }
            v = data[p * k + cc];
        }
        out.push(v);
        i = i + 1;
    }
    assert(out@ =~= rgba_of(data@, ch as nat, n as nat));
    out
}

/// Narrows `n` RGBA pixels to a layout of `ch` channels.
pub fn narrow_from_rgba(rgba: &Vec<u8>, ch: u32, n: usize) -> (r: Vec<u8>)
    requires
        1 <= ch <= 4,
        rgba@.len() == n * 4,
        n * 4 <= usize::MAX,
    ensures
        r@ == narrow_of(rgba@, ch as nat, n as nat),
{
    let k: usize = ch as usize;
    proof {
        assert(n * k <= n * 4) by (nonlinear_arith)
            requires
                k <= 4,
                n >= 0,
        ;
    }
    let len: usize = n * k;
    let mut out: Vec<u8> = Vec::new();
    let mut i: usize = 0;
    while i < len
        invariant
            len == n * ch,
            k == ch,
            1 <= ch <= 4,
            rgba@.len() == n * 4,
            n * 4 <= usize::MAX,
            i <= len,
            out@.len() == i,
            forall|j: int|
                0 <= j < i ==> out@[j] == narrow_channel(
                    rgba@,
                    ch as nat,
                    j / ch as int,
                    j % ch as int,
                ),
        decreases len - i,
    {
        proof {
            lemma_split_index(i as int, n as int, k as int);
        }
        let p: usize = i / k;
        let c: usize = i % k;
        let cc: usize = if k == 4 || k == 3 {
            c
        } else if k == 2 && c == 1 {
            3
        } else {
            0
        };
        proof {
            lemma_cell_in_bounds(p as int, cc as int, n as int, 4);
        }
        out.push(rgba[p * 4 + cc]);
        i = i + 1;
    }
    assert(out@ =~= narrow_of(rgba@, ch as nat, n as nat));
    out
}

/// Thresholds a gradient image (RGBA, gradient in the red channel) into an
/// edge map of `n` pixels in a layout of `ch` channels.
pub fn edges_from_gradient(gradient: &Vec<u8>, ch: u32, threshold: u8, n: usize) -> (r: Vec<u8>)
    requires
        1 <= ch <= 4,
        gradient@.len() == n * 4,
        n * 4 <= usize::MAX,
    ensures
        r@ == edges_of(gradient@, ch as nat, threshold, n as nat),
{
    let k: usize = ch as usize;
    proof {
        assert(n * k <= n * 4) by (nonlinear_arith)
            requires
                k <= 4,
                n >= 0,
        ;
    }
    let len: usize = n * k;
    let mut out: Vec<u8> = Vec::new();
    let mut i: usize = 0;
    while i < len
        invariant
            len == n * ch,
            k == ch,
            1 <= ch <= 4,
            gradient@.len() == n * 4,
            n * 4 <= usize::MAX,
            i <= len,
            out@.len() == i,
            forall|j: int|
                0 <= j < i ==> out@[j] == edge_channel(
                    gradient@,
                    ch as nat,
                    threshold,
                    j / ch as int,
                    j % ch as int,
                ),
        decreases len - i,
    {
        proof {
            lemma_split_index(i as int, n as int, k as int);
        }
        let p: usize = i / k;
        let c: usize = i % k;
        let v: u8;
        if (k == 4 && c == 3) || (k == 2 && c == 1) {
            v = 255;
        } else {
            proof {
                lemma_cell_in_bounds(p as int, 0, n as int, 4);
            }
            v = if gradient[p * 4] > threshold {
                255
            } else {
                0
            };
        }
        out.push(v);
        i = i + 1;
    }
    assert(out@ =~= edges_of(gradient@, ch as nat, threshold, n as nat));
    out
}

} // verus!
