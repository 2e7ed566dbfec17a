use vstd::prelude::*;

use crate::outside::{sobel_gradient, sobel_of};

verus! {

/// Byte `k` of row `y` of the gradient image of an RGBA image: the first and
/// last rows have no neighbour on one side and are zero; any other row is the
/// middle row of the Sobel gradient of the three rows centred on it.
pub open spec fn gradient_byte(width: u32, height: u32, rgba: Seq<u8>, y: int, k: int) -> u8 {
    let rw = width * 4;
    if y == 0 || y == height - 1 {
        0
    } else {
        sobel_of(width, 3, rgba.subrange((y - 1) * rw, (y + 2) * rw))[rw + k]
    }
}

/// The gradient image of an RGBA image, row by row.
pub open spec fn gradient_of(width: u32, height: u32, rgba: Seq<u8>) -> Seq<u8> {
    Seq::new(
        (width * height * 4) as nat,
        |i: int| gradient_byte(width, height, rgba, i / (width * 4), i % (width * 4)),
    )
}

/// Row `y` of the gradient image, `width * 4` bytes.
fn gradient_row(width: u32, height: u32, rgba: &Vec<u8>, y: u32) -> (r: Vec<u8>)
    requires
        width > 0,
        y < height,
        rgba@.len() == width * height * 4,
    ensures
        r@ == Seq::new((width * 4) as nat, |k: int| gradient_byte(width, height, rgba@, y as int, k)),
{
    let total = rgba.len();
    assert(width * 4 <= width * height * 4) by (nonlinear_arith)
        requires
            height >= 1,
    ;
    let rw: usize = width as usize * 4;
    let mut row: Vec<u8> = Vec::new();
    if y == 0 || y == height - 1 {
        let mut k: usize = 0;
        while k < rw
            invariant
                k <= rw,
                row@.len() == k,
                forall|j: int| 0 <= j < k ==> row@[j] == 0,
            decreases rw - k,
        {
            row.push(0);
            k = k + 1;
        }
        assert(row@ =~= Seq::new(
            (width * 4) as nat,
            |k: int| gradient_byte(width, height, rgba@, y as int, k),
        ));
        return row;
    }
    assert((y as int + 2) * rw <= height * rw && 0 <= (y as int - 1) * rw <= (y as int + 2) * rw)
        by (nonlinear_arith)
        requires
            1 <= y,
            y + 2 <= height,
            rw >= 0,
    ;
    assert(height * rw == total) by (nonlinear_arith)
        requires
            total == width * height * 4,
            rw == width * 4,
    ;
    let from: usize = (y as usize - 1) * rw;
    let to: usize = (y as usize + 2) * rw;
    let mut band: Vec<u8> = Vec::new();
    let mut i: usize = from;
    while i < to
        invariant
            from <= i <= to,
            to <= total,
            total == rgba@.len(),
            band@ == rgba@.subrange(from as int, i as int),
        decreases to - i,
    {
        band.push(rgba[i]);
        i = i + 1;
        assert(band@ =~= rgba@.subrange(from as int, i as int));
    }
    assert(to - from == width * 3 * 4) by (nonlinear_arith)
        requires
            from == (y - 1) * rw,
            to == (y + 2) * rw,
            rw == width * 4,
    ;
    let ghost band_seq = band@;
    let gradient = sobel_gradient(width, 3, band);
    let glen = gradient.len();
    let mut k: usize = 0;
    while k < rw
        invariant
            k <= rw,
            rw == width * 4,
            gradient@.len() == width * 3 * 4,
            glen == gradient@.len(),
            gradient@ == sobel_of(width, 3, band_seq),
            band_seq == rgba@.subrange(from as int, to as int),
            from == (y - 1) * rw,
            to == (y + 2) * rw,
            row@.len() == k,
            forall|j: int| 0 <= j < k ==> row@[j] == gradient@[rw + j],
        decreases rw - k,
    {
        row.push(gradient[rw + k]);
        k = k + 1;
    }
    assert(row@ =~= Seq::new(
        (width * 4) as nat,
        |k: int| gradient_byte(width, height, rgba@, y as int, k),
    ));
    row
}

/// The gradient image of an RGBA image, computed one row at a time from the
/// three rows around it.
pub fn gradient_by_rows(width: u32, height: u32, rgba: &Vec<u8>) -> (r: Vec<u8>)
    requires
        width > 0,
        height > 0,
        rgba@.len() == width * height * 4,
    ensures
        r@ == gradient_of(width, height, rgba@),
{
    let ghost rw = width * 4;
    let mut out: Vec<u8> = Vec::new();
    let mut y: u32 = 0;
    while y < height
        invariant
            y <= height,
            width > 0,
            rgba@.len() == width * height * 4,
            rw == width * 4,
            out@.len() == y * rw,
            forall|i: int|
                0 <= i < out@.len() ==> out@[i] == gradient_byte(width, height, rgba@, i / rw, i % rw),
        decreases height - y,
    {
        let mut row = gradient_row(width, height, rgba, y);
        let ghost before = out@;
        out.append(&mut row);
        assert((y + 1) * rw == y * rw + rw) by (nonlinear_arith);
        assert forall|i: int| 0 <= i < out@.len() implies out@[i] == gradient_byte(
            width,
            height,
            rgba@,
            i / rw,
            i % rw,
        ) by {
            if i >= before.len() {
                vstd::arithmetic::div_mod::lemma_fundamental_div_mod_converse(
                    i,
                    rw,
                    y as int,
                    i - y * rw,
                );
            }
        }
        y = y + 1;
    }
    assert(out@.len() == width * height * 4) by (nonlinear_arith)
        requires
            out@.len() == height * rw,
            rw == width * 4,
    ;
    assert(out@ =~= gradient_of(width, height, rgba@));
    out
}

} // verus!
