use vstd::prelude::*;

use crate::ops::{invert_of, BoxBlur, EdgeDetect, Invert, ProcessImage};
use crate::pixel::{validation, BufferView, ImageType};
use crate::service::{
    planned, process_outcome, run_all, thumbnail_outcome, ImageParameters, Operation, ThumbnailImage,
};

verus! {

/// An envelope with positive dimensions, a known format and exactly
/// `width * height * channels` bytes is accepted, and the buffer keeps
/// every byte.
pub proof fn lemma_consistent_envelope_accepted(width: u32, height: u32, code: i32, data: Seq<u8>)
    requires
        width > 0,
        height > 0,
        ImageType::from_code(code) is Some,
        data.len() == width * height * ImageType::from_code(code)->Some_0.channels(),
    ensures
        validation(width, height, code, data) is Ok,
        validation(width, height, code, data)->Ok_0.data == data,
        validation(width, height, code, data)->Ok_0.data.len() == width * height
            * ImageType::from_code(code)->Some_0.channels(),
{
    let ch = ImageType::from_code(code)->Some_0.channels();
    assert(width * height * ch > 0) by (nonlinear_arith)
        requires
            width > 0,
            height > 0,
            ch > 0,
    ;
}

/// A non-empty envelope of a known format whose length disagrees with its
/// geometry is refused with a geometry mismatch.
pub proof fn lemma_inconsistent_envelope_refused(width: u32, height: u32, code: i32, data: Seq<u8>)
    requires
        data.len() > 0,
        ImageType::from_code(code) is Some,
        data.len() != width * height * ImageType::from_code(code)->Some_0.channels(),
    ensures
        validation(width, height, code, data) is Err,
        validation(width, height, code, data)->Err_0 is GeometryMismatch,
{
}

/// Inverting twice gives the bytes back.
pub proof fn lemma_invert_involution(data: Seq<u8>, ch: nat)
    requires
        1 <= ch <= 4,
    ensures
        invert_of(invert_of(data, ch), ch) == data,
{
    assert(invert_of(invert_of(data, ch), ch) =~= data);
}

/// Applying the invert operation twice leaves the buffer as it was.
pub proof fn lemma_invert_twice_is_identity(v: BufferView)
    requires
        v.wf(),
    ensures
        Invert::invert_spec(Invert::invert_spec(v)) == v,
{
    lemma_invert_involution(v.data, v.format.channels());
}

/// A thumbnail larger than its source in either dimension is refused.
pub proof fn lemma_oversized_thumbnail_refused(request: ThumbnailImage)
    requires
        request.new_width > request.image.width || request.new_height > request.image.height,
    ensures
        thumbnail_outcome(request) is Err,
{
}

/// With box blur and edge detection both requested, and no inversion, the
/// result is the edge map of the blurred image.
pub proof fn lemma_blur_runs_before_edges(params: ImageParameters, blur: BoxBlur, edges: EdgeDetect)
    requires
        params.invert is None,
        params.box_blur == Some(blur),
        params.edge_detect == Some(edges),
    ensures
        process_outcome(params) == (match params.image.validated() {
            Err(e) => Err(e),
            Ok(v) => match blur.outcome(v) {
                Err(e) => Err(e),
                Ok(blurred) => edges.outcome(blurred),
            },
        }),
{
    let ops = crate::service::planned(params.invert, params.box_blur, params.edge_detect);
    assert(ops =~= seq![Operation::BoxBlur(blur), Operation::EdgeDetect(edges)]);
    assert(ops.drop_first() =~= seq![Operation::EdgeDetect(edges)]);
    assert(ops.drop_first().drop_first() =~= Seq::<Operation>::empty());
    reveal_with_fuel(crate::service::run_all, 3);
}

/// Whether `op` accepts an image of the given dimensions: a box blur needs an
/// odd kernel, edge detection a threshold that fits in a byte and an image
/// whose RGBA copy can be addressed.
pub open spec fn accepts(op: Operation, width: u32, height: u32) -> bool {
    match op {
        Operation::Invert(_) => true,
        Operation::BoxBlur(b) => b.kernel_width % 2 == 1,
        Operation::EdgeDetect(e) => e.threshold <= 255 && width * height * 4 <= usize::MAX,
    }
}

/// `a` has the geometry, format and byte count of `b`.
pub open spec fn same_shape(a: BufferView, b: BufferView) -> bool {
    &&& a.width == b.width
    &&& a.height == b.height
    &&& a.format == b.format
    &&& a.data.len() == b.data.len()
}

proof fn lemma_step_keeps_shape(op: Operation, v: BufferView)
    requires
        v.wf(),
        accepts(op, v.width, v.height),
    ensures
        op.outcome(v) is Ok,
        same_shape(op.outcome(v)->Ok_0, v),
{
}

proof fn lemma_run_keeps_shape(ops: Seq<Operation>, v: BufferView)
    requires
        v.wf(),
        forall|k: int| 0 <= k < ops.len() ==> accepts(#[trigger] ops[k], v.width, v.height),
    ensures
        run_all(ops, v) is Ok,
        same_shape(run_all(ops, v)->Ok_0, v),
    decreases ops.len(),
{
    if ops.len() > 0 {
        lemma_step_keeps_shape(ops[0], v);
        let next = ops[0].outcome(v)->Ok_0;
        let rest = ops.drop_first();
        assert forall|k: int| 0 <= k < rest.len() implies accepts(
            #[trigger] rest[k],
            next.width,
            next.height,
        ) by {
            assert(rest[k] == ops[k + 1]);
        }
        lemma_run_keeps_shape(rest, next);
    }
}

/// A request whose image is consistent and whose operations all have valid
/// parameters succeeds, and returns an image of the same geometry, format
/// and length. Edge detection also needs an RGBA copy of the image that can
/// be addressed.
pub proof fn lemma_valid_request_succeeds(params: ImageParameters)
    requires
        params.image.validated() is Ok,
        params.box_blur matches Some(b) ==> b.kernel_width % 2 == 1,
        params.edge_detect matches Some(e) ==> e.threshold <= 255 && params.image.width
            * params.image.height * 4 <= usize::MAX,
    ensures
        process_outcome(params) is Ok,
        same_shape(process_outcome(params)->Ok_0, params.image.validated()->Ok_0),
{
    let v = params.image.validated()->Ok_0;
    let ch = v.format.channels();
    if v.width == 0 || v.height == 0 {
        assert(v.width * v.height * ch == 0) by (nonlinear_arith)
            requires
                v.width == 0 || v.height == 0,
        ;
    }
    let ops = planned(params.invert, params.box_blur, params.edge_detect);
    assert forall|k: int| 0 <= k < ops.len() implies accepts(
        #[trigger] ops[k],
        v.width,
        v.height,
    ) by {
        match ops[k] {
            Operation::Invert(_) => {},
            Operation::BoxBlur(b) => {
                assert(params.box_blur == Some(b));
            },
            Operation::EdgeDetect(e) => {
                assert(params.edge_detect == Some(e));
            },
        }
    }
    lemma_run_keeps_shape(ops, v);
}

/// With all three operations requested they run as invert, then box blur,
/// then edge detection, whatever order the request lists them in.
pub proof fn lemma_canonical_order(
    params: ImageParameters,
    invert: Invert,
    blur: BoxBlur,
    edges: EdgeDetect,
)
    requires
        params.invert == Some(invert),
        params.box_blur == Some(blur),
        params.edge_detect == Some(edges),
    ensures
        process_outcome(params) == (match params.image.validated() {
            Err(e) => Err(e),
            Ok(v) => match blur.outcome(Invert::invert_spec(v)) {
                Err(e) => Err(e),
                Ok(blurred) => edges.outcome(blurred),
            },
        }),
{
    let ops = planned(params.invert, params.box_blur, params.edge_detect);
    assert(ops =~= seq![
        Operation::Invert(invert),
        Operation::BoxBlur(blur),
        Operation::EdgeDetect(edges),
    ]);
    assert(ops.drop_first() =~= seq![Operation::BoxBlur(blur), Operation::EdgeDetect(edges)]);
    assert(ops.drop_first().drop_first() =~= seq![Operation::EdgeDetect(edges)]);
    assert(ops.drop_first().drop_first().drop_first() =~= Seq::<Operation>::empty());
    reveal_with_fuel(run_all, 4);
}

} // verus!
