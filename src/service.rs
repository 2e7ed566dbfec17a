use vstd::prelude::*;

use crate::convert::{narrow_from_rgba, narrow_of, rgba_of, widen_to_rgba};
use crate::ops::{BoxBlur, EdgeDetect, Invert, ProcessImage};
use crate::shrink::{shrink_rgba, staged_thumbnail};
use crate::pixel::{validate, BufferView, Image, ImageError, PixelBuffer};

verus! {

/// A processing request: an image and the operations asked for on it.
#[derive(Debug)]
pub struct ImageParameters {
    pub image: Image,
    pub invert: Option<Invert>,
    pub edge_detect: Option<EdgeDetect>,
    pub box_blur: Option<BoxBlur>,
}

/// A thumbnail request: an image and the dimensions to shrink it to.
#[derive(Debug)]
pub struct ThumbnailImage {
    pub image: Image,
    pub new_width: u32,
    pub new_height: u32,
}

/// One requested operation, with its parameters.
#[derive(Clone, Copy, Debug, PartialEq, Eq, Structural)]
pub enum Operation {
    Invert(Invert),
    BoxBlur(BoxBlur),
    EdgeDetect(EdgeDetect),
}

impl Operation {
    pub open spec fn outcome(self, before: BufferView) -> Result<BufferView, ImageError> {
        match self {
            Operation::Invert(op) => op.outcome(before),
            Operation::BoxBlur(op) => op.outcome(before),
            Operation::EdgeDetect(op) => op.outcome(before),
        }
    }

    /// Validates the operation's parameters, then applies it in place.
    pub fn apply(&self, image: &mut PixelBuffer) -> (r: Result<(), ImageError>)
        requires
            old(image).wf(),
        ensures
            final(image).wf(),
            match self.outcome(old(image)@) {
                Ok(v) => r is Ok && final(image)@ == v,
                Err(e) => r == Err::<(), ImageError>(e) && final(image)@ == old(image)@,
            },
    {
        match self {
            Operation::Invert(op) => op.process_image(image),
            Operation::BoxBlur(op) => op.process_image(image),
            Operation::EdgeDetect(op) => op.process_image(image),
        }
    }
}

/// The operations of a request in the order they run: invert, then box
/// blur, then edge detection, each only when asked for.
pub open spec fn planned(
    invert: Option<Invert>,
    box_blur: Option<BoxBlur>,
    edge_detect: Option<EdgeDetect>,
) -> Seq<Operation> {
    let a = match invert {
        Some(op) => seq![Operation::Invert(op)],
        None => Seq::empty(),
    };
    let b = match box_blur {
        Some(op) => seq![Operation::BoxBlur(op)],
        None => Seq::empty(),
    };
    let c = match edge_detect {
        Some(op) => seq![Operation::EdgeDetect(op)],
        None => Seq::empty(),
    };
    a + b + c
}

/// Runs `ops` in turn from `v`, stopping at the first refusal.
pub open spec fn run_all(ops: Seq<Operation>, v: BufferView) -> Result<BufferView, ImageError>
    decreases ops.len(),
{
    if ops.len() == 0 {
        Ok(v)
    } else {
        match ops[0].outcome(v) {
            Ok(next) => run_all(ops.drop_first(), next),
            Err(e) => Err(e),
        }
    }
}

/// The operations that a request asks for, in the order they run.
pub fn operations(params: &ImageParameters) -> (r: Vec<Operation>)
    ensures
        r@ == planned(params.invert, params.box_blur, params.edge_detect),
{
    let mut ops: Vec<Operation> = Vec::new();
    if let Some(op) = params.invert {
        ops.push(Operation::Invert(op));
    }
    if let Some(op) = params.box_blur {
        ops.push(Operation::BoxBlur(op));
    }
    if let Some(op) = params.edge_detect {
        ops.push(Operation::EdgeDetect(op));
    }
    assert(ops@ =~= planned(params.invert, params.box_blur, params.edge_detect));
    ops
}

/// Applies `ops` to the buffer in order, stopping at the first that fails.
/// Operations applied before a failure are not undone.
pub fn dispatch(image: &mut PixelBuffer, ops: &Vec<Operation>) -> (r: Result<(), ImageError>)
    requires
        old(image).wf(),
    ensures
        final(image).wf(),
        match run_all(ops@, old(image)@) {
            Ok(v) => r is Ok && final(image)@ == v,
            Err(e) => r == Err::<(), ImageError>(e),
        },
{
    let mut i: usize = 0;
    assert(ops@.subrange(0, ops@.len() as int) =~= ops@);
    while i < ops.len()
        invariant
            image.wf(),
            i <= ops@.len(),
            run_all(ops@, old(image)@) == run_all(ops@.subrange(i as int, ops@.len() as int), image@),
        decreases ops@.len() - i,
    {
        let ghost rest = ops@.subrange(i as int, ops@.len() as int);
        assert(rest.drop_first() =~= ops@.subrange(i + 1, ops@.len() as int));
        let step = ops[i].apply(image);
        if let Err(e) = step {
            return Err(e);
        }
        i = i + 1;
    }
    assert(ops@.subrange(i as int, ops@.len() as int).len() == 0);
    Ok(())
}

/// What a processing request yields: the validated buffer after every
/// requested operation, or the first refusal.
pub open spec fn process_outcome(params: ImageParameters) -> Result<BufferView, ImageError> {
    match params.image.validated() {
        Err(e) => Err(e),
        Ok(v) => run_all(planned(params.invert, params.box_blur, params.edge_detect), v),
    }
}

/// What a thumbnail request yields: the source is validated first, then
/// the new dimensions must be positive and within the source's, then the
/// source's RGBA copy must fit in memory, then it is resampled.
pub open spec fn thumbnail_outcome(request: ThumbnailImage) -> Result<BufferView, ImageError> {
    match request.image.validated() {
        Err(e) => Err(e),
        Ok(v) => if request.new_width == 0 || request.new_height == 0 {
            Err(
                ImageError::ThumbnailEmpty {
                    new_width: request.new_width,
                    new_height: request.new_height,
                },
            )
        } else if request.new_width > v.width || request.new_height > v.height {
            Err(
                ImageError::ThumbnailTooLarge {
                    new_width: request.new_width,
                    new_height: request.new_height,
                    width: v.width,
                    height: v.height,
                },
            )
        } else if v.width * v.height * 4 > usize::MAX {
            Err(ImageError::TooLarge { width: v.width, height: v.height })
        } else {
            let ch = v.format.channels();
            let small = staged_thumbnail(
                v.width,
                v.height,
                rgba_of(v.data, ch, v.pixels()),
                request.new_width,
                request.new_height,
            );
            Ok(
                BufferView {
                    width: request.new_width,
                    height: request.new_height,
                    format: v.format,
                    data: narrow_of(small, ch, (request.new_width * request.new_height) as nat),
                },
            )
        },
    }
}

/// An envelope that carries `v`, under the wire code `code`.
pub open spec fn carries(r: Image, v: BufferView, code: i32) -> bool {
    &&& r.width == v.width
    &&& r.height == v.height
    &&& r.image_type == code
    &&& r.data@ == v.data
}

/// The service: stateless, each request is handled on its own.
#[derive(Clone, Copy, Debug, Default)]
pub struct ImageProcessingService;

impl ImageProcessingService {
    /// Validates the image, applies the requested operations in their fixed
    /// order, and returns the processed image with its geometry and format.
    pub fn process_image(&self, request: ImageParameters) -> (r: Result<Image, ImageError>)
        ensures
            match process_outcome(request) {
                Ok(v) => r is Ok && carries(r->Ok_0, v, request.image.image_type),
                Err(e) => r == Err::<Image, ImageError>(e),
            },
    {
        let ops = operations(&request);
        let code = request.image.image_type;
        let mut buffer = validate(request.image)?;
        dispatch(&mut buffer, &ops)?;
        Ok(Image { width: buffer.width, height: buffer.height, image_type: code, data: buffer.data })
    }

    /// Validates the source, checks the new dimensions against it, and
    /// returns the resampled image in the source's format. Zero dimensions
    /// are refused, and so are sources whose RGBA copy cannot be addressed.
    pub fn create_thumbnail(&self, request: ThumbnailImage) -> (r: Result<Image, ImageError>)
        ensures
            match thumbnail_outcome(request) {
                Ok(v) => r is Ok && carries(r->Ok_0, v, request.image.image_type),
                Err(e) => r == Err::<Image, ImageError>(e),
            },
            request.new_width > request.image.width || request.new_height > request.image.height
                ==> r is Err,
            request.new_width == 0 || request.new_height == 0 ==> r is Err,
    {
        let new_width = request.new_width;
        let new_height = request.new_height;
        let code = request.image.image_type;
        let buffer = validate(request.image)?;
        if new_width == 0 || new_height == 0 {
            return Err(ImageError::ThumbnailEmpty { new_width, new_height });
        }
        if new_width > buffer.width || new_height > buffer.height {
            return Err(
                ImageError::ThumbnailTooLarge {
                    new_width,
                    new_height,
                    width: buffer.width,
                    height: buffer.height,
                },
            );
        }
        let w: u128 = buffer.width as u128;
        let h: u128 = buffer.height as u128;
        assert(w * h <= 0xffff_ffff_ffff_ffff) by (nonlinear_arith)
            requires
                w <= 0xffff_ffff,
                h <= 0xffff_ffff,
        ;
        if w * h * 4 > usize::MAX as u128 {
            return Err(ImageError::TooLarge { width: buffer.width, height: buffer.height });
        }
        let n: usize = (w * h) as usize;
        let ch: u32 = buffer.format.channel_count();
        let rgba = widen_to_rgba(&buffer.data, ch, n);
        let small = shrink_rgba(buffer.width, buffer.height, rgba, new_width, new_height);
        assert(new_width * new_height <= w * h) by (nonlinear_arith)
            requires
                new_width <= w,
                new_height <= h,
        ;
        assert(new_width * new_height * 4 <= w * h * 4);
        let m: usize = (new_width as u128 * new_height as u128) as usize;
        let data = narrow_from_rgba(&small, ch, m);
        Ok(Image { width: new_width, height: new_height, image_type: code, data })
    }
}

} // verus!
