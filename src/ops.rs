use vstd::prelude::*;

use crate::blur::{box_blur_exec, box_blur_of};
use crate::convert::{edges_from_gradient, edges_of, rgba_of, widen_to_rgba};
use crate::gradient::{gradient_by_rows, gradient_of};
use crate::pixel::{is_alpha, BufferView, ImageError, PixelBuffer};

verus! {

/// Inverts the colour channels of every pixel, leaving alpha alone.
#[derive(Clone, Copy, Debug, PartialEq, Eq, Structural)]
pub struct Invert {}

/// Marks as edges the pixels whose gradient magnitude exceeds `threshold`.
#[derive(Clone, Copy, Debug, PartialEq, Eq, Structural)]
pub struct EdgeDetect {
    pub threshold: u32,
}

/// Replaces each channel by its mean over a `kernel_width` wide box.
#[derive(Clone, Copy, Debug, PartialEq, Eq, Structural)]
pub struct BoxBlur {
    pub kernel_width: u32,
}

/// The bytes of `data` with every colour channel `v` turned into `255 - v`.
pub open spec fn invert_of(data: Seq<u8>, ch: nat) -> Seq<u8> {
    Seq::new(
        data.len(),
        |i: int|
            if is_alpha(i % ch as int, ch) {
                data[i]
            } else {
                (255 - data[i]) as u8
            },
    )
}

/// `v` with its bytes replaced.
pub open spec fn with_data(v: BufferView, data: Seq<u8>) -> BufferView {
    BufferView { data, ..v }
}

/// An operation applied in place to a validated buffer.
pub trait ProcessImage {
    /// What the operation makes of a well-formed buffer, or why it refuses it.
    spec fn outcome(&self, before: BufferView) -> Result<BufferView, ImageError>;

    fn process_image(&self, image: &mut PixelBuffer) -> (r: Result<(), ImageError>)
        requires
            old(image).wf(),
        ensures
            final(image).wf(),
            match self.outcome(old(image)@) {
                Ok(v) => r is Ok && final(image)@ == v,
                Err(e) => r == Err::<(), ImageError>(e) && final(image)@ == old(image)@,
            },
    ;
}

impl Invert {
    pub open spec fn invert_spec(before: BufferView) -> BufferView {
        with_data(before, invert_of(before.data, before.format.channels()))
    }

    /// Inverts the buffer in place.
    pub fn invert(&self, image: &mut PixelBuffer) -> (r: Result<(), ImageError>)
        requires
            old(image).wf(),
        ensures
            r is Ok,
            final(image)@ == Invert::invert_spec(old(image)@),
            final(image).wf(),
    {
        let ch: usize = image.format.channel_count() as usize;
        let len = image.data.len();
        let mut i: usize = 0;
        while i < len
            invariant
                len == image.data@.len(),
                len == old(image).data@.len(),
                ch == image.format.channels(),
                image.width == old(image).width,
                image.height == old(image).height,
                image.format == old(image).format,
                1 <= ch <= 4,
                i <= len,
                forall|j: int|
                    0 <= j < i ==> image.data@[j] == invert_of(old(image).data@, ch as nat)[j],
                forall|j: int| i <= j < len ==> image.data@[j] == old(image).data@[j],
            decreases len - i,
        {
            let c: usize = i % ch;
            let v: u8 = image.data[i];
            if !((ch == 4 && c == 3) || (ch == 2 && c == 1)) {
                image.data.set(i, 255 - v);
            }
            i = i + 1;
        }
        assert(image.data@ =~= invert_of(old(image).data@, ch as nat));
        Ok(())
    }
}

impl ProcessImage for Invert {
    open spec fn outcome(&self, before: BufferView) -> Result<BufferView, ImageError> {
        Ok(Invert::invert_spec(before))
    }

    fn process_image(&self, image: &mut PixelBuffer) -> (r: Result<(), ImageError>) {
        self.invert(image)
    }
}

impl EdgeDetect {
    /// Whether the image's RGBA copy, which the edge detector works on, can
    /// be addressed.
    pub open spec fn fits(before: BufferView) -> bool {
        before.width * before.height * 4 <= usize::MAX
    }

    pub open spec fn edge_spec(&self, before: BufferView) -> Result<BufferView, ImageError> {
        if self.threshold > 255 {
            Err(ImageError::ThresholdOutOfRange { threshold: self.threshold })
        } else if !EdgeDetect::fits(before) {
            Err(ImageError::TooLarge { width: before.width, height: before.height })
        } else {
            let n = before.pixels();
            let ch = before.format.channels();
            let gradient = gradient_of(before.width, before.height, rgba_of(before.data, ch, n));
            Ok(with_data(before, edges_of(gradient, ch, self.threshold as u8, n)))
        }
    }

    /// Replaces the buffer by its edge map: white where the Sobel gradient
    /// exceeds the threshold, black elsewhere, alpha opaque.
    pub fn edge_detect(&self, image: &mut PixelBuffer) -> (r: Result<(), ImageError>)
        requires
            old(image).wf(),
        ensures
            final(image).wf(),
            r == Err::<(), ImageError>(ImageError::ThresholdOutOfRange { threshold: self.threshold })
                <==> self.threshold > 255,
            self.threshold <= 255 && EdgeDetect::fits(old(image)@) ==> r is Ok,
            match self.edge_spec(old(image)@) {
                Ok(v) => r is Ok && final(image)@ == v,
                Err(e) => r == Err::<(), ImageError>(e) && final(image)@ == old(image)@,
            },
    {
        if self.threshold > 255 {
            return Err(ImageError::ThresholdOutOfRange { threshold: self.threshold });
        }
        let w: u128 = image.width as u128;
        let h: u128 = image.height as u128;
        assert(w * h <= 0xffff_ffff_ffff_ffff) by (nonlinear_arith)
            requires
                w <= 0xffff_ffff,
                h <= 0xffff_ffff,
        ;
        if w * h * 4 > usize::MAX as u128 {
            return Err(ImageError::TooLarge { width: image.width, height: image.height });
        }
        let n: usize = (w * h) as usize;
        let ch: u32 = image.format.channel_count();
        let rgba = widen_to_rgba(&image.data, ch, n);
        let gradient = gradient_by_rows(image.width, image.height, &rgba);
        let edges = edges_from_gradient(&gradient, ch, self.threshold as u8, n);
        image.data = edges;
        Ok(())
    }
}

impl ProcessImage for EdgeDetect {
    open spec fn outcome(&self, before: BufferView) -> Result<BufferView, ImageError> {
        self.edge_spec(before)
    }

    fn process_image(&self, image: &mut PixelBuffer) -> (r: Result<(), ImageError>) {
        self.edge_detect(image)
    }
}

impl BoxBlur {
    pub open spec fn blur_spec(&self, before: BufferView) -> Result<BufferView, ImageError> {
        if self.kernel_width % 2 == 0 {
            Err(ImageError::EvenKernelWidth { kernel_width: self.kernel_width })
        } else {
            Ok(
                with_data(
                    before,
                    box_blur_of(
                        before.data,
                        before.width as int,
                        before.height as int,
                        before.format.channels() as int,
                        self.kernel_width as nat,
                    ),
                ),
            )
        }
    }

    /// Blurs the buffer in place; an even kernel width is refused.
    pub fn box_blur(&self, image: &mut PixelBuffer) -> (r: Result<(), ImageError>)
        requires
            old(image).wf(),
        ensures
            final(image).wf(),
            r is Err <==> self.kernel_width % 2 == 0,
            match self.blur_spec(old(image)@) {
                Ok(v) => r is Ok && final(image)@ == v,
                Err(e) => r == Err::<(), ImageError>(e) && final(image)@ == old(image)@,
            },
    {
        if self.kernel_width % 2 == 0 {
            return Err(ImageError::EvenKernelWidth { kernel_width: self.kernel_width });
        }
        let ch: u32 = image.format.channel_count();
        let blurred = box_blur_exec(&image.data, image.width, image.height, ch, self.kernel_width);
        image.data = blurred;
        Ok(())
    }
}

impl ProcessImage for BoxBlur {
    open spec fn outcome(&self, before: BufferView) -> Result<BufferView, ImageError> {
        self.blur_spec(before)
    }

    fn process_image(&self, image: &mut PixelBuffer) -> (r: Result<(), ImageError>) {
        self.box_blur(image)
    }
}

} // verus!
