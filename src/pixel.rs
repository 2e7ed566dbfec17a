use vstd::prelude::*;

verus! {

/// Pixel layout of a buffer, as carried on the wire by its integer code.
#[derive(Clone, Copy, Debug, PartialEq, Eq, Structural)]
pub enum ImageType {
    Rgba,
    Rgb,
    Gray,
    Grayalpha,
}

/// Why a request was refused.
#[derive(Clone, Copy, Debug, PartialEq, Eq, Structural)]
pub enum ImageError {
    /// The envelope carries no bytes.
    EmptyData,
    /// The format code names none of the known layouts.
    InvalidFormat { code: i32 },
    /// The declared geometry disagrees with the length of the buffer.
    GeometryMismatch { width: u32, height: u32, channel_count: u32, actual_len: usize },
    /// An edge-detection threshold that does not fit in a byte.
    ThresholdOutOfRange { threshold: u32 },
    /// A box-blur kernel of even width.
    EvenKernelWidth { kernel_width: u32 },
    /// A thumbnail request with a zero width or height.
    ThumbnailEmpty { new_width: u32, new_height: u32 },
    /// Thumbnail dimensions larger than those of the source.
    ThumbnailTooLarge { new_width: u32, new_height: u32, width: u32, height: u32 },
    /// The image is too large for the operation to address it.
    TooLarge { width: u32, height: u32 },
}

/// The image envelope as received: geometry, format code and raw bytes.
#[derive(Debug)]
pub struct Image {
    pub width: u32,
    pub height: u32,
    pub image_type: i32,
    pub data: Vec<u8>,
}

/// A validated image: its bytes agree with its geometry and format.
#[derive(Debug)]
pub struct PixelBuffer {
    pub width: u32,
    pub height: u32,
    pub format: ImageType,
    pub data: Vec<u8>,
}

/// The mathematical content of a pixel buffer.
pub ghost struct BufferView {
    pub width: u32,
    pub height: u32,
    pub format: ImageType,
    pub data: Seq<u8>,
}

impl View for PixelBuffer {
    type V = BufferView;

    open spec fn view(&self) -> BufferView {
        BufferView { width: self.width, height: self.height, format: self.format, data: self.data@ }
    }
}

impl ImageType {
    /// Bytes per pixel of the layout.
    pub open spec fn channels(self) -> nat {
        match self {
            ImageType::Rgba => 4,
            ImageType::Rgb => 3,
            ImageType::Gray => 1,
            ImageType::Grayalpha => 2,
        }
    }

    /// The layout that a wire code stands for, if any.
    pub open spec fn from_code(code: i32) -> Option<ImageType> {
        if code == 0 {
            Some(ImageType::Rgba)
        } else if code == 1 {
            Some(ImageType::Rgb)
        } else if code == 2 {
            Some(ImageType::Gray)
        } else if code == 3 {
            Some(ImageType::Grayalpha)
        } else {
            None
        }
    }

    pub fn channel_count(&self) -> (r: u32)
        ensures
            r == self.channels(),
    {
        match self {
            ImageType::Rgba => 4,
            ImageType::Rgb => 3,
            ImageType::Gray => 1,
            ImageType::Grayalpha => 2,
        }
    }

    /// Decodes a wire code; codes outside `0..=3` are refused.
    pub fn try_from(value: i32) -> (r: Result<ImageType, ImageError>)
        ensures
            r == (match ImageType::from_code(value) {
                Some(t) => Ok(t),
                None => Err(ImageError::InvalidFormat { code: value }),
            }),
    {
        match value {
            0 => Ok(ImageType::Rgba),
            1 => Ok(ImageType::Rgb),
            2 => Ok(ImageType::Gray),
            3 => Ok(ImageType::Grayalpha),
            _ => Err(ImageError::InvalidFormat { code: value }),
        }
    }
}

/// Whether channel `c` of a pixel with `ch` channels is an alpha channel.
pub open spec fn is_alpha(c: int, ch: nat) -> bool {
    (ch == 4 && c == 3) || (ch == 2 && c == 1)
}

impl BufferView {
    pub open spec fn pixels(self) -> nat {
        (self.width * self.height) as nat
    }

    pub open spec fn wf(self) -> bool {
        &&& self.width > 0
        &&& self.height > 0
        &&& self.data.len() == self.width * self.height * self.format.channels()
    }
}

impl PixelBuffer {
    pub open spec fn wf(&self) -> bool {
        self@.wf()
    }
}

/// What validating an envelope yields: the checks run in order and the
/// first failing one decides the error.
pub open spec fn validation(width: u32, height: u32, code: i32, data: Seq<u8>) -> Result<
    BufferView,
    ImageError,
> {
    if data.len() == 0 {
        Err(ImageError::EmptyData)
    } else {
        match ImageType::from_code(code) {
            None => Err(ImageError::InvalidFormat { code }),
            Some(f) => if data.len() == width * height * f.channels() {
                Ok(BufferView { width, height, format: f, data })
            } else {
                Err(
                    ImageError::GeometryMismatch {
                        width,
                        height,
                        channel_count: f.channels() as u32,
                        actual_len: data.len() as usize,
                    },
                )
            },
        }
    }
}

impl Image {
    pub open spec fn validated(&self) -> Result<BufferView, ImageError> {
        validation(self.width, self.height, self.image_type, self.data@)
    }
}

/// Checks an envelope against its declared geometry and takes its bytes
/// into a pixel buffer.
pub fn validate(image: Image) -> (r: Result<PixelBuffer, ImageError>)
    ensures
        match image.validated() {
            Ok(v) => r is Ok && r->Ok_0@ == v && r->Ok_0.wf(),
            Err(e) => r == Err::<PixelBuffer, ImageError>(e),
        },
{
    if image.data.len() == 0 {
        return Err(ImageError::EmptyData);
    }
    let format = ImageType::try_from(image.image_type)?;
    let channel_count = format.channel_count();
    let w: u128 = image.width as u128;
    let h: u128 = image.height as u128;
    assert(w * h <= 0xffff_ffff_ffff_ffff) by (nonlinear_arith)
        requires
            w <= 0xffff_ffff,
            h <= 0xffff_ffff,
    ;
    let area: u128 = w * h;
    let ch: u128 = channel_count as u128;
    assert(area * ch <= 4 * 0xffff_ffff_ffff_ffff) by (nonlinear_arith)
        requires
            area <= 0xffff_ffff_ffff_ffff,
            ch <= 4,
    ;
    let expected: u128 = area * ch;
    if expected != image.data.len() as u128 {
        return Err(
            ImageError::GeometryMismatch {
                width: image.width,
                height: image.height,
                channel_count,
                actual_len: image.data.len(),
            },
        );
    }
    proof {
        if image.width == 0 || image.height == 0 {
            assert(image.width * image.height * format.channels() == 0) by (nonlinear_arith)
                requires
                    image.width == 0 || image.height == 0,
            ;
        }
    }
    Ok(PixelBuffer { width: image.width, height: image.height, format, data: image.data })
}

impl PixelBuffer {
    /// Turns the buffer back into an envelope with the same geometry and format.
    pub fn into_image(self) -> (r: Image)
        ensures
            r.width == self.width,
            r.height == self.height,
            ImageType::from_code(r.image_type) == Some(self.format),
            r.data@ == self.data@,
    {
        let image_type: i32 = match self.format {
            ImageType::Rgba => 0,
            ImageType::Rgb => 1,
            ImageType::Gray => 2,
            ImageType::Grayalpha => 3,
        };
        Image { width: self.width, height: self.height, image_type, data: self.data }
    }
}

/// `p * k + c` addresses channel `c` of pixel `p` inside `n` pixels.
pub proof fn lemma_cell_in_bounds(p: int, c: int, n: int, k: int)
    requires
        0 <= p < n,
        0 <= c < k,
    ensures
        0 <= p * k + c < n * k,
{
    assert(0 <= p * k + c < n * k) by (nonlinear_arith)
        requires
            0 <= p < n,
            0 <= c < k,
    ;
}

/// A flat index below `n * k` splits into a pixel below `n` and a channel below `k`.
pub proof fn lemma_split_index(i: int, n: int, k: int)
    requires
        0 <= i < n * k,
        0 < k,
    ensures
        0 <= i / k < n,
        0 <= i % k < k,
        i == (i / k) * k + i % k,
{
    vstd::arithmetic::div_mod::lemma_fundamental_div_mod(i, k);
    vstd::arithmetic::div_mod::lemma_mod_bound(i, k);
    vstd::arithmetic::div_mod::lemma_div_pos_is_pos(i, k);
    let q = i / k;
    let m = i % k;
    assert(q < n) by (nonlinear_arith)
        requires
            i == k * q + m,
            0 <= m,
            i < n * k,
            0 < k,
    ;
    assert(k * q == q * k) by (nonlinear_arith);
}

} // verus!
