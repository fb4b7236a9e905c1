//! Captured screen images as plain RGBA bytes, with cropping and PNG
//! encoding done by the `image` crate.
use vstd::prelude::*;

verus! {

#[verifier::external_type_specification]
#[verifier::external_body]
pub struct ExImageError(image::ImageError);

/// An RGBA image, row-major, four bytes per pixel.
pub struct Frame {
    pub width: u32,
    pub height: u32,
    pub pixels: Vec<u8>,
}

/// Byte offset of channel `c` of pixel `(x, y)` in an image `width` pixels wide.
pub open spec fn byte_index(width: int, x: int, y: int, c: int) -> int {
    (y * width + x) * 4 + c
}

impl Frame {
    /// The pixel bytes hold exactly `width * height` RGBA pixels.
    pub open spec fn wf(&self) -> bool {
        self.pixels@.len() == self.width * self.height * 4
    }

    /// Wraps raw RGBA bytes, provided they hold exactly `width * height` pixels.
    pub fn new(width: u32, height: u32, pixels: Vec<u8>) -> (r: Option<Frame>)
        ensures
            r is Some <==> pixels@.len() == width * height * 4,
            r matches Some(f) ==> f.width == width && f.height == height && f.pixels@ == pixels@,
    {
        proof {
            assert(width * height <= u32::MAX * u32::MAX) by (nonlinear_arith)
                requires width <= u32::MAX, height <= u32::MAX;
        }
        let expected: u128 = width as u128 * height as u128 * 4;
        if pixels.len() as u128 == expected {
            Some(Frame { width, height, pixels })
        } else {
            None
        }
    }
}

/// Left edge of a crop, clamped to the image.
pub open spec fn crop_left(frame_width: u32, x: u32) -> u32 {
    if x <= frame_width { x } else { frame_width }
}

/// Top edge of a crop, clamped to the image.
pub open spec fn crop_top(frame_height: u32, y: u32) -> u32 {
    if y <= frame_height { y } else { frame_height }
}

/// Width of a crop: what was asked for, cut at the image's right edge.
pub open spec fn crop_width(frame_width: u32, x: u32, width: u32) -> u32 {
    let rest = (frame_width - crop_left(frame_width, x)) as u32;
    if width <= rest { width } else { rest }
}

/// Height of a crop: what was asked for, cut at the image's bottom edge.
pub open spec fn crop_height(frame_height: u32, y: u32, height: u32) -> u32 {
    let rest = (frame_height - crop_top(frame_height, y)) as u32;
    if height <= rest { height } else { rest }
}

/// The bytes of the crop of `pixels` (an image `frame_width` wide) whose
/// clamped top-left corner is `(left, top)` and whose size is `w` by `h`.
pub open spec fn crop_bytes(pixels: Seq<u8>, frame_width: u32, left: u32, top: u32, w: u32, h: u32) -> Seq<u8> {
    Seq::new(
        (w * h * 4) as nat,
        |k: int| pixels[byte_index(frame_width as int, left + (k / 4) % (w as int), top + (k / 4) / (w as int), k % 4)],
    )
}

/// Crops an RGBA image with `image::imageops::crop_imm` followed by
/// `SubImage::to_image`. Trusted: as the crate's `crop_dimms` shows, the
/// corner is clamped to the image, the size is cut at the image's edges, and
/// the result copies the covered pixels row by row.
#[verifier::external_body]
fn crop_rgba(frame: &Frame, x: u32, y: u32, width: u32, height: u32) -> (r: Frame)
    requires
        frame.wf(),
    ensures
        r.width == crop_width(frame.width, x, width),
        r.height == crop_height(frame.height, y, height),
        r.pixels@ == crop_bytes(
            frame.pixels@,
            frame.width,
            crop_left(frame.width, x),
            crop_top(frame.height, y),
            crop_width(frame.width, x, width),
            crop_height(frame.height, y, height),
        ),
{
    let image = image::RgbaImage::from_raw(frame.width, frame.height, frame.pixels.clone()).unwrap();
    let out = image::imageops::crop_imm(&image, x, y, width, height).to_image();
    Frame { width: out.width(), height: out.height(), pixels: out.into_raw() }
}

/// The PNG file that the `image` crate writes for an RGBA image, or `None`
/// when it refuses to encode it.
pub uninterp spec fn png_rgba8(width: u32, height: u32, pixels: Seq<u8>) -> Option<Seq<u8>>;

/// Encodes an RGBA image as PNG with `ImageBuffer::write_to` and
/// `ImageFormat::Png`. Trusted: the outcome is a function of the image alone
/// (named `png_rgba8`), and an image without width or height is refused, as
/// the `png` encoder's header check shows. What the bytes are is not stated.
#[verifier::external_body]
fn encode_png_rgba8(frame: &Frame) -> (r: Result<Vec<u8>, image::ImageError>)
    requires
        frame.wf(),
    ensures
        r is Ok <==> png_rgba8(frame.width, frame.height, frame.pixels@) is Some,
        r matches Ok(bytes) ==> png_rgba8(frame.width, frame.height, frame.pixels@) == Some(bytes@),
        frame.width == 0 || frame.height == 0 ==> r is Err,
{
    let image = image::RgbaImage::from_raw(frame.width, frame.height, frame.pixels.clone()).unwrap();
    let mut bytes: Vec<u8> = Vec::new();
    match image.write_to(&mut std::io::Cursor::new(&mut bytes), image::ImageFormat::Png) {
        Ok(()) => Ok(bytes),
        Err(e) => Err(e),
    }
}

impl Frame {
    /// The part of the image covered by the rectangle at `(x, y)` of size
    /// `width` by `height`: the corner is clamped to the image and the size
    /// is cut at its edges.
    pub fn crop(&self, x: u32, y: u32, width: u32, height: u32) -> (r: Frame)
        requires
            self.wf(),
        ensures
            r.wf(),
            r.width == crop_width(self.width, x, width),
            r.height == crop_height(self.height, y, height),
            r.pixels@ == crop_bytes(
                self.pixels@,
                self.width,
                crop_left(self.width, x),
                crop_top(self.height, y),
                r.width,
                r.height,
            ),
            r.width <= width && r.height <= height,
            crop_left(self.width, x) + r.width <= self.width,
            crop_top(self.height, y) + r.height <= self.height,
            forall|i: int, j: int, c: int| 0 <= i < r.width && 0 <= j < r.height && 0 <= c < 4 ==>
                r.pixels@[byte_index(r.width as int, i, j, c)]
                    == self.pixels@[byte_index(self.width as int, crop_left(self.width, x) + i, crop_top(self.height, y) + j, c)],
    {
        let r = crop_rgba(self, x, y, width, height);
        proof {
            let w = r.width as int;
            let h = r.height as int;
            assert forall|i: int, j: int, c: int| 0 <= i < w && 0 <= j < h && 0 <= c < 4 implies
                r.pixels@[byte_index(w, i, j, c)]
                    == self.pixels@[byte_index(self.width as int, crop_left(self.width, x) + i, crop_top(self.height, y) + j, c)] by {
                let k = byte_index(w, i, j, c);
                lemma_pixel_of_byte(w, i, j, c);
                assert(0 <= k < w * h * 4) by (nonlinear_arith)
                    requires k == (j * w + i) * 4 + c, 0 <= i < w, 0 <= j < h, 0 <= c < 4;
            }
        }
        r
    }

    /// This image as a PNG file, or the encoder's own error when it refuses
    /// it (as it does an image without width or height).
    pub fn to_png(&self) -> (r: Result<Vec<u8>, EncodeError>)
        requires
            self.wf(),
        ensures
            r is Ok <==> png_rgba8(self.width, self.height, self.pixels@) is Some,
            r matches Ok(bytes) ==> png_rgba8(self.width, self.height, self.pixels@) == Some(bytes@),
            self.width == 0 || self.height == 0 ==> r is Err,
    {
        match encode_png_rgba8(self) {
            Ok(bytes) => Ok(bytes),
            Err(e) => Err(EncodeError::Png(e)),
        }
    }
}

/// Why a captured region could not be turned into a PNG file.
#[derive(Debug)]
pub enum EncodeError {
    /// The PNG encoder refused the image, for the reason it gives.
    Png(image::ImageError),
}

pub(crate) proof fn lemma_pixel_of_byte(w: int, i: int, j: int, c: int)
    requires
        0 <= i < w,
        0 <= j,
        0 <= c < 4,
    ensures
        byte_index(w, i, j, c) / 4 == j * w + i,
        byte_index(w, i, j, c) % 4 == c,
        (byte_index(w, i, j, c) / 4) % w == i,
        (byte_index(w, i, j, c) / 4) / w == j,
{
    vstd::arithmetic::div_mod::lemma_fundamental_div_mod_converse(byte_index(w, i, j, c), 4, j * w + i, c);
    vstd::arithmetic::div_mod::lemma_fundamental_div_mod_converse(j * w + i, w, j, i);
}

} // verus!
