//! The overlay window's decisions: when a drag becomes a capture, what is
//! sent for recognition, and what the window shows once the text is back.
use vstd::prelude::*;
use crate::frame::{Frame, EncodeError, crop_left, crop_top, crop_width, crop_height, crop_bytes, png_rgba8, byte_index, lemma_pixel_of_byte};

verus! {

/// Drags narrower or lower than this many pixels are ignored.
pub const MIN_CAPTURE_SIDE: u32 = 10u32;

/// The screen region to capture, in whole pixels.
#[derive(Debug, Clone, Copy, PartialEq, Eq, Structural)]
pub struct CaptureRegion {
    pub x: u32,
    pub y: u32,
    pub width: u32,
    pub height: u32,
}

/// The region that a finished drag captures: none for a drag narrower or
/// lower than `MIN_CAPTURE_SIDE` pixels.
pub fn capture_region(x: u32, y: u32, width: u32, height: u32) -> (r: Option<CaptureRegion>)
    ensures
        r is Some <==> (width >= MIN_CAPTURE_SIDE && height >= MIN_CAPTURE_SIDE),
        r matches Some(c) ==> c == (CaptureRegion { x, y, width, height }),
{
    if width < MIN_CAPTURE_SIDE || height < MIN_CAPTURE_SIDE {
        return None;
    }
    Some(CaptureRegion { x, y, width, height })
}

/// The RGBA bytes of the part of `frame` that `region` covers.
pub open spec fn region_bytes(frame: &Frame, region: CaptureRegion) -> Seq<u8> {
    crop_bytes(
        frame.pixels@,
        frame.width,
        crop_left(frame.width, region.x),
        crop_top(frame.height, region.y),
        crop_width(frame.width, region.x, region.width),
        crop_height(frame.height, region.y, region.height),
    )
}

/// The PNG file of the part of `frame` that `region` covers, as the
/// encoder writes it, or `None` when it refuses.
pub open spec fn region_png(frame: &Frame, region: CaptureRegion) -> Option<Seq<u8>> {
    png_rgba8(
        crop_width(frame.width, region.x, region.width),
        crop_height(frame.height, region.y, region.height),
        region_bytes(frame, region),
    )
}

/// Crops a captured screen to the selected region and encodes it as PNG.
/// A region that lies entirely outside the screen leaves nothing to encode
/// and fails.
pub fn prepare_capture(frame: &Frame, region: &CaptureRegion) -> (r: Result<Vec<u8>, EncodeError>)
    requires
        frame.wf(),
    ensures
        r is Ok <==> region_png(frame, *region) is Some,
        r matches Ok(bytes) ==> region_png(frame, *region) == Some(bytes@),
        r matches Ok(bytes) ==> png_rgba8(
            crop_width(frame.width, region.x, region.width),
            crop_height(frame.height, region.y, region.height),
            crop_bytes(
                frame.pixels@,
                frame.width,
                crop_left(frame.width, region.x),
                crop_top(frame.height, region.y),
                crop_width(frame.width, region.x, region.width),
                crop_height(frame.height, region.y, region.height),
            ),
        ) == Some(bytes@),
        region.x >= frame.width || region.y >= frame.height ==> r is Err,
{
    let cropped = frame.crop(region.x, region.y, region.width, region.height);
    cropped.to_png()
}

/// A region that lies inside the screen is captured whole: the PNG is that
/// of an image exactly `region.width` by `region.height` pixels whose pixel
/// `(i, j)` is the screen's pixel `(region.x + i, region.y + j)`.
pub proof fn capture_of_inside_region(frame: &Frame, region: CaptureRegion)
    requires
        frame.wf(),
        region.x + region.width <= frame.width,
        region.y + region.height <= frame.height,
    ensures
        region_png(frame, region) == png_rgba8(region.width, region.height, region_bytes(frame, region)),
        region_bytes(frame, region).len() == region.width * region.height * 4,
        forall|i: int, j: int, c: int| 0 <= i < region.width && 0 <= j < region.height && 0 <= c < 4 ==>
            region_bytes(frame, region)[byte_index(region.width as int, i, j, c)]
                == frame.pixels@[byte_index(frame.width as int, region.x + i, region.y + j, c)],
{
    let w = region.width as int;
    let h = region.height as int;
    assert forall|i: int, j: int, c: int| 0 <= i < w && 0 <= j < h && 0 <= c < 4 implies
        region_bytes(frame, region)[byte_index(w, i, j, c)]
            == frame.pixels@[byte_index(frame.width as int, region.x + i, region.y + j, c)] by {
        lemma_pixel_of_byte(w, i, j, c);
        let k = byte_index(w, i, j, c);
        assert(0 <= k < w * h * 4) by (nonlinear_arith)
            requires k == (j * w + i) * 4 + c, 0 <= i < w, 0 <= j < h, 0 <= c < 4;
    }
}

/// What the overlay window holds between events.
pub struct Overlay {
    /// A drag is in progress, so the selection rectangle is shown.
    pub selecting: bool,
    /// The result window has been opened.
    pub result_opened: bool,
    /// The text read from the last capture.
    pub text: String,
    /// The PNG of the last capture, shown in the result window; empty
    /// until one is shown.
    pub screenshot: Vec<u8>,
    /// Whether captures are shown next to their text.
    pub display_screenshot: bool,
}

impl Overlay {
    /// The overlay before any drag.
    pub fn new(display_screenshot: bool) -> (o: Overlay)
        ensures
            !o.selecting,
            !o.result_opened,
            o.text@ == Seq::<char>::empty(),
            o.screenshot@ == Seq::<u8>::empty(),
            o.display_screenshot == display_screenshot,
    {
        Overlay {
            selecting: false,
            result_opened: false,
            text: String::new(),
            screenshot: Vec::new(),
            display_screenshot,
        }
    }

    /// A mouse button went down: a drag starts.
    pub fn press(&mut self)
        ensures
            final(self).selecting,
            final(self).result_opened == old(self).result_opened,
            final(self).text@ == old(self).text@,
            final(self).screenshot@ == old(self).screenshot@,
            final(self).display_screenshot == old(self).display_screenshot,
    {
        self.selecting = true;
    }

    /// The mouse button went up on a drag measured as `width` by `height`
    /// pixels from `(x, y)`: the drag ends, and the region to capture, if
    /// the drag was large enough, is returned.
    pub fn release(&mut self, x: u32, y: u32, width: u32, height: u32) -> (r: Option<CaptureRegion>)
        ensures
            !final(self).selecting,
            final(self).result_opened == old(self).result_opened,
            final(self).text@ == old(self).text@,
            final(self).screenshot@ == old(self).screenshot@,
            final(self).display_screenshot == old(self).display_screenshot,
            r is Some <==> (width >= MIN_CAPTURE_SIDE && height >= MIN_CAPTURE_SIDE),
            r matches Some(c) ==> c == (CaptureRegion { x, y, width, height }),
    {
        self.selecting = false;
        capture_region(x, y, width, height)
    }

    /// The text of a capture came back: it is shown, together with the
    /// capture when captures are displayed. The result is whether the result
    /// window still has to be opened.
    pub fn recognized(&mut self, text: String, png: Vec<u8>) -> (open: bool)
        ensures
            final(self).text@ == text@,
            final(self).screenshot@ == (if old(self).display_screenshot { png@ } else { old(self).screenshot@ }),
            final(self).selecting == old(self).selecting,
            final(self).result_opened == old(self).result_opened,
            final(self).display_screenshot == old(self).display_screenshot,
            open == !old(self).result_opened,
    {
        self.text = text;
        if self.display_screenshot {
            self.screenshot = png;
        }
        !self.result_opened
    }

    /// The result window has been opened.
    pub fn result_window_opened(&mut self)
        ensures
            final(self).result_opened,
            final(self).selecting == old(self).selecting,
            final(self).text@ == old(self).text@,
            final(self).screenshot@ == old(self).screenshot@,
            final(self).display_screenshot == old(self).display_screenshot,
    {
        self.result_opened = true;
    }
}

} // verus!
