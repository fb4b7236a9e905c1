//! The dimmed overlay drawn over the screen while a region is being selected.
//!
//! A frame is a row-major buffer of `0xAARRGGBB` pixels, `width` pixels per
//! row. Drawing dims the whole frame, clears the selected rectangle (clipped
//! to the frame) and outlines it with a yellow ring: the ring's box reaches
//! `BORDER_WIDTH` pixels above and left of the selection and, its far edges
//! being inclusive, one pixel more below and right of it.
use vstd::prelude::*;
use vstd::arithmetic::div_mod::{lemma_fundamental_div_mod, lemma_fundamental_div_mod_converse};
use vstd::arithmetic::mul::lemma_mul_inequality;

verus! {

/// Colour of the dimmed part of the screen.
pub const OVERLAY_COLOR: u32 = 0x8800_0000u32;

/// Colour of the ring around the selection.
pub const BORDER_COLOR: u32 = 0xFFFF_FF00u32;

/// Colour of the selected, see-through region.
pub const CLEAR_COLOR: u32 = 0u32;

/// Thickness of the ring around the selection, in pixels.
pub const BORDER_WIDTH: u32 = 2u32;

/// A selected rectangle: left, top, width, height, in pixels.
pub type PixelRect = (u32, u32, u32, u32);

/// The selected rectangle of a drag whose extent has been measured in whole
/// pixels: nothing is selected while the drag has no width or no height.
pub fn rect_from_extent(x: u32, y: u32, width: u32, height: u32) -> (r: Option<PixelRect>)
    ensures
        r == (if width == 0 || height == 0 {
            None
        } else {
            Some((x, y, width, height))
        }),
{
    if width == 0 || height == 0 {
        return None;
    }
    Some((x, y, width, height))
}

pub open spec fn min_int(a: int, b: int) -> int {
    if a <= b { a } else { b }
}

pub open spec fn sat_sub(a: int, b: int) -> int {
    if a >= b { a - b } else { 0 }
}

/// Column of buffer index `i` in a frame `width` pixels wide.
pub open spec fn col_of(i: int, width: int) -> int {
    i % width
}

/// Row of buffer index `i` in a frame `width` pixels wide.
pub open spec fn row_of(i: int, width: int) -> int {
    i / width
}

/// First row that the ring may touch.
pub open spec fn ring_top(r: PixelRect) -> int {
    sat_sub(r.1 as int, BORDER_WIDTH as int)
}

/// Last row that the ring may touch (inclusive), clipped to the frame.
pub open spec fn ring_bottom(r: PixelRect, height: int) -> int {
    min_int(r.1 + r.3 + BORDER_WIDTH, height - 1)
}

/// First column that the ring may touch.
pub open spec fn ring_left(r: PixelRect) -> int {
    sat_sub(r.0 as int, BORDER_WIDTH as int)
}

/// Last column that the ring may touch (inclusive), clipped to the frame.
pub open spec fn ring_right(r: PixelRect, width: int) -> int {
    min_int(r.0 + r.2 + BORDER_WIDTH, width - 1)
}

/// Pixel `(x, y)` lies in the selection, clipped to the frame.
pub open spec fn in_selection(r: PixelRect, width: int, height: int, x: int, y: int) -> bool {
    &&& r.0 <= x < min_int(r.0 + r.2, width)
    &&& r.1 <= y < min_int(r.1 + r.3, height)
}

/// Pixel `(x, y)` lies outside the selection itself.
pub open spec fn outside_rect(r: PixelRect, x: int, y: int) -> bool {
    x < r.0 || x >= r.0 + r.2 || y < r.1 || y >= r.1 + r.3
}

/// Pixel `(x, y)` belongs to the ring drawn around the selection.
pub open spec fn on_ring(r: PixelRect, width: int, height: int, x: int, y: int) -> bool {
    &&& ring_left(r) <= x <= ring_right(r, width)
    &&& ring_top(r) <= y <= ring_bottom(r, height)
    &&& outside_rect(r, x, y)
}

/// The colour that drawing gives to the pixel at buffer index `i`.
pub open spec fn pixel_color(width: u32, height: u32, rect: Option<PixelRect>, i: int) -> u32 {
    match rect {
        None => OVERLAY_COLOR,
        Some(r) => if width == 0 {
            OVERLAY_COLOR
        } else {
            let x = col_of(i, width as int);
            let y = row_of(i, width as int);
            if on_ring(r, width as int, height as int, x, y) {
                BORDER_COLOR
            } else if in_selection(r, width as int, height as int, x, y) {
                CLEAR_COLOR
            } else {
                OVERLAY_COLOR
            }
        },
    }
}

/// The whole buffer after drawing: it depends on the buffer's length only.
pub open spec fn painted(len: nat, width: u32, height: u32, rect: Option<PixelRect>) -> Seq<u32> {
    Seq::new(len, |i: int| pixel_color(width, height, rect, i))
}

/// Drawing neither overflows `u32` arithmetic nor indexes outside the
/// buffer. The ring's bounds are computed as soon as a rectangle is given;
/// its column bounds once one of its rows is visited; and the farthest pixel
/// written is the last one of the ring's box.
pub open spec fn draw_safe(len: nat, width: u32, height: u32, rect: Option<PixelRect>) -> bool {
    match rect {
        None => true,
        Some(r) => {
            &&& r.1 + r.3 + BORDER_WIDTH <= u32::MAX
            &&& height >= 1
            &&& ring_top(r) <= ring_bottom(r, height as int) ==> {
                &&& r.0 + r.2 + BORDER_WIDTH <= u32::MAX
                &&& width >= 1
                &&& ring_left(r) <= ring_right(r, width as int) ==> {
                    &&& ring_bottom(r, height as int) * width + ring_right(r, width as int) <= u32::MAX
                    &&& ring_bottom(r, height as int) * width + ring_right(r, width as int) < len
                }
            }
        },
    }
}

/// Whether `draw` can be called on a buffer of `len` pixels.
pub fn can_draw(len: usize, width: u32, height: u32, rect: Option<PixelRect>) -> (b: bool)
    ensures
        b == draw_safe(len as nat, width, height, rect),
{
    match rect {
        None => true,
        Some(r) => {
            let (sx, sy, sw, sh) = r;
            let bottom_end: u64 = sy as u64 + sh as u64 + BORDER_WIDTH as u64;
            if bottom_end > u32::MAX as u64 || height < 1 {
                return false;
            }
            let top: u64 = if sy >= BORDER_WIDTH { (sy - BORDER_WIDTH) as u64 } else { 0 };
            let bottom: u64 = if bottom_end <= (height - 1) as u64 { bottom_end } else { (height - 1) as u64 };
            if top > bottom {
                return true;
            }
            let right_end: u64 = sx as u64 + sw as u64 + BORDER_WIDTH as u64;
            if right_end > u32::MAX as u64 || width < 1 {
                return false;
            }
            let left: u64 = if sx >= BORDER_WIDTH { (sx - BORDER_WIDTH) as u64 } else { 0 };
            let right: u64 = if right_end <= (width - 1) as u64 { right_end } else { (width - 1) as u64 };
            if left > right {
                return true;
            }
            proof {
                lemma_mul_inequality(bottom as int, u32::MAX as int, width as int);
                lemma_mul_inequality(width as int, u32::MAX as int, u32::MAX as int);
                assert(bottom * width <= u32::MAX * u32::MAX) by (nonlinear_arith)
                    requires bottom <= u32::MAX, width <= u32::MAX;
            }
            let last: u64 = bottom * width as u64 + right;
            last <= u32::MAX as u64 && (last as u128) < len as u128
        },
    }
}

proof fn lemma_index_coords(x: int, y: int, width: int)
    requires
        0 <= x < width,
        0 <= y,
    ensures
        col_of(y * width + x, width) == x,
        row_of(y * width + x, width) == y,
{
    lemma_fundamental_div_mod_converse(y * width + x, width, y, x);
}

proof fn lemma_coords_index(i: int, width: int)
    requires
        0 <= i,
        0 < width,
    ensures
        i == row_of(i, width) * width + col_of(i, width),
        0 <= col_of(i, width) < width,
        0 <= row_of(i, width),
{
    lemma_fundamental_div_mod(i, width);
    assert(width * (i / width) == (i / width) * width) by (nonlinear_arith);
    assert(0 <= i / width) by (nonlinear_arith)
        requires 0 <= i, 0 < width;
}

/// Whether the clearing pass has reached pixel `(x, y)` when it stands at
/// row `cy`, column `cx`.
spec fn before(cx: int, cy: int, x: int, y: int) -> bool {
    y < cy || (y == cy && x < cx)
}

/// Colour of index `i` after the dimming pass and part of the clearing pass.
spec fn cleared_so_far(width: u32, height: u32, r: PixelRect, cx: int, cy: int, i: int) -> u32 {
    let x = col_of(i, width as int);
    let y = row_of(i, width as int);
    if in_selection(r, width as int, height as int, x, y) && before(cx, cy, x, y) {
        CLEAR_COLOR
    } else {
        OVERLAY_COLOR
    }
}

/// Colour of index `i` after the clearing pass and part of the ring pass.
spec fn ringed_so_far(width: u32, height: u32, r: PixelRect, cx: int, cy: int, i: int) -> u32 {
    let x = col_of(i, width as int);
    let y = row_of(i, width as int);
    if on_ring(r, width as int, height as int, x, y) && before(cx, cy, x, y) {
        BORDER_COLOR
    } else if in_selection(r, width as int, height as int, x, y) {
        CLEAR_COLOR
    } else {
        OVERLAY_COLOR
    }
}

/// Sets every pixel of the buffer to `color`.
fn fill(buffer: &mut [u32], color: u32)
    ensures
        final(buffer)@ == Seq::new(old(buffer)@.len(), |i: int| color),
{
    let len = buffer.len();
    let mut k: usize = 0;
    while k < len
        invariant
            len == buffer@.len(),
            len == old(buffer)@.len(),
            k <= len,
            forall|i: int| 0 <= i < k ==> buffer@[i] == color,
        decreases len - k,
    {
        buffer[k] = color;
        k = k + 1;
    }
    assert(buffer@ =~= Seq::new(old(buffer)@.len(), |i: int| color));
}

/// Clears the selection, clipped to the frame, on a dimmed buffer.
fn clear_selection(buffer: &mut [u32], width: u32, height: u32, r: PixelRect)
    requires
        draw_safe(old(buffer)@.len(), width, height, Some(r)),
        width >= 1,
        forall|i: int| 0 <= i < old(buffer)@.len() ==> old(buffer)@[i] == OVERLAY_COLOR,
    ensures
        final(buffer)@.len() == old(buffer)@.len(),
        forall|i: int| 0 <= i < final(buffer)@.len() ==>
            final(buffer)@[i] == (if in_selection(r, width as int, height as int, col_of(i, width as int), row_of(i, width as int)) {
                CLEAR_COLOR
            } else {
                OVERLAY_COLOR
            }),
{
    let (sx, sy, sw, sh) = r;
    let len = buffer.len();
    let y_end = if sy + sh <= height { sy + sh } else { height };
    let mut y = sy;
    while y < y_end
        invariant
            len == buffer@.len(),
            len == old(buffer)@.len(),
            draw_safe(len as nat, width, height, Some(r)),
            width >= 1,
            r == (sx, sy, sw, sh),
            y_end == min_int(sy + sh, height as int),
            sy <= y,
            y <= y_end || y_end < sy,
            forall|i: int| 0 <= i < len ==> buffer@[i] == cleared_so_far(width, height, r, sx as int, y as int, i),
        decreases y_end - y,
    {
        assert(ring_top(r) <= y <= ring_bottom(r, height as int));
        let x_end = if sx + sw <= width { sx + sw } else { width };
        let mut x = sx;
        while x < x_end
            invariant
                len == buffer@.len(),
                draw_safe(len as nat, width, height, Some(r)),
                width >= 1,
                r == (sx, sy, sw, sh),
                y_end == min_int(sy + sh, height as int),
                sy <= y < y_end,
                x_end == min_int(sx + sw, width as int),
                sx <= x,
                x <= x_end || x_end < sx,
                forall|i: int| 0 <= i < len ==> buffer@[i] == cleared_so_far(width, height, r, x as int, y as int, i),
            decreases x_end - x,
        {
            proof {
                assert(ring_left(r) <= x <= ring_right(r, width as int));
                let bottom = ring_bottom(r, height as int);
                let right = ring_right(r, width as int);
                lemma_mul_inequality(y as int, bottom, width as int);
                assert(y * width + x <= bottom * width + right);
            }
            let k = y * width + x;
            let ghost before_write = buffer@;
            buffer[k as usize] = CLEAR_COLOR;
            proof {
                lemma_index_coords(x as int, y as int, width as int);
                assert forall|i: int| 0 <= i < len implies buffer@[i] == cleared_so_far(width, height, r, x + 1, y as int, i) by {
                    lemma_coords_index(i, width as int);
                    if i != k {
                        assert(before_write[i] == buffer@[i]);
                        let cx = col_of(i, width as int);
                        let cy = row_of(i, width as int);
                        if cy == y && cx == x {
                            assert(i == k);
                        }
                    }
                }
            }
            x = x + 1;
        }
        proof {
            assert forall|i: int| 0 <= i < len implies buffer@[i] == cleared_so_far(width, height, r, sx as int, y + 1, i) by {
                lemma_coords_index(i, width as int);
            }
        }
        y = y + 1;
    }
    proof {
        assert forall|i: int| 0 <= i < len implies buffer@[i] == (if in_selection(r, width as int, height as int, col_of(i, width as int), row_of(i, width as int)) {
            CLEAR_COLOR
        } else {
            OVERLAY_COLOR
        }) by {
            lemma_coords_index(i, width as int);
        }
    }
}

/// Draws the ring around the selection on a buffer whose selection has
/// been cleared.
fn draw_ring(buffer: &mut [u32], width: u32, height: u32, r: PixelRect)
    requires
        draw_safe(old(buffer)@.len(), width, height, Some(r)),
        width >= 1,
        forall|i: int| 0 <= i < old(buffer)@.len() ==>
            old(buffer)@[i] == (if in_selection(r, width as int, height as int, col_of(i, width as int), row_of(i, width as int)) {
                CLEAR_COLOR
            } else {
                OVERLAY_COLOR
            }),
    ensures
        final(buffer)@ == painted(old(buffer)@.len(), width, height, Some(r)),
{
    let (sx, sy, sw, sh) = r;
    let len = buffer.len();
    let top = if sy >= BORDER_WIDTH { sy - BORDER_WIDTH } else { 0 };
    let bottom = if sy + sh + BORDER_WIDTH <= height - 1 { sy + sh + BORDER_WIDTH } else { height - 1 };
    let mut y = top;
    proof {
        assert forall|i: int| 0 <= i < len implies buffer@[i] == ringed_so_far(width, height, r, 0, top as int, i) by {
            lemma_coords_index(i, width as int);
        }
    }
    while y <= bottom
        invariant
            len == buffer@.len(),
            len == old(buffer)@.len(),
            draw_safe(len as nat, width, height, Some(r)),
            width >= 1,
            height >= 1,
            r == (sx, sy, sw, sh),
            top == ring_top(r),
            bottom == ring_bottom(r, height as int),
            bottom < u32::MAX,
            top <= y,
            y <= bottom + 1 || bottom < top,
            forall|i: int| 0 <= i < len ==> buffer@[i] == ringed_so_far(width, height, r, 0, y as int, i),
        decreases bottom + 1 - y,
    {
        let left = if sx >= BORDER_WIDTH { sx - BORDER_WIDTH } else { 0 };
        let right = if sx + sw + BORDER_WIDTH <= width - 1 { sx + sw + BORDER_WIDTH } else { width - 1 };
        let mut x = left;
        proof {
            assert forall|i: int| 0 <= i < len implies buffer@[i] == ringed_so_far(width, height, r, left as int, y as int, i) by {
                lemma_coords_index(i, width as int);
            }
        }
        while x <= right
            invariant
                len == buffer@.len(),
                draw_safe(len as nat, width, height, Some(r)),
                width >= 1,
                height >= 1,
                r == (sx, sy, sw, sh),
                top == ring_top(r),
                bottom == ring_bottom(r, height as int),
                top <= y <= bottom,
                left == ring_left(r),
                right == ring_right(r, width as int),
                right < u32::MAX,
                left <= x,
                x <= right + 1 || right < left,
                forall|i: int| 0 <= i < len ==> buffer@[i] == ringed_so_far(width, height, r, x as int, y as int, i),
            decreases right + 1 - x,
        {
            let on_border = x < sx || x >= sx + sw || y < sy || y >= sy + sh;
            let ghost before_write = buffer@;
            if on_border {
                proof {
                    lemma_mul_inequality(y as int, bottom as int, width as int);
                    assert(y * width + x <= bottom * width + right);
                }
                let k = y * width + x;
                buffer[k as usize] = BORDER_COLOR;
                proof {
                    lemma_index_coords(x as int, y as int, width as int);
                    assert forall|i: int| 0 <= i < len implies buffer@[i] == ringed_so_far(width, height, r, x + 1, y as int, i) by {
                        lemma_coords_index(i, width as int);
                        if i != k {
                            assert(before_write[i] == buffer@[i]);
                            let cx = col_of(i, width as int);
                            let cy = row_of(i, width as int);
                            if cy == y && cx == x {
                                assert(i == k);
                            }
                        }
                    }
                }
            } else {
                proof {
                    assert forall|i: int| 0 <= i < len implies buffer@[i] == ringed_so_far(width, height, r, x + 1, y as int, i) by {
                        lemma_coords_index(i, width as int);
                        let cx = col_of(i, width as int);
                        let cy = row_of(i, width as int);
                        if cy == y && cx == x {
                            lemma_index_coords(x as int, y as int, width as int);
                        }
                    }
                }
            }
            x = x + 1;
        }
        proof {
            assert forall|i: int| 0 <= i < len implies buffer@[i] == ringed_so_far(width, height, r, 0, y + 1, i) by {
                lemma_coords_index(i, width as int);
            }
        }
        y = y + 1;
    }
    proof {
        assert forall|i: int| 0 <= i < len implies buffer@[i] == pixel_color(width, height, Some(r), i) by {
            lemma_coords_index(i, width as int);
        }
        assert(buffer@ =~= painted(len as nat, width, height, Some(r)));
    }
}

/// Draws the selection overlay: the whole buffer is dimmed, the selection
/// (clipped to the frame) is cleared, and the ring around it, clipped to
/// the frame, is drawn in `BORDER_COLOR`.
pub fn draw(buffer: &mut [u32], width: u32, height: u32, rect: Option<PixelRect>)
    requires
        draw_safe(old(buffer)@.len(), width, height, rect),
    ensures
        final(buffer)@ == painted(old(buffer)@.len(), width, height, rect),
{
    fill(buffer, OVERLAY_COLOR);
    match rect {
        None => {
            assert(buffer@ =~= painted(old(buffer)@.len(), width, height, rect));
        },
        Some(r) => {
            let (sx, sy, sw, sh) = r;
            if width == 0 {
                // No row of the ring is visible, so nothing but the dimming shows.
                assert(buffer@ =~= painted(old(buffer)@.len(), width, height, rect));
            } else {
                clear_selection(buffer, width, height, r);
                draw_ring(buffer, width, height, r);
            }
        },
    }
}

/// Pixel `(x, y)` of a drawn frame has the ring's colour on the ring, is
/// clear inside the selection and dimmed everywhere else.
pub proof fn drawn_pixel(len: nat, width: u32, height: u32, r: PixelRect, x: int, y: int)
    requires
        0 <= x < width,
        0 <= y,
        y * width + x < len,
    ensures
        painted(len, width, height, Some(r))[y * width + x] == (if on_ring(r, width as int, height as int, x, y) {
            BORDER_COLOR
        } else if in_selection(r, width as int, height as int, x, y) {
            CLEAR_COLOR
        } else {
            OVERLAY_COLOR
        }),
{
    assert(0 <= y * width) by (nonlinear_arith)
        requires 0 <= y, 0 <= width;
    lemma_index_coords(x, y, width as int);
}

/// The selected region is see-through: every pixel of the selection that
/// lies in the frame is clear, and no pixel outside it is.
pub proof fn selection_is_clear(len: nat, width: u32, height: u32, r: PixelRect, x: int, y: int)
    requires
        0 <= x < width,
        0 <= y,
        y * width + x < len,
    ensures
        (painted(len, width, height, Some(r))[y * width + x] == CLEAR_COLOR)
            == in_selection(r, width as int, height as int, x, y),
{
    drawn_pixel(len, width, height, r, x, y);
}

/// A drawn frame uses three colours only, and without a selection it is
/// dimmed everywhere.
pub proof fn drawn_colors(len: nat, width: u32, height: u32, rect: Option<PixelRect>)
    ensures
        forall|i: int| 0 <= i < len ==> {
            let c = #[trigger] painted(len, width, height, rect)[i];
            c == OVERLAY_COLOR || c == CLEAR_COLOR || c == BORDER_COLOR
        },
        rect is None ==> forall|i: int| 0 <= i < len ==> #[trigger] painted(len, width, height, rect)[i] == OVERLAY_COLOR,
{
}

/// Drawing forgets what the buffer held: two buffers of the same length
/// come out equal, and drawing a drawn frame again changes nothing.
pub proof fn draw_forgets_previous(a: Seq<u32>, b: Seq<u32>, width: u32, height: u32, rect: Option<PixelRect>)
    requires
        a.len() == b.len(),
    ensures
        painted(a.len(), width, height, rect) == painted(b.len(), width, height, rect),
        painted(painted(a.len(), width, height, rect).len(), width, height, rect) == painted(a.len(), width, height, rect),
{
}

/// The drawn overlay in plain coordinates: pixel `(x, y)` of the frame is
/// clear inside the selection; has the ring's colour when it lies outside
/// the selection but no more than `BORDER_WIDTH` pixels above or left of it,
/// or `BORDER_WIDTH + 1` pixels below or right of it; and is dimmed
/// everywhere else, as are the buffer's pixels past the frame's last row.
pub proof fn drawn_overlay_geometry(len: nat, width: u32, height: u32, r: PixelRect, x: int, y: int)
    requires
        0 <= x < width,
        0 <= y,
        y * width + x < len,
    ensures
        ({
            let c = painted(len, width, height, Some(r))[y * width + x];
            let inside = r.0 <= x < r.0 + r.2 && r.1 <= y < r.1 + r.3;
            let near = r.0 - 2 <= x <= r.0 + r.2 + 2 && r.1 - 2 <= y <= r.1 + r.3 + 2;
            &&& y < height && inside ==> c == CLEAR_COLOR
            &&& y < height && !inside && near ==> c == BORDER_COLOR
            &&& (y >= height || !near) ==> c == OVERLAY_COLOR
        }),
{
    drawn_pixel(len, width, height, r, x, y);
}

/// Any selection whose ring stays within `u32` can be drawn on a frame
/// buffer of `width * height` pixels, provided the frame has pixels and its
/// indices fit in `u32`.
pub proof fn whole_frame_can_be_drawn(width: u32, height: u32, r: PixelRect)
    requires
        width >= 1,
        height >= 1,
        width * height <= u32::MAX + 1,
        r.0 + r.2 + BORDER_WIDTH <= u32::MAX,
        r.1 + r.3 + BORDER_WIDTH <= u32::MAX,
    ensures
        draw_safe((width * height) as nat, width, height, Some(r)),
{
    let bottom = ring_bottom(r, height as int);
    let right = ring_right(r, width as int);
    if ring_top(r) <= bottom && ring_left(r) <= right {
        lemma_mul_inequality(bottom, height - 1, width as int);
        assert((height - 1) * width + (width - 1) == width * height - 1) by (nonlinear_arith);
    }
}

} // verus!
