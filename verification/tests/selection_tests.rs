use openocr::selection::{
    can_draw, draw, rect_from_extent, BORDER_COLOR, CLEAR_COLOR, OVERLAY_COLOR,
};

fn render(width: u32, height: u32, rect: Option<(u32, u32, u32, u32)>) -> Vec<u32> {
    let mut buffer = vec![0x1234_5678u32; (width * height) as usize];
    assert!(can_draw(buffer.len(), width, height, rect));
    draw(&mut buffer, width, height, rect);
    buffer
}

#[test]
fn no_selection_dims_everything() {
    let buffer = render(4, 3, None);
    assert!(buffer.iter().all(|&p| p == OVERLAY_COLOR));
}

#[test]
fn selection_is_cleared_and_ringed() {
    let (w, h) = (10u32, 10u32);
    let buffer = render(w, h, Some((4, 4, 2, 2)));
    for y in 0..h {
        for x in 0..w {
            let p = buffer[(y * w + x) as usize];
            let inside = (4..6).contains(&x) && (4..6).contains(&y);
            let in_box = (2..=8).contains(&x) && (2..=8).contains(&y);
            if inside {
                assert_eq!(p, CLEAR_COLOR, "({x},{y})");
            } else if in_box {
                assert_eq!(p, BORDER_COLOR, "({x},{y})");
            } else {
                assert_eq!(p, OVERLAY_COLOR, "({x},{y})");
            }
        }
    }
}

#[test]
fn ring_is_clipped_at_the_frame_edges() {
    let (w, h) = (7u32, 7u32);
    let buffer = render(w, h, Some((0, 0, 2, 2)));
    // The ring reaches two pixels right of and below the selection only.
    assert_eq!(buffer[0], CLEAR_COLOR);
    assert_eq!(buffer[(1 * w + 1) as usize], CLEAR_COLOR);
    assert_eq!(buffer[2], BORDER_COLOR);
    assert_eq!(buffer[4], BORDER_COLOR);
    assert_eq!(buffer[5], OVERLAY_COLOR);
    assert_eq!(buffer[(3 * w + 3) as usize], BORDER_COLOR);
    assert_eq!(buffer[(5 * w) as usize], OVERLAY_COLOR);
}

#[test]
fn selection_beyond_the_frame_is_clipped() {
    let (w, h) = (6u32, 4u32);
    let buffer = render(w, h, Some((4, 2, 10, 10)));
    assert_eq!(buffer[(2 * w + 4) as usize], CLEAR_COLOR);
    assert_eq!(buffer[(3 * w + 5) as usize], CLEAR_COLOR);
    assert_eq!(buffer[(1 * w + 5) as usize], BORDER_COLOR);
    assert_eq!(buffer[(3 * w + 2) as usize], BORDER_COLOR);
    assert_eq!(buffer[(3 * w + 1) as usize], OVERLAY_COLOR);
}

#[test]
fn drawing_ignores_previous_contents() {
    let rect = Some((1, 1, 2, 1));
    let mut a = vec![0u32; 16];
    let mut b = vec![0xFFFF_FFFFu32; 16];
    draw(&mut a, 4, 4, rect);
    draw(&mut b, 4, 4, rect);
    assert_eq!(a, b);
    let again = a.clone();
    draw(&mut a, 4, 4, rect);
    assert_eq!(a, again);
}

#[test]
fn pixels_past_the_frame_stay_dimmed() {
    let mut buffer = vec![5u32; 12];
    draw(&mut buffer, 3, 3, Some((0, 0, 3, 3)));
    assert!(buffer[9..].iter().all(|&p| p == OVERLAY_COLOR));
    assert_eq!(buffer[4], CLEAR_COLOR);
}

#[test]
fn drawing_safety_is_checked() {
    // A buffer too short for the ring's last pixel.
    assert!(!can_draw(10, 4, 4, Some((0, 0, 1, 1))));
    // No height.
    assert!(!can_draw(16, 4, 0, Some((0, 0, 1, 1))));
    // The ring's bottom would overflow.
    assert!(!can_draw(16, 4, 4, Some((0, u32::MAX - 1, 1, 1))));
    // Without a selection any buffer can be dimmed.
    assert!(can_draw(0, 0, 0, None));
    // A selection far below a zero-width frame touches no row.
    assert!(can_draw(0, 0, 1, Some((0, 5, 1, 1))));
    let mut empty: Vec<u32> = Vec::new();
    draw(&mut empty, 0, 1, Some((0, 5, 1, 1)));
    assert!(empty.is_empty());
}

#[test]
fn rect_needs_width_and_height() {
    assert_eq!(rect_from_extent(3, 4, 5, 6), Some((3, 4, 5, 6)));
    assert_eq!(rect_from_extent(3, 4, 0, 6), None);
    assert_eq!(rect_from_extent(3, 4, 5, 0), None);
}
