use openocr::capture::{capture_region, prepare_capture, CaptureRegion, Overlay, MIN_CAPTURE_SIDE};
use openocr::frame::{EncodeError, Frame};

fn gradient(width: u32, height: u32) -> Frame {
    let mut pixels = Vec::new();
    for y in 0..height {
        for x in 0..width {
            pixels.extend_from_slice(&[x as u8, y as u8, (x + y) as u8, 255]);
        }
    }
    Frame::new(width, height, pixels).unwrap()
}

#[test]
fn frame_needs_exact_pixel_count() {
    assert!(Frame::new(2, 2, vec![0; 16]).is_some());
    assert!(Frame::new(2, 2, vec![0; 15]).is_none());
    assert!(Frame::new(2, 2, vec![0; 17]).is_none());
}

#[test]
fn crop_copies_the_covered_pixels() {
    let frame = gradient(5, 4);
    let c = frame.crop(1, 2, 3, 2);
    assert_eq!((c.width, c.height), (3, 2));
    assert_eq!(&c.pixels[0..4], &[1, 2, 3, 255]);
    assert_eq!(&c.pixels[(1 * 3 + 2) * 4..(1 * 3 + 2) * 4 + 4], &[3, 3, 6, 255]);
}

#[test]
fn crop_is_cut_at_the_edges() {
    let frame = gradient(5, 4);
    let c = frame.crop(3, 1, 10, 10);
    assert_eq!((c.width, c.height), (2, 3));
    assert_eq!(c.pixels.len(), 2 * 3 * 4);
    let outside = frame.crop(9, 9, 3, 3);
    assert_eq!((outside.width, outside.height), (0, 0));
    assert!(outside.pixels.is_empty());
}

#[test]
fn empty_image_is_not_encoded() {
    let frame = Frame::new(0, 3, Vec::new()).unwrap();
    match frame.to_png() {
        Err(EncodeError::Png(e)) => assert!(e.to_string().contains("Zero width not allowed"), "{e}"),
        Ok(_) => panic!("an image without width was encoded"),
    }
}

#[test]
fn small_drags_are_ignored() {
    assert_eq!(MIN_CAPTURE_SIDE, 10);
    assert_eq!(capture_region(1, 2, 9, 50), None);
    assert_eq!(capture_region(1, 2, 50, 9), None);
    assert_eq!(
        capture_region(1, 2, 10, 10),
        Some(CaptureRegion { x: 1, y: 2, width: 10, height: 10 })
    );
}

#[test]
fn capture_is_a_png_of_the_region() {
    let frame = gradient(30, 20);
    let region = CaptureRegion { x: 5, y: 4, width: 12, height: 10 };
    let png = prepare_capture(&frame, &region).unwrap();
    assert_eq!(&png[0..8], &[0x89, b'P', b'N', b'G', 0x0D, 0x0A, 0x1A, 0x0A]);
    let decoded = image::load_from_memory(&png).unwrap().to_rgba8();
    assert_eq!(decoded.dimensions(), (12, 10));
    assert_eq!(decoded.get_pixel(0, 0).0, [5, 4, 9, 255]);
    assert_eq!(decoded.get_pixel(11, 9).0, [16, 13, 29, 255]);
}

#[test]
fn capture_outside_the_screen_fails() {
    let frame = gradient(30, 20);
    let region = CaptureRegion { x: 40, y: 4, width: 12, height: 10 };
    assert!(matches!(prepare_capture(&frame, &region), Err(EncodeError::Png(_))));
}

#[test]
fn overlay_flow() {
    let mut o = Overlay::new(true);
    assert!(!o.selecting && !o.result_opened && o.text.is_empty() && o.screenshot.is_empty());
    o.press();
    assert!(o.selecting);
    assert_eq!(o.release(3, 4, 5, 100), None);
    assert!(!o.selecting);
    o.press();
    assert_eq!(
        o.release(3, 4, 20, 30),
        Some(CaptureRegion { x: 3, y: 4, width: 20, height: 30 })
    );
    assert!(o.recognized("hello".to_string(), vec![1, 2, 3]));
    assert_eq!(o.text, "hello");
    assert_eq!(o.screenshot, vec![1, 2, 3]);
    o.result_window_opened();
    assert!(!o.recognized("again".to_string(), vec![4]));
    assert_eq!(o.text, "again");
    assert_eq!(o.screenshot, vec![4]);
}

#[test]
fn hidden_screenshots_stay_hidden() {
    let mut o = Overlay::new(false);
    assert!(o.recognized("text".to_string(), vec![9, 9]));
    assert_eq!(o.text, "text");
    assert!(o.screenshot.is_empty());
}
