use openocr::ocr::prepare_ocr_request;
use openocr::settings::Settings;
use openocr::result_view::ResultView;
use openocr::history::ScreenshotData;

#[test]
fn request_carries_the_image_in_base64() {
    let r = prepare_ocr_request("http://host/v1", "m", b"Man");
    assert_eq!(r.url, "http://host/v1");
    assert_eq!(r.model, "m");
    assert_eq!(r.preamble, "Extract the text from the following image and do not translate it.");
    assert_eq!(r.image_base64, "TWFu");
}

#[test]
fn base64_pads_short_groups() {
    assert_eq!(prepare_ocr_request("", "", b"").image_base64, "");
    assert_eq!(prepare_ocr_request("", "", b"M").image_base64, "TQ==");
    assert_eq!(prepare_ocr_request("", "", b"Ma").image_base64, "TWE=");
    assert_eq!(prepare_ocr_request("", "", &[0xFF, 0xEF, 0x00, 0x3E]).image_base64, "/+8APg==");
    let png_header = [0x89u8, b'P', b'N', b'G', 0x0D, 0x0A, 0x1A, 0x0A];
    assert_eq!(prepare_ocr_request("", "", &png_header).image_base64, "iVBORw0KGgo=");
}

#[test]
fn base64_length_is_four_per_started_triple() {
    for n in 0..20usize {
        let bytes = vec![0xA5u8; n];
        let text = prepare_ocr_request("", "", &bytes).image_base64;
        assert_eq!(text.len(), (n + 2) / 3 * 4);
    }
}

#[test]
fn settings_defaults() {
    let s = Settings::resolve(None, None, true);
    assert_eq!(s.model, "allenai/olmocr-2-7b");
    assert_eq!(s.url, "http://localhost:1234/v1");
    assert!(s.display_screenshot);
}

#[test]
fn settings_given_values_win() {
    let s = Settings::resolve(Some("other".to_string()), Some("http://x:1/v1".to_string()), false);
    assert_eq!(s.model, "other");
    assert_eq!(s.url, "http://x:1/v1");
    assert!(!s.display_screenshot);
}

#[test]
fn result_view_copy_feedback() {
    let mut v = ResultView::new("text".to_string(), vec![1]);
    assert_eq!(v.copy_label(), "Copy to Clipboard");
    assert!(!v.copy_attempted(false));
    assert_eq!(v.copy_label(), "Copy to Clipboard");
    assert!(v.copy_attempted(true));
    assert!(v.copied);
    assert_eq!(v.copy_label(), "Copied!");
    v.copy_report_expired();
    assert_eq!(v.copy_label(), "Copy to Clipboard");
}

#[test]
fn result_view_shows_picked_entry() {
    let mut v = ResultView::new("first".to_string(), vec![1, 2]);
    let e = ScreenshotData { screenshot_path: "/p.png".to_string(), created_at: 5, response: "older".to_string() };
    v.show_entry(&e, vec![7, 8, 9]);
    assert_eq!(v.displayed_text, "older");
    assert_eq!(v.displayed_image, vec![7, 8, 9]);
}
