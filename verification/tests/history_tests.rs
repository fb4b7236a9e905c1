use openocr::history::{record_screenshot, screenshot_file_name, visible_history, ScreenshotData};

fn entry(path: &str, at: u64, text: &str) -> ScreenshotData {
    ScreenshotData { screenshot_path: path.to_string(), created_at: at, response: text.to_string() }
}

#[test]
fn newest_capture_comes_first() {
    let mut history = vec![entry("/a.png", 1, "a")];
    record_screenshot(&mut history, "/b.png".to_string(), 2, "b");
    record_screenshot(&mut history, "/c.png".to_string(), 3, "c");
    let paths: Vec<&str> = history.iter().map(|e| e.screenshot_path.as_str()).collect();
    assert_eq!(paths, vec!["/c.png", "/b.png", "/a.png"]);
    assert_eq!(history[0].created_at, 3);
    assert_eq!(history[0].response, "c");
}

#[test]
fn only_existing_screenshots_are_visible() {
    let all = vec![entry("/1", 1, "one"), entry("/2", 2, "two"), entry("/3", 3, "three")];
    let visible = visible_history(&all, &vec![true, false, true]);
    let texts: Vec<&str> = visible.iter().map(|e| e.response.as_str()).collect();
    assert_eq!(texts, vec!["one", "three"]);
    assert!(visible_history(&all, &vec![false, false, false]).is_empty());
}

#[test]
fn file_names_are_fresh_uuids() {
    let a = screenshot_file_name();
    let b = screenshot_file_name();
    assert_ne!(a, b);
    for name in [a, b] {
        assert_eq!(name.len(), 40);
        assert!(name.ends_with(".png"));
        let id = &name[..36];
        for (i, c) in id.chars().enumerate() {
            if [8, 13, 18, 23].contains(&i) {
                assert_eq!(c, '-');
            } else {
                assert!(c.is_ascii_digit() || ('a'..='f').contains(&c));
            }
        }
        assert_eq!(id.as_bytes()[14], b'4');
        assert!(b"89ab".contains(&id.as_bytes()[19]));
    }
}

#[test]
fn entries_can_be_copied() {
    let e = entry("/x.png", 7, "seven");
    let d = e.duplicate();
    assert_eq!((d.screenshot_path.as_str(), d.created_at, d.response.as_str()), ("/x.png", 7, "seven"));
}
