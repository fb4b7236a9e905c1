//! The result window's state: which capture and text it shows, and the
//! copy button's feedback.
use vstd::prelude::*;
use crate::history::ScreenshotData;

verus! {

/// What the result window shows.
pub struct ResultView {
    /// The text shown and copied.
    pub displayed_text: String,
    /// The PNG shown next to it; empty when there is none.
    pub displayed_image: Vec<u8>,
    /// The copy button reports a successful copy.
    pub copied: bool,
}

impl ResultView {
    /// The window as it opens, on the last capture's text and image.
    pub fn new(text: String, image: Vec<u8>) -> (v: ResultView)
        ensures
            v.displayed_text == text,
            v.displayed_image@ == image@,
            !v.copied,
    {
        ResultView { displayed_text: text, displayed_image: image, copied: false }
    }

    /// A history entry was picked: its text is shown with `image`, the
    /// content of its screenshot file (empty when it could not be read).
    pub fn show_entry(&mut self, entry: &ScreenshotData, image: Vec<u8>)
        ensures
            final(self).displayed_text == entry.response,
            final(self).displayed_image@ == image@,
            final(self).copied == old(self).copied,
    {
        self.displayed_text = entry.response.clone();
        self.displayed_image = image;
    }

    /// The displayed text was handed to the clipboard, which accepted it or
    /// not. On success the button reports it and the result is true: the
    /// report is to be withdrawn a moment later.
    pub fn copy_attempted(&mut self, accepted: bool) -> (withdraw_later: bool)
        ensures
            withdraw_later == accepted,
            final(self).copied == (accepted || old(self).copied),
            final(self).displayed_text == old(self).displayed_text,
            final(self).displayed_image@ == old(self).displayed_image@,
    {
        if accepted {
            self.copied = true;
        }
        accepted
    }

    /// The moment has passed: the button no longer reports the copy.
    pub fn copy_report_expired(&mut self)
        ensures
            !final(self).copied,
            final(self).displayed_text == old(self).displayed_text,
            final(self).displayed_image@ == old(self).displayed_image@,
    {
        self.copied = false;
    }

    /// The copy button's label.
    pub fn copy_label(&self) -> (label: &'static str)
        ensures
            label@ == (if self.copied { "Copied!"@ } else { "Copy to Clipboard"@ }),
    {
        if self.copied {
            "Copied!"
        } else {
            "Copy to Clipboard"
        }
    }
}

} // verus!
