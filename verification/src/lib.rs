//! Verified core of a screen-capture OCR tool: selection overlay painting,
//! capture decisions, OCR request preparation, screenshot history and the
//! result window's state.
pub mod settings;
pub mod selection;
pub mod ocr;
pub mod frame;
pub mod capture;
pub mod history;
pub mod result_view;
