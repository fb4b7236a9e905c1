//! Command-line settings with their defaults.
use vstd::prelude::*;

verus! {

/// The model asked to read the text when none is given.
pub open spec fn default_model_spec() -> Seq<char> {
    "allenai/olmocr-2-7b"@
}

/// The address of the OpenAI-compatible API when none is given.
pub open spec fn default_url_spec() -> Seq<char> {
    "http://localhost:1234/v1"@
}

/// The resolved settings of one run.
pub struct Settings {
    pub model: String,
    pub url: String,
    pub display_screenshot: bool,
}

impl Settings {
    /// Fills in the defaults for the options that were not given.
    pub fn resolve(model: Option<String>, url: Option<String>, display_screenshot: bool) -> (s: Settings)
        ensures
            s.model@ == (match model {
                Some(m) => m@,
                None => default_model_spec(),
            }),
            s.url@ == (match url {
                Some(u) => u@,
                None => default_url_spec(),
            }),
            s.display_screenshot == display_screenshot,
    {
        let model = match model {
            Some(m) => m,
            None => String::from_str("allenai/olmocr-2-7b"),
        };
        let url = match url {
            Some(u) => u,
            None => String::from_str("http://localhost:1234/v1"),
        };
        Settings { model, url, display_screenshot }
    }
}

} // verus!
