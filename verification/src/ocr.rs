//! The request that asks a vision model to read the text of a screenshot.
//!
//! The screenshot travels as standard base64 (RFC 4648, with padding); the
//! network exchange itself happens outside this crate.
use vstd::prelude::*;
use base64::Engine;

verus! {

/// The instruction given to the model before the image.
pub open spec fn preamble_spec() -> Seq<char> {
    "Extract the text from the following image and do not translate it."@
}

/// The standard base64 alphabet.
pub open spec fn base64_alphabet() -> Seq<char> {
    "ABCDEFGHIJKLMNOPQRSTUVWXYZabcdefghijklmnopqrstuvwxyz0123456789+/"@
}

/// The base64 digit for a six-bit value.
pub open spec fn b64_digit(v: int) -> char {
    base64_alphabet()[v]
}

/// Standard base64 with padding: every three bytes become four digits, and
/// a last group of one or two bytes is padded with `=` to four characters.
pub open spec fn base64_standard(b: Seq<u8>) -> Seq<char>
    decreases b.len(),
{
    if b.len() == 0 {
        Seq::empty()
    } else if b.len() == 1 {
        seq![b64_digit(b[0] as int / 4), b64_digit((b[0] as int % 4) * 16), '=', '=']
    } else if b.len() == 2 {
        seq![
            b64_digit(b[0] as int / 4),
            b64_digit((b[0] as int % 4) * 16 + b[1] as int / 16),
            b64_digit((b[1] as int % 16) * 4),
            '=',
        ]
    } else {
        seq![
            b64_digit(b[0] as int / 4),
            b64_digit((b[0] as int % 4) * 16 + b[1] as int / 16),
            b64_digit((b[1] as int % 16) * 4 + b[2] as int / 64),
            b64_digit(b[2] as int % 64),
        ] + base64_standard(b.skip(3))
    }
}

/// Length of the padded base64 text of `n` bytes.
pub open spec fn base64_len(n: int) -> int {
    (n + 2) / 3 * 4
}

/// Encodes bytes as standard padded base64 with the `base64` crate
/// (`general_purpose::STANDARD.encode`). Trusted: the result is the
/// RFC 4648 standard encoding with padding. The crate panics when the
/// encoded length does not fit in `usize`, which `requires` excludes.
#[verifier::external_body]
fn encode_base64(bytes: &[u8]) -> (s: String)
    requires
        base64_len(bytes@.len() as int) <= usize::MAX,
    ensures
        s@ == base64_standard(bytes@),
{
    base64::engine::general_purpose::STANDARD.encode(bytes)
}

/// A request to read the text in a PNG screenshot.
pub struct OcrRequest {
    /// Base address of the OpenAI-compatible API.
    pub url: String,
    /// The model asked to read the text.
    pub model: String,
    /// The instruction sent before the image.
    pub preamble: String,
    /// The PNG screenshot, in standard base64.
    pub image_base64: String,
}

/// Prepares the request for a PNG screenshot: the image is encoded as
/// standard base64 and sent after the fixed instruction.
pub fn prepare_ocr_request(url: &str, model: &str, png_bytes: &[u8]) -> (r: OcrRequest)
    requires
        base64_len(png_bytes@.len() as int) <= usize::MAX,
    ensures
        r.url@ == url@,
        r.model@ == model@,
        r.preamble@ == preamble_spec(),
        r.image_base64@ == base64_standard(png_bytes@),
{
    let image_base64 = encode_base64(png_bytes);
    OcrRequest {
        url: String::from_str(url),
        model: String::from_str(model),
        preamble: String::from_str("Extract the text from the following image and do not translate it."),
        image_base64,
    }
}

/// Base64 text is four characters for every started group of three bytes.
pub proof fn base64_length(b: Seq<u8>)
    ensures
        base64_standard(b).len() == base64_len(b.len() as int),
    decreases b.len(),
{
    if b.len() >= 3 {
        base64_length(b.skip(3));
    }
}

/// Two requests prepared from the same address, model and PNG bytes carry
/// the same address, model, instruction and image.
pub proof fn same_inputs_same_request(
    url: Seq<char>,
    model: Seq<char>,
    png: Seq<u8>,
    a: OcrRequest,
    b: OcrRequest,
)
    requires
        a.url@ == url && a.model@ == model && a.preamble@ == preamble_spec()
            && a.image_base64@ == base64_standard(png),
        b.url@ == url && b.model@ == model && b.preamble@ == preamble_spec()
            && b.image_base64@ == base64_standard(png),
    ensures
        a.url@ == b.url@,
        a.model@ == b.model@,
        a.preamble@ == b.preamble@,
        a.image_base64@ == b.image_base64@,
{
}

} // verus!
