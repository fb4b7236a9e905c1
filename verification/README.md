# openocr

A screen-capture OCR tool: a transparent overlay on each monitor lets the user
drag a rectangle; the region is cropped, encoded as PNG and sent to an
OpenAI-compatible vision model, and the text that comes back is shown in a
result window and kept in a history under `~/.openocr`.

- `src/` is the verified library (Verus):
  - `selection` — painting the dimmed overlay, the cleared selection and its ring;
  - `frame` — RGBA captures, cropping and PNG encoding (through the `image` crate);
  - `capture` — when a drag becomes a capture, and the overlay window's state;
  - `ocr` — the request sent to the model, with the image in base64;
  - `history` — history entries, newest first, and fresh screenshot names;
  - `result_view` — the result window's text, image and copy feedback;
  - `settings` — command-line defaults.
- `app/` is the program around it: windows and layout (freya), screen capture,
  the network call, files and JSON.
- `tests/` exercises the library on concrete values.
