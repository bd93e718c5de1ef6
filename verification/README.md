# image_tool

The verified core of a small desktop tool that stamps a text watermark onto
images and re-encodes (compresses) them.

- `src/color.rs` – `#RRGGBB` colour parsing.
- `src/text.rs` – white space, lower-casing, text comparison.
- `src/paths.rs` – names of the files the tool writes.
- `src/layout.rs` – where the watermark text goes (anchored or tiled).
- `src/decode.rs` – decoding input files into RGBA pixels.
- `src/encode.rs` – choice of encoder and encoding of pixel buffers.
- `src/font.rs` – choosing the font among candidate font files.
- `src/jobs.rs` – per-file plans of a watermark or compression batch.
- `app/` – the Tauri commands, file reading and writing, text rendering and the
  floating-point pixel work, around the library.
