//! Encoding pixel buffers into the file formats the tool writes.

use vstd::prelude::*;
use vstd::string::*;
use crate::paths::{extension_of, path_extension};
use crate::text::{ascii_lower, lower_text, lowercase, same_text};
use vstd::utf8::is_ascii_chars;

verus! {

/// The encoder chosen for an output file.
#[derive(Clone, Copy, Debug, PartialEq, Eq, Structural)]
pub enum OutputFormat {
    Jpeg,
    WebP,
    Bmp,
    Png,
}

/// How the bytes of a pixel buffer are laid out.
#[derive(Clone, Copy, Debug, PartialEq, Eq, Structural)]
pub enum PixelLayout {
    Rgb,
    Rgba,
}

pub open spec fn bytes_per_pixel(layout: PixelLayout) -> int {
    match layout {
        PixelLayout::Rgb => 3,
        PixelLayout::Rgba => 4,
    }
}

/// The encoder for a (lower-case) file extension: `jpg`/`jpeg`, `webp` and
/// `bmp` have their own, everything else is written as PNG.
pub open spec fn format_for_extension(ext: Seq<char>) -> OutputFormat {
    if ext == "jpg"@ || ext == "jpeg"@ {
        OutputFormat::Jpeg
    } else if ext == "webp"@ {
        OutputFormat::WebP
    } else if ext == "bmp"@ {
        OutputFormat::Bmp
    } else {
        OutputFormat::Png
    }
}

/// The lower-cased extension of a path, `png` when it has none.
pub open spec fn lowercase_extension_or_png(path: Seq<char>) -> Seq<char> {
    match extension_of(path) {
        Some(e) => lower_text(e),
        None => "png"@,
    }
}

/// The encoder used for a file written at `path`.
pub open spec fn output_format_spec(path: Seq<char>) -> OutputFormat {
    format_for_extension(lowercase_extension_or_png(path))
}

pub open spec fn failure_prefix(format: OutputFormat) -> Seq<char> {
    match format {
        OutputFormat::Jpeg => "JPEG 编码失败："@,
        OutputFormat::WebP => "WebP 编码失败："@,
        OutputFormat::Bmp => "BMP 编码失败："@,
        OutputFormat::Png => "PNG 编码失败："@,
    }
}

/// Sizes a JPEG can have.
pub open spec fn jpeg_size_ok(width: u32, height: u32) -> bool {
    1 <= width <= 65535 && 1 <= height <= 65535
}

/// Whether an RGBA image of this size can be written in `format`: never as
/// JPEG; as WebP up to 16384 pixels a side; as BMP while the file stays
/// within `u32::MAX` bytes; as PNG whenever neither side is zero.
pub open spec fn rgba_encoding_succeeds(format: OutputFormat, width: u32, height: u32) -> bool {
    match format {
        OutputFormat::Jpeg => false,
        OutputFormat::WebP => 1 <= width <= 16384 && 1 <= height <= 16384,
        OutputFormat::Bmp => width * 4 <= u32::MAX && 122 + width * 4 * height <= u32::MAX,
        OutputFormat::Png => 1 <= width && 1 <= height,
    }
}

/// The error text (`Display` of the `image::ImageError`) with which the
/// JPEG encoder refuses a buffer (RGBA when `rgba`, else RGB).
pub uninterp spec fn jpeg_error_text(pixels: Seq<u8>, width: u32, height: u32, quality: u8, rgba: bool) -> Seq<char>;

/// The error text with which the PNG encoder refuses an RGBA buffer.
pub uninterp spec fn png_error_text(pixels: Seq<u8>, width: u32, height: u32) -> Seq<char>;

/// The error text with which the WebP encoder refuses an RGBA buffer.
pub uninterp spec fn webp_error_text(pixels: Seq<u8>, width: u32, height: u32) -> Seq<char>;

/// The error text with which the BMP encoder refuses an RGBA buffer.
pub uninterp spec fn bmp_error_text(pixels: Seq<u8>, width: u32, height: u32) -> Seq<char>;

/// What writing an RGBA image in `format` gives: the file's bytes, or the
/// message `"<FORMAT> 编码失败：<encoder error>"`.  Only JPEG uses `quality`.
pub open spec fn rgba_encoding(
    pixels: Seq<u8>,
    width: u32,
    height: u32,
    format: OutputFormat,
    quality: u8,
) -> Result<Seq<u8>, Seq<char>> {
    let failed = Err(
        failure_prefix(format) + match format {
            OutputFormat::Jpeg => jpeg_error_text(pixels, width, height, quality, true),
            OutputFormat::WebP => webp_error_text(pixels, width, height),
            OutputFormat::Bmp => bmp_error_text(pixels, width, height),
            OutputFormat::Png => png_error_text(pixels, width, height),
        },
    );
    if !rgba_encoding_succeeds(format, width, height) {
        failed
    } else {
        match format {
            OutputFormat::Jpeg => failed,
            OutputFormat::WebP => Ok(webp_rgba_bytes(pixels, width, height)),
            OutputFormat::Bmp => Ok(bmp_rgba_bytes(pixels, width, height)),
            OutputFormat::Png => Ok(png_rgba_bytes(pixels, width, height)),
        }
    }
}

/// What writing an RGB image as JPEG gives: the file's bytes, or
/// `"JPEG 编码失败：<encoder error>"` for a size JPEG cannot take.
pub open spec fn rgb_jpeg_encoding(pixels: Seq<u8>, width: u32, height: u32, quality: u8) -> Result<
    Seq<u8>,
    Seq<char>,
> {
    if jpeg_size_ok(width, height) {
        Ok(jpeg_rgb_bytes(pixels, width, height, quality))
    } else {
        Err(failure_prefix(OutputFormat::Jpeg) + jpeg_error_text(pixels, width, height, quality, false))
    }
}

pub open spec fn result_text(r: Result<Vec<u8>, String>) -> Result<Seq<u8>, Seq<char>> {
    match r {
        Ok(b) => Ok(b@),
        Err(m) => Err(m@),
    }
}

/// The JPEG file that `JpegEncoder` makes of an RGB buffer.
pub uninterp spec fn jpeg_rgb_bytes(pixels: Seq<u8>, width: u32, height: u32, quality: u8) -> Seq<u8>;

/// The PNG file that `PngEncoder` makes of an RGBA buffer.
pub uninterp spec fn png_rgba_bytes(pixels: Seq<u8>, width: u32, height: u32) -> Seq<u8>;

/// The lossless WebP file that `WebPEncoder` makes of an RGBA buffer.
pub uninterp spec fn webp_rgba_bytes(pixels: Seq<u8>, width: u32, height: u32) -> Seq<u8>;

/// The BMP file that `BmpEncoder` makes of an RGBA buffer.
pub uninterp spec fn bmp_rgba_bytes(pixels: Seq<u8>, width: u32, height: u32) -> Seq<u8>;

/// Calls `ImageEncoder::write_image` of `image::codecs::jpeg::JpegEncoder`
/// (made by `new_with_quality`) into memory.  Trusted: the encoder panics
/// unless the buffer holds exactly `width * height` pixels, hence the
/// `requires`; it refuses RGBA input (`Unsupported`) and sizes outside
/// `1..=65535` (`InvalidSize`); otherwise it only writes to the in-memory
/// buffer, which cannot fail, so it succeeds.  The bytes, and the text
/// (`Display`) of the error, are functions of the arguments.
#[verifier::external_body]
fn jpeg_encode(pixels: &[u8], width: u32, height: u32, quality: u8, layout: PixelLayout) -> (r:
    Result<Vec<u8>, String>)
    requires
        pixels@.len() == width * height * bytes_per_pixel(layout),
    ensures
        r is Ok <==> (layout == PixelLayout::Rgb && jpeg_size_ok(width, height)),
        r matches Ok(bytes) ==> bytes@ == jpeg_rgb_bytes(pixels@, width, height, quality),
        r matches Err(text) ==> text@ == jpeg_error_text(
            pixels@,
            width,
            height,
            quality,
            layout == PixelLayout::Rgba,
        ),
{
    let color = match layout {
        PixelLayout::Rgb => image::ExtendedColorType::Rgb8,
        PixelLayout::Rgba => image::ExtendedColorType::Rgba8,
    };
    let mut out = Vec::new();
    let encoder = image::codecs::jpeg::JpegEncoder::new_with_quality(&mut out, quality);
    match image::ImageEncoder::write_image(encoder, pixels, width, height, color) {
        Ok(()) => Ok(out),
        Err(e) => Err(e.to_string()),
    }
}

/// Calls `ImageEncoder::write_image` of `image::codecs::png::PngEncoder`
/// on an RGBA buffer, into memory.  Trusted: it panics unless the buffer
/// holds exactly `width * height` pixels; the `png` crate refuses a zero
/// width or height, and otherwise only writes to the in-memory buffer, so
/// it succeeds.  The bytes, and the text (`Display`) of the error, are
/// functions of the pixels and size.
#[verifier::external_body]
fn png_encode(pixels: &[u8], width: u32, height: u32) -> (r: Result<Vec<u8>, String>)
    requires
        pixels@.len() == width * height * 4,
    ensures
        r is Ok <==> rgba_encoding_succeeds(OutputFormat::Png, width, height),
        r matches Ok(bytes) ==> bytes@ == png_rgba_bytes(pixels@, width, height),
        r matches Err(text) ==> text@ == png_error_text(pixels@, width, height),
{
    let mut out = Vec::new();
    let encoder = image::codecs::png::PngEncoder::new(&mut out);
    match image::ImageEncoder::write_image(
        encoder,
        pixels,
        width,
        height,
        image::ExtendedColorType::Rgba8,
    ) {
        Ok(()) => Ok(out),
        Err(e) => Err(e.to_string()),
    }
}

/// Calls `WebPEncoder::encode` of `image::codecs::webp` (made by
/// `new_lossless`) on an RGBA buffer, into memory.  Trusted: it panics
/// unless the buffer holds exactly `width * height` pixels; `image-webp`
/// refuses sizes outside `1..=16384` (`InvalidDimensions`), and otherwise
/// only writes to in-memory buffers, so it succeeds.  The bytes, and the
/// text (`Display`) of the error, are functions of the pixels and size.
#[verifier::external_body]
fn webp_encode(pixels: &[u8], width: u32, height: u32) -> (r: Result<Vec<u8>, String>)
    requires
        pixels@.len() == width * height * 4,
    ensures
        r is Ok <==> rgba_encoding_succeeds(OutputFormat::WebP, width, height),
        r matches Ok(bytes) ==> bytes@ == webp_rgba_bytes(pixels@, width, height),
        r matches Err(text) ==> text@ == webp_error_text(pixels@, width, height),
{
    let mut out = Vec::new();
    let encoder = image::codecs::webp::WebPEncoder::new_lossless(&mut out);
    match encoder.encode(pixels, width, height, image::ExtendedColorType::Rgba8) {
        Ok(()) => Ok(out),
        Err(e) => Err(e.to_string()),
    }
}

/// Calls `ImageEncoder::write_image` of `image::codecs::bmp::BmpEncoder` on
/// an RGBA buffer, into memory.  Trusted: it panics unless the buffer holds
/// exactly `width * height` pixels; it refuses a row of more than `u32::MAX`
/// bytes and a file (122 header bytes plus 4 bytes a pixel) of more than
/// `u32::MAX` bytes, and otherwise only writes to the in-memory buffer, so it
/// succeeds.  The bytes, and the text (`Display`) of the error, are
/// functions of the pixels and size.
#[verifier::external_body]
fn bmp_encode(pixels: &[u8], width: u32, height: u32) -> (r: Result<Vec<u8>, String>)
    requires
        pixels@.len() == width * height * 4,
    ensures
        r is Ok <==> rgba_encoding_succeeds(OutputFormat::Bmp, width, height),
        r matches Ok(bytes) ==> bytes@ == bmp_rgba_bytes(pixels@, width, height),
        r matches Err(text) ==> text@ == bmp_error_text(pixels@, width, height),
{
    let mut out = Vec::new();
    let encoder = image::codecs::bmp::BmpEncoder::new(&mut out);
    match image::ImageEncoder::write_image(
        encoder,
        pixels,
        width,
        height,
        image::ExtendedColorType::Rgba8,
    ) {
        Ok(()) => Ok(out),
        Err(e) => Err(e.to_string()),
    }
}

/// Passes encoded bytes through, and turns an encoder's error text into
/// the message `"<FORMAT> 编码失败：<error text>"`.
pub fn report_encoding(format: OutputFormat, encoded: Result<Vec<u8>, String>) -> (r: Result<
    Vec<u8>,
    String,
>)
    ensures
        result_text(r) == match result_text(encoded) {
            Ok(b) => Ok(b),
            Err(t) => Err(failure_prefix(format) + t),
        },
{
    match encoded {
        Ok(bytes) => Ok(bytes),
        Err(text) => Err(write_failure_message(format, text.as_str())),
    }
}

/// The message for a failure while writing the file of `format`:
/// `"<FORMAT> 编码失败：<detail>"`.
pub fn write_failure_message(format: OutputFormat, detail: &str) -> (r: String)
    ensures
        r@ == failure_prefix(format) + detail@,
{
    let mut msg = match format {
        OutputFormat::Jpeg => String::from_str("JPEG 编码失败："),
        OutputFormat::WebP => String::from_str("WebP 编码失败："),
        OutputFormat::Bmp => String::from_str("BMP 编码失败："),
        OutputFormat::Png => String::from_str("PNG 编码失败："),
    };
    msg.append(detail);
    msg
}

/// The encoder for a lower-case extension.
pub fn format_for_extension_of(ext: &str) -> (r: OutputFormat)
    ensures
        r == format_for_extension(ext@),
{
    if same_text(ext, "jpg") || same_text(ext, "jpeg") {
        OutputFormat::Jpeg
    } else if same_text(ext, "webp") {
        OutputFormat::WebP
    } else if same_text(ext, "bmp") {
        OutputFormat::Bmp
    } else {
        OutputFormat::Png
    }
}

/// Extensions that differ only in the ASCII case of their letters choose
/// the same encoder (so `a.JPG` and `a.jpg`, or `b.WebP` and `b.webp`,
/// encode alike).
pub proof fn law_extension_case_ignored(p1: Seq<char>, p2: Seq<char>, e1: Seq<char>, e2: Seq<char>)
    requires
        extension_of(p1) == Some(e1),
        extension_of(p2) == Some(e2),
        is_ascii_chars(e1),
        is_ascii_chars(e2),
        ascii_lower(e1) == ascii_lower(e2),
    ensures
        output_format_spec(p1) == output_format_spec(p2),
{
}

/// The encoder is chosen by the lower-cased extension: `jpg` and `jpeg`
/// give JPEG, `webp` WebP, `bmp` BMP, and any other extension, or none,
/// PNG.
pub proof fn law_encoder_for_extension(path: Seq<char>)
    ensures
        ({
            let fmt = output_format_spec(path);
            match extension_of(path) {
                Some(e) => {
                    let l = lower_text(e);
                    &&& (l == "jpg"@ || l == "jpeg"@) ==> fmt == OutputFormat::Jpeg
                    &&& l == "webp"@ ==> fmt == OutputFormat::WebP
                    &&& l == "bmp"@ ==> fmt == OutputFormat::Bmp
                    &&& !(l == "jpg"@ || l == "jpeg"@ || l == "webp"@ || l == "bmp"@) ==> fmt
                        == OutputFormat::Png
                },
                None => fmt == OutputFormat::Png,
            }
        }),
{
    reveal_strlit("jpg");
    reveal_strlit("jpeg");
    reveal_strlit("webp");
    reveal_strlit("bmp");
    reveal_strlit("png");
    assert("bmp"@ != "jpg"@ && "bmp"@ != "png"@ && "jpg"@ != "png"@) by {
        assert("bmp"@[0] != "jpg"@[0] && "bmp"@[0] != "png"@[0] && "jpg"@[0] != "png"@[0]);
    }
    assert("webp"@ != "jpeg"@) by {
        assert("webp"@[0] != "jpeg"@[0]);
    }
    assert("webp"@.len() != "jpg"@.len() && "webp"@.len() != "bmp"@.len() && "jpeg"@.len()
        != "bmp"@.len() && "webp"@.len() != "png"@.len() && "jpeg"@.len() != "png"@.len());
}

/// The lower-cased extension of `path`, or `png` when it has none.
pub fn lowercase_extension(path: &str) -> (r: String)
    ensures
        r@ == lowercase_extension_or_png(path@),
{
    match path_extension(path) {
        Some(e) => lowercase(e.as_str()),
        None => String::from_str("png"),
    }
}

/// The encoder used for a file written at `path`, chosen by its extension.
pub fn output_format(path: &str) -> (r: OutputFormat)
    ensures
        r == output_format_spec(path@),
{
    let ext = lowercase_extension(path);
    format_for_extension_of(ext.as_str())
}

/// The file contents for an RGBA image of `width` x `height` pixels written
/// at `path`: encoded by the format its extension names (PNG by default).
/// `quality` is handed to the JPEG encoder only, and JPEG cannot hold RGBA,
/// so a `.jpg` or `.jpeg` path always fails; the other formats succeed
/// exactly for the sizes they can take (`rgba_encoding_succeeds`).  A
/// failure is reported as `"<FORMAT> 编码失败：<reason>"`.
pub fn encode_rgba_for_path(pixels: &[u8], width: u32, height: u32, path: &str, quality: u8) -> (r:
    Result<Vec<u8>, String>)
    requires
        pixels@.len() == width * height * 4,
    ensures
        result_text(r) == rgba_encoding(pixels@, width, height, output_format_spec(path@), quality),
{
    let format = output_format(path);
    let encoded = match format {
        OutputFormat::Jpeg => jpeg_encode(pixels, width, height, quality, PixelLayout::Rgba),
        OutputFormat::WebP => webp_encode(pixels, width, height),
        OutputFormat::Bmp => bmp_encode(pixels, width, height),
        OutputFormat::Png => png_encode(pixels, width, height),
    };
    report_encoding(format, encoded)
}

/// The JPEG file for an RGB image of `width` x `height` pixels at the given
/// quality; it fails exactly for sizes outside `1..=65535`, reported as
/// `"JPEG 编码失败：<reason>"`.
pub fn encode_rgb_jpeg(pixels: &[u8], width: u32, height: u32, quality: u8) -> (r: Result<
    Vec<u8>,
    String,
>)
    requires
        pixels@.len() == width * height * 3,
    ensures
        result_text(r) == rgb_jpeg_encoding(pixels@, width, height, quality),
{
    report_encoding(OutputFormat::Jpeg, jpeg_encode(pixels, width, height, quality, PixelLayout::Rgb))
}

} // verus!
