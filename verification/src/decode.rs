//! Reading input images: the decoded pixels of a file's bytes, in RGBA.

use vstd::prelude::*;
use vstd::string::*;
use crate::jobs::{display_name, display_name_of};
use crate::paths::{extension_of, path_extension};

verus! {

/// A decoded image: `width` x `height` pixels, four bytes (R, G, B, A) each,
/// row by row.
pub struct RgbaPixels {
    pub width: u32,
    pub height: u32,
    pub pixels: Vec<u8>,
}

/// The image that the `image` crate decodes from a file's bytes, reading
/// them in the format its extension `ext` names, as RGBA: width, height and
/// pixels, or `None` when it cannot.
pub uninterp spec fn decoded_rgba(bytes: Seq<u8>, ext: Option<Seq<char>>) -> Option<(u32, u32, Seq<u8>)>;

/// The text (`Display`) of the error with which that decoding fails.
pub uninterp spec fn decode_error_text(bytes: Seq<u8>, ext: Option<Seq<char>>) -> Seq<char>;

pub open spec fn opt_str(o: Option<&str>) -> Option<Seq<char>> {
    match o {
        Some(s) => Some(s@),
        None => None,
    }
}

/// Decodes a file's bytes as `image::open` does once the file is open: the
/// format is the one `ImageFormat::from_extension` names for `ext` (an
/// extension it does not know is refused with `Unsupported`, and no
/// extension leaves the format unknown, which `decode` refuses); then
/// `ImageReader::decode` and `DynamicImage::to_rgba8`.  Trusted: the result,
/// or the text of the error, is a function of the bytes and the extension
/// (this program registers no decoding hooks); an RGBA buffer holds four
/// bytes for each pixel.
#[verifier::external_body]
fn decode_rgba(bytes: &[u8], ext: Option<&str>) -> (r: Result<RgbaPixels, String>)
    ensures
        r is Ok <==> decoded_rgba(bytes@, opt_str(ext)) is Some,
        r matches Ok(p) ==> decoded_rgba(bytes@, opt_str(ext)) == Some((p.width, p.height, p.pixels@))
            && p.pixels@.len() == p.width * p.height * 4,
        r matches Err(text) ==> text@ == decode_error_text(bytes@, opt_str(ext)),
{
    let mut reader = image::ImageReader::new(std::io::Cursor::new(bytes));
    if let Some(e) = ext {
        let hint = image::error::ImageFormatHint::PathExtension(e.into());
        match image::ImageFormat::from_extension(e) {
            Some(format) => reader.set_format(format),
            None => return Err(image::ImageError::Unsupported(hint.into()).to_string()),
        }
    }
    match reader.decode() {
        Ok(img) => Ok(img.to_rgba8()),
        Err(e) => Err(e.to_string()),
    }.map(|p| RgbaPixels { width: p.width(), height: p.height(), pixels: p.into_raw() })
}

/// The extension that picks the decoder of a file: its extension, unless
/// it has none or an empty one.
pub open spec fn decoding_extension(path: Seq<char>) -> Option<Seq<char>> {
    match extension_of(path) {
        Some(e) => if e.len() > 0 {
            Some(e)
        } else {
            None
        },
        None => None,
    }
}

/// The message for an input that cannot be read:
/// `"无法读取图片 <name>：<reason>"`.
pub open spec fn read_failure_text(path: Seq<char>, detail: Seq<char>) -> Seq<char> {
    "无法读取图片 "@ + display_name(path) + "："@ + detail
}

/// What loading the input at `path` gives from the file's bytes: the
/// decoded RGBA image, or the message naming the file and the decoder's
/// error.
pub open spec fn load_result(path: Seq<char>, bytes: Seq<u8>) -> Result<(u32, u32, Seq<u8>), Seq<char>> {
    match decoded_rgba(bytes, decoding_extension(path)) {
        Some(img) => Ok(img),
        None => Err(read_failure_text(path, decode_error_text(bytes, decoding_extension(path)))),
    }
}

/// An input is decoded in the format its extension names, whatever the
/// extension's length, and without a format when it has no extension or an
/// empty one; a failure names the file and carries the decoder's error.
pub proof fn law_decoder_follows_extension(path: Seq<char>, bytes: Seq<u8>)
    ensures
        ({
            let ext = match extension_of(path) {
                Some(e) => if e.len() == 0 {
                    None::<Seq<char>>
                } else {
                    Some(e)
                },
                None => None,
            };
            &&& load_result(path, bytes) == match decoded_rgba(bytes, ext) {
                Some(img) => Ok::<(u32, u32, Seq<u8>), Seq<char>>(img),
                None => Err("无法读取图片 "@ + display_name(path) + "："@ + decode_error_text(bytes, ext)),
            }
        }),
{
}

/// The message for an input file at `path` that could not be read, with
/// the reason `detail`.
pub fn read_failure_message(path: &str, detail: &str) -> (r: String)
    ensures
        r@ == read_failure_text(path@, detail@),
{
    let mut msg = String::from_str("无法读取图片 ");
    let name = display_name_of(path);
    msg.append(name.as_str());
    msg.append("：");
    msg.append(detail);
    msg
}

/// Decodes the bytes of the input file at `path` into RGBA pixels, in the
/// format its extension names.
pub fn load_input(path: &str, bytes: &[u8]) -> (r: Result<RgbaPixels, String>)
    ensures
        match r {
            Ok(p) => load_result(path@, bytes@) == Ok::<(u32, u32, Seq<u8>), Seq<char>>(
                (p.width, p.height, p.pixels@),
            ) && p.pixels@.len() == p.width * p.height * 4,
            Err(m) => load_result(path@, bytes@) == Err::<(u32, u32, Seq<u8>), Seq<char>>(m@),
        },
{
    let ext = path_extension(path);
    let decoded = match &ext {
        Some(e) => if e.as_str().unicode_len() > 0 {
            decode_rgba(bytes, Some(e.as_str()))
        } else {
            decode_rgba(bytes, None)
        },
        None => decode_rgba(bytes, None),
    };
    match decoded {
        Ok(p) => Ok(p),
        Err(text) => Err(read_failure_message(path, text.as_str())),
    }
}

} // verus!
