//! The per-file work of a batch: which file is read, what it is called in
//! progress reports, where its result is written and how it is encoded.

use vstd::prelude::*;
use vstd::string::*;
use crate::encode::lowercase_extension_or_png;
use crate::encode::lowercase_extension;
use crate::paths::{
    output_file_name_spec, extension_of, file_name_of, file_stem_of, joined_path, output_path, output_path_spec, parent_of,
    path_file_name,
};
use crate::text::{
    ascii_lower, blank_text, is_blank, lower_text, lowercase, lowercase_of, same_text,
};
use vstd::utf8::is_ascii_chars;

verus! {

/// Options of a compression batch.
pub struct CompressOptions {
    pub files: Vec<String>,
    pub output_dir: String,
    pub quality: u8,
    pub format: String,
}

/// A progress report: `done` of `total` files finished, the last one being
/// `current`.
pub struct ProgressPayload {
    pub done: usize,
    pub total: usize,
    pub current: String,
}

/// One file of a watermark batch.
pub struct WatermarkJob {
    pub input: String,
    pub name: String,
    pub output: String,
    pub progress: ProgressPayload,
}

/// How a compressed file is produced.
#[derive(Clone, Copy, Debug, PartialEq, Eq, Structural)]
pub enum CompressTarget {
    /// Flatten the image onto white and write an RGB JPEG at this quality.
    JpegOnWhite { quality: u8 },
    /// Write the RGBA pixels in the format that the output's extension
    /// names, with this quality.
    Rgba { quality: u8 },
}

/// One file of a compression batch.
pub struct CompressJob {
    pub input: String,
    pub name: String,
    pub output: String,
    pub target: CompressTarget,
    pub progress: ProgressPayload,
}

pub open spec fn watermark_text_message() -> Seq<char> {
    "请先输入水印文字"@
}

/// The name under which a file is reported: its file name, or the whole
/// path when it has none.
pub open spec fn display_name(path: Seq<char>) -> Seq<char> {
    match file_name_of(path) {
        Some(n) => n,
        None => path,
    }
}

/// Where the watermarked copy of `path` goes: `{stem}_watermark.{ext}`
/// with the input's lower-cased extension (`png` if none).
pub open spec fn watermark_output(path: Seq<char>, output_dir: Seq<char>) -> Seq<char> {
    output_path_spec(path, output_dir, "watermark"@, lowercase_extension_or_png(path))
}

pub open spec fn progress_is(p: ProgressPayload, done: int, total: int, current: Seq<char>) -> bool {
    p.done == done && p.total == total && p.current@ == current
}

/// The JPEG quality of a compression batch, clamped to `1..=100`.
pub open spec fn clamped_quality(q: u8) -> u8 {
    if q < 1 {
        1
    } else if q > 100 {
        100
    } else {
        q
    }
}

/// Extension and encoder quality of a compressed file that keeps (roughly)
/// its source format: JPEG and WebP keep the batch quality, BMP uses 95,
/// anything else becomes PNG.
pub open spec fn kept_format(src_ext: Seq<char>, quality: u8) -> (Seq<char>, u8) {
    if src_ext == "jpg"@ || src_ext == "jpeg"@ {
        ("jpg"@, quality)
    } else if src_ext == "webp"@ {
        ("webp"@, quality)
    } else if src_ext == "bmp"@ {
        ("bmp"@, 95u8)
    } else {
        ("png"@, 0u8)
    }
}

/// Whether a batch converts everything to JPEG (`format` is `jpeg` in any
/// case).
pub open spec fn converts_to_jpeg(format: Seq<char>) -> bool {
    lower_text(format) == "jpeg"@
}

/// Output path and target of the compressed copy of `path`.
pub open spec fn compress_plan(path: Seq<char>, output_dir: Seq<char>, format: Seq<char>, quality: u8) -> (
    Seq<char>,
    CompressTarget,
) {
    let q = clamped_quality(quality);
    if converts_to_jpeg(format) {
        (
            output_path_spec(path, output_dir, "compressed"@, "jpg"@),
            CompressTarget::JpegOnWhite { quality: q },
        )
    } else {
        let (ext, eq) = kept_format(lowercase_extension_or_png(path), q);
        (output_path_spec(path, output_dir, "compressed"@, ext), CompressTarget::Rgba { quality: eq })
    }
}

/// A batch with format `jpeg` turns every file into
/// `{stem}_compressed.jpg`, flattened onto white, at a quality in `1..=100`.
pub proof fn law_jpeg_batch(path: Seq<char>, output_dir: Seq<char>, format: Seq<char>, quality: u8)
    requires
        converts_to_jpeg(format),
    ensures
        ({
            let dir = if blank_text(output_dir) {
                match parent_of(path) {
                    Some(d) => d,
                    None => "."@,
                }
            } else {
                output_dir
            };
            let stem = match file_stem_of(path) {
                Some(s) => s,
                None => "image"@,
            };
            let q = if quality < 1 {
                1u8
            } else if quality > 100 {
                100u8
            } else {
                quality
            };
            &&& compress_plan(path, output_dir, format, quality).0 == joined_path(
                dir,
                stem + "_"@ + "compressed"@ + "."@ + "jpg"@,
            )
            &&& compress_plan(path, output_dir, format, quality).1 == CompressTarget::JpegOnWhite {
                quality: q,
            }
            &&& 1 <= q <= 100
        }),
{
}

/// A batch converts to JPEG exactly when its format reads `jpeg` in any
/// mix of ASCII case (or lower-cases to `jpeg` under Unicode rules).
pub proof fn law_jpeg_format_names(format: Seq<char>)
    ensures
        is_ascii_chars(format) ==> (converts_to_jpeg(format) <==> ascii_lower(format) == "jpeg"@),
        !is_ascii_chars(format) ==> (converts_to_jpeg(format) <==> lowercase_of(format) == "jpeg"@),
{
}

/// Any other batch keeps JPEG and WebP at the clamped quality, writes BMP
/// at 95 and everything else as PNG.
pub proof fn law_kept_formats(path: Seq<char>, output_dir: Seq<char>, format: Seq<char>, quality: u8)
    requires
        !converts_to_jpeg(format),
    ensures
        compress_plan(path, output_dir, format, quality).1 matches CompressTarget::Rgba {
            quality: q,
        } && (1 <= q <= 100 || q == 0),
        ({
            let ext = kept_format(lowercase_extension_or_png(path), clamped_quality(quality)).0;
            ext == "jpg"@ || ext == "webp"@ || ext == "bmp"@ || ext == "png"@
        }),
{
}

/// A watermarked copy is written beside its input when no output directory
/// is chosen (in `.` when the input path has no parent) and into the chosen
/// directory otherwise, named `{stem}_watermark.{ext}`: the input's stem
/// (`image` if none) and its lower-cased extension (`png` if none).
pub proof fn law_watermark_output_place(path: Seq<char>, output_dir: Seq<char>)
    ensures
        ({
            let name = match file_stem_of(path) {
                Some(stem) => stem,
                None => "image"@,
            } + "_"@ + "watermark"@ + "."@ + match extension_of(path) {
                Some(e) => lower_text(e),
                None => "png"@,
            };
            &&& blank_text(output_dir) ==> watermark_output(path, output_dir) == joined_path(
                match parent_of(path) {
                    Some(dir) => dir,
                    None => "."@,
                },
                name,
            )
            &&& !blank_text(output_dir) ==> watermark_output(path, output_dir) == joined_path(
                output_dir,
                name,
            )
        }),
{
}

/// A batch that does not convert to JPEG keeps the source format: a
/// lower-cased source extension `jpg` or `jpeg` gives `{stem}_compressed.jpg`
/// and `webp` gives `.webp`, both at the batch quality clamped to
/// `1..=100`; `bmp` gives `.bmp` at 95; every other extension (`png`
/// included, `png` when there is none) gives `.png` at 0.  The file goes
/// beside the input when no output directory is chosen (in `.` when the
/// input path has no parent) and into the chosen directory otherwise.
pub proof fn law_kept_format_batch(path: Seq<char>, output_dir: Seq<char>, format: Seq<char>, quality: u8)
    requires
        !converts_to_jpeg(format),
    ensures
        ({
            let out = compress_plan(path, output_dir, format, quality).0;
            let target = compress_plan(path, output_dir, format, quality).1;
            let src = match extension_of(path) {
                Some(e) => lower_text(e),
                None => "png"@,
            };
            let q = if quality < 1 {
                1u8
            } else if quality > 100 {
                100u8
            } else {
                quality
            };
            let dir = if blank_text(output_dir) {
                match parent_of(path) {
                    Some(d) => d,
                    None => "."@,
                }
            } else {
                output_dir
            };
            let stem = match file_stem_of(path) {
                Some(s) => s,
                None => "image"@,
            };
            let base = stem + "_"@ + "compressed"@ + "."@;
            &&& (src == "jpg"@ || src == "jpeg"@) ==> out == joined_path(dir, base + "jpg"@) && target
                == CompressTarget::Rgba { quality: q }
            &&& src == "webp"@ ==> out == joined_path(dir, base + "webp"@) && target == CompressTarget::Rgba {
                quality: q,
            }
            &&& src == "bmp"@ ==> out == joined_path(dir, base + "bmp"@) && target == CompressTarget::Rgba {
                quality: 95,
            }
            &&& !(src == "jpg"@ || src == "jpeg"@ || src == "webp"@ || src == "bmp"@) ==> out
                == joined_path(dir, base + "png"@) && target == CompressTarget::Rgba { quality: 0 }
        }),
{
    reveal_strlit("jpg");
    reveal_strlit("jpeg");
    reveal_strlit("webp");
    reveal_strlit("bmp");
    reveal_strlit("png");
    let stem = match file_stem_of(path) {
        Some(s) => s,
        None => "image"@,
    };
    let ext = kept_format(lowercase_extension_or_png(path), clamped_quality(quality)).0;
    assert(output_file_name_spec(path, "compressed"@, ext) == stem + "_"@ + "compressed"@ + "."@
        + ext);
    assert("bmp"@ != "jpg"@ && "bmp"@ != "png"@ && "jpg"@ != "png"@) by {
        assert("bmp"@[0] != "jpg"@[0] && "bmp"@[0] != "png"@[0] && "jpg"@[0] != "png"@[0]);
    }
    assert("webp"@ != "jpeg"@) by {
        assert("webp"@[0] != "jpeg"@[0]);
    }
    assert("webp"@.len() != "jpg"@.len() && "webp"@.len() != "bmp"@.len() && "jpeg"@.len()
        != "bmp"@.len() && "webp"@.len() != "png"@.len() && "jpeg"@.len() != "png"@.len());
}

/// Refuses a blank watermark text.
pub fn check_watermark_text(text: &str) -> (r: Result<(), String>)
    ensures
        match r {
            Ok(()) => !blank_text(text@),
            Err(msg) => blank_text(text@) && msg@ == watermark_text_message(),
        },
{
    if is_blank(text) {
        Err(String::from_str("请先输入水印文字"))
    } else {
        Ok(())
    }
}

/// The name under which `path` is reported.
pub fn display_name_of(path: &str) -> (r: String)
    ensures
        r@ == display_name(path@),
{
    match path_file_name(path) {
        Some(n) => n,
        None => String::from_str(path),
    }
}

fn progress(done: usize, total: usize, current: &str) -> (r: ProgressPayload)
    ensures
        progress_is(r, done as int, total as int, current@),
{
    ProgressPayload { done, total, current: String::from_str(current) }
}

/// The work for each file of a watermark batch, in input order; the `k`-th
/// job reports `k + 1` of `files.len()` done when it finishes.
pub fn plan_watermark_jobs(files: &Vec<String>, output_dir: &str) -> (r: Vec<WatermarkJob>)
    ensures
        r.len() == files.len(),
        forall|k: int|
            0 <= k < r.len() ==> {
                let job = #[trigger] r[k];
                &&& job.input@ == files[k]@
                &&& job.name@ == display_name(files[k]@)
                &&& job.output@ == watermark_output(files[k]@, output_dir@)
                &&& job.progress.done == k + 1
                &&& job.progress.total == files.len()
                &&& job.progress.current@ == job.name@
            },
{
    let total = files.len();
    let mut jobs: Vec<WatermarkJob> = Vec::new();
    let mut k: usize = 0;
    while k < total
        invariant
            total == files.len(),
            k <= total,
            jobs.len() == k,
            forall|i: int|
                0 <= i < k ==> {
                    let job = #[trigger] jobs[i];
                    &&& job.input@ == files[i]@
                    &&& job.name@ == display_name(files[i]@)
                    &&& job.output@ == watermark_output(files[i]@, output_dir@)
                    &&& progress_is(job.progress, i + 1, total as int, job.name@)
                },
        decreases total - k,
    {
        let path = files[k].as_str();
        let name = display_name_of(path);
        let ext = lowercase_extension(path);
        let output = output_path(path, output_dir, "watermark", ext.as_str());
        let report = progress(k + 1, total, name.as_str());
        jobs.push(WatermarkJob { input: String::from_str(path), name, output, progress: report });
        k = k + 1;
    }
    jobs
}

/// The batch quality clamped to `1..=100`.
pub fn clamp_quality(q: u8) -> (r: u8)
    ensures
        r == clamped_quality(q),
{
    if q < 1 {
        1
    } else if q > 100 {
        100
    } else {
        q
    }
}

/// Extension and encoder quality for a file that keeps its (lower-case)
/// source extension `src_ext`.
pub fn kept_format_of(src_ext: &str, quality: u8) -> (r: (&'static str, u8))
    ensures
        (r.0@, r.1) == kept_format(src_ext@, quality),
{
    if same_text(src_ext, "jpg") || same_text(src_ext, "jpeg") {
        ("jpg", quality)
    } else if same_text(src_ext, "webp") {
        ("webp", quality)
    } else if same_text(src_ext, "bmp") {
        ("bmp", 95)
    } else {
        ("png", 0)
    }
}

/// The work for each file of a compression batch, in input order: with
/// format `jpeg` every file becomes `{stem}_compressed.jpg` flattened onto
/// white; otherwise the source format is kept as `kept_format` says.  The
/// `k`-th job reports `k + 1` of `files.len()` done when it finishes.
pub fn plan_compress_jobs(opts: &CompressOptions) -> (r: Vec<CompressJob>)
    ensures
        r.len() == opts.files.len(),
        forall|k: int|
            0 <= k < r.len() ==> {
                let job = #[trigger] r[k];
                &&& job.input@ == opts.files[k]@
                &&& job.name@ == display_name(opts.files[k]@)
                &&& (job.output@, job.target) == compress_plan(
                    opts.files[k]@,
                    opts.output_dir@,
                    opts.format@,
                    opts.quality,
                )
                &&& job.progress.done == k + 1
                &&& job.progress.total == opts.files.len()
                &&& job.progress.current@ == job.name@
            },
{
    let files = &opts.files;
    let output_dir = opts.output_dir.as_str();
    let quality = clamp_quality(opts.quality);
    let format = lowercase(opts.format.as_str());
    let to_jpeg = same_text(format.as_str(), "jpeg");
    let total = files.len();
    let mut jobs: Vec<CompressJob> = Vec::new();
    let mut k: usize = 0;
    while k < total
        invariant
            files == &opts.files,
            output_dir@ == opts.output_dir@,
            quality == clamped_quality(opts.quality),
            to_jpeg == converts_to_jpeg(opts.format@),
            total == files.len(),
            k <= total,
            jobs.len() == k,
            forall|i: int|
                0 <= i < k ==> {
                    let job = #[trigger] jobs[i];
                    &&& job.input@ == files[i]@
                    &&& job.name@ == display_name(files[i]@)
                    &&& (job.output@, job.target) == compress_plan(
                        files[i]@,
                        output_dir@,
                        opts.format@,
                        opts.quality,
                    )
                    &&& progress_is(job.progress, i + 1, total as int, job.name@)
                },
        decreases total - k,
    {
        let path = files[k].as_str();
        let name = display_name_of(path);
        let (output, target) = if to_jpeg {
            (
                output_path(path, output_dir, "compressed", "jpg"),
                CompressTarget::JpegOnWhite { quality },
            )
        } else {
            let src_ext = lowercase_extension(path);
            let (ext, q) = kept_format_of(src_ext.as_str(), quality);
            (output_path(path, output_dir, "compressed", ext), CompressTarget::Rgba { quality: q })
        };
        let report = progress(k + 1, total, name.as_str());
        jobs.push(
            CompressJob { input: String::from_str(path), name, output, target, progress: report },
        );
        k = k + 1;
    }
    jobs
}

} // verus!
