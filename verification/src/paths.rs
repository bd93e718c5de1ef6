//! File names of the images the tool writes, built from the input path.

use vstd::prelude::*;
use vstd::string::*;
use crate::text::{blank_text, is_blank};

verus! {

/// The last component of a path (`Path::file_name`), as text.
pub uninterp spec fn file_name_of(path: Seq<char>) -> Option<Seq<char>>;

/// The file name without its final extension (`Path::file_stem`).
pub uninterp spec fn file_stem_of(path: Seq<char>) -> Option<Seq<char>>;

/// The final extension, without the dot (`Path::extension`).
pub uninterp spec fn extension_of(path: Seq<char>) -> Option<Seq<char>>;

/// The path without its last component (`Path::parent`), as text.
pub uninterp spec fn parent_of(path: Seq<char>) -> Option<Seq<char>>;

/// `base` with `name` adjoined (`Path::join`), as text.
pub uninterp spec fn joined_path(base: Seq<char>, name: Seq<char>) -> Seq<char>;

pub open spec fn opt_text(o: Option<String>) -> Option<Seq<char>> {
    match o {
        Some(s) => Some(s@),
        None => None,
    }
}

/// Calls `Path::file_name` on `path`.  Trusted: the result is the file-name
/// component of `path` under the path rules of the build target, a function
/// of `path` alone.  A file name cut from a `&str` is itself valid UTF-8, so
/// the text conversion loses nothing.
#[verifier::external_body]
pub(crate) fn path_file_name(path: &str) -> (r: Option<String>)
    ensures
        opt_text(r) == file_name_of(path@),
{
    match std::path::Path::new(path).file_name() {
        Some(n) => n.to_str().map(String::from),
        None => None,
    }
}

/// Calls `Path::file_stem` on `path`.  Trusted as `path_file_name` is.
#[verifier::external_body]
pub(crate) fn path_file_stem(path: &str) -> (r: Option<String>)
    ensures
        opt_text(r) == file_stem_of(path@),
{
    match std::path::Path::new(path).file_stem() {
        Some(n) => n.to_str().map(String::from),
        None => None,
    }
}

/// Calls `Path::extension` on `path`.  Trusted as `path_file_name` is.
#[verifier::external_body]
pub(crate) fn path_extension(path: &str) -> (r: Option<String>)
    ensures
        opt_text(r) == extension_of(path@),
{
    match std::path::Path::new(path).extension() {
        Some(n) => n.to_str().map(String::from),
        None => None,
    }
}

/// Calls `Path::parent` on `path`.  Trusted: the result is the parent of
/// `path` under the path rules of the build target, as text.
#[verifier::external_body]
pub(crate) fn path_parent(path: &str) -> (r: Option<String>)
    ensures
        opt_text(r) == parent_of(path@),
{
    match std::path::Path::new(path).parent() {
        Some(p) => p.to_str().map(String::from),
        None => None,
    }
}

/// Calls `Path::join`.  Trusted: the result is `base` with `name` adjoined
/// under the path rules of the build target, as text.
#[verifier::external_body]
pub(crate) fn path_join(base: &str, name: &str) -> (r: String)
    ensures
        r@ == joined_path(base@, name@),
{
    std::path::Path::new(base).join(name).display().to_string()
}

/// The directory an output goes to: the chosen output directory, or, when
/// that is blank, the directory of the input (`.` if it has none).
pub open spec fn output_dir_spec(input: Seq<char>, output_dir: Seq<char>) -> Seq<char> {
    if blank_text(output_dir) {
        match parent_of(input) {
            Some(p) => p,
            None => "."@,
        }
    } else {
        output_dir
    }
}

/// The output file name: `{stem}_{suffix}.{ext}`, with `image` as the stem
/// of an input that has none.
pub open spec fn output_file_name_spec(input: Seq<char>, suffix: Seq<char>, ext: Seq<char>) -> Seq<char> {
    file_name_from_stem(file_stem_of(input), suffix, ext)
}

pub open spec fn output_path_spec(
    input: Seq<char>,
    output_dir: Seq<char>,
    suffix: Seq<char>,
    ext: Seq<char>,
) -> Seq<char> {
    joined_path(output_dir_spec(input, output_dir), output_file_name_spec(input, suffix, ext))
}

pub open spec fn file_name_from_stem(stem: Option<Seq<char>>, suffix: Seq<char>, ext: Seq<char>) -> Seq<char> {
    let stem = match stem {
        Some(s) => s,
        None => "image"@,
    };
    stem + "_"@ + suffix + "."@ + ext
}

/// An output never overwrites its input, given two facts of the path rules:
/// the input's file name is its stem, possibly followed by `.` and an
/// extension; and the file name of a joined path is the name joined on.
/// The output's name carries `_` right after the stem, where the input's
/// has `.` or ends.
pub proof fn law_output_differs_from_input(
    input: Seq<char>,
    output_dir: Seq<char>,
    suffix: Seq<char>,
    ext: Seq<char>,
    stem: Seq<char>,
    name: Seq<char>,
    input_ext: Seq<char>,
)
    requires
        file_stem_of(input) == Some(stem),
        file_name_of(input) == Some(name),
        name == stem || name == stem + "."@ + input_ext,
        file_name_of(output_path_spec(input, output_dir, suffix, ext)) == Some(
            output_file_name_spec(input, suffix, ext),
        ),
    ensures
        output_path_spec(input, output_dir, suffix, ext) != input,
        output_file_name_spec(input, suffix, ext) != name,
{
    reveal_strlit("_");
    reveal_strlit(".");
    let out = output_file_name_spec(input, suffix, ext);
    assert(out == stem + "_"@ + suffix + "."@ + ext);
    assert(out.len() > stem.len());
    assert(out[stem.len() as int] == '_');
    if name == stem + "."@ + input_ext {
        assert(name[stem.len() as int] == '.');
    }
}

/// Builds `{stem}_{suffix}.{ext}` from a file stem, `image` standing in for
/// a missing one.
pub fn file_name_from(stem: Option<String>, suffix: &str, ext: &str) -> (r: String)
    ensures
        r@ == file_name_from_stem(opt_text(stem), suffix@, ext@),
{
    let mut name = match stem {
        Some(s) => s,
        None => String::from_str("image"),
    };
    name.append("_");
    name.append(suffix);
    name.append(".");
    name.append(ext);
    name
}

/// Builds `{stem}_{suffix}.{ext}` for the input path `input`.
pub fn output_file_name(input: &str, suffix: &str, ext: &str) -> (r: String)
    ensures
        r@ == output_file_name_spec(input@, suffix@, ext@),
{
    file_name_from(path_file_stem(input), suffix, ext)
}

/// The path of the file written for `input`: `{stem}_{suffix}.{ext}` in
/// `output_dir`, or beside the input when `output_dir` is blank.
pub fn output_path(input: &str, output_dir: &str, suffix: &str, ext: &str) -> (r: String)
    ensures
        r@ == output_path_spec(input@, output_dir@, suffix@, ext@),
{
    let file = output_file_name(input, suffix, ext);
    if is_blank(output_dir) {
        match path_parent(input) {
            Some(dir) => path_join(dir.as_str(), file.as_str()),
            None => path_join(".", file.as_str()),
        }
    } else {
        path_join(output_dir, file.as_str())
    }
}

} // verus!
