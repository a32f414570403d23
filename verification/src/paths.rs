//! Paths as text: the few questions the session logic asks of a path
//! (its file name, stem and extension, and joining a name onto a folder).
//!
//! What a path's final component is, and how a component is joined onto a
//! folder, follow `std::path` for the platform the crate is built for; they are
//! named here and not restated. The stem and the extension are stated in full
//! over the file name, as `std::path` documents them.
use vstd::prelude::*;
use crate::text::{eq_ignore_ascii_case, opt_text, str_eq_ignore_ascii_case};

verus! {

broadcast use vstd::string::group_string_axioms;

/// The final component of `path` (`Path::file_name`, as text); `None` when the
/// path has no final normal component, such as `"/"` or a path ending in `..`.
pub uninterp spec fn path_file_name(path: Seq<char>) -> Option<Seq<char>>;

/// The text of `Path::new(base).join(part)`.
pub uninterp spec fn path_join(base: Seq<char>, part: Seq<char>) -> Seq<char>;

/// `k` is the position of the last `'.'` in `name`.
pub open spec fn is_last_dot(name: Seq<char>, k: int) -> bool {
    &&& 0 <= k < name.len()
    &&& name[k] == '.'
    &&& forall|j: int| k < j < name.len() ==> name[j] != '.'
}

/// Where a file name splits into stem and extension: at its last `'.'`, unless
/// that dot is the first character (a name such as `.profile` has no extension).
pub open spec fn extension_dot(name: Seq<char>) -> Option<int> {
    if exists|k: int| is_last_dot(name, k) && k > 0 {
        Some(choose|k: int| is_last_dot(name, k) && k > 0)
    } else {
        None
    }
}

/// The stem of a file name: the part before the extension dot, or the whole name.
pub open spec fn stem_of_file_name(name: Seq<char>) -> Seq<char> {
    match extension_dot(name) {
        Some(k) => name.take(k),
        None => name,
    }
}

/// The extension of a file name: the part after the extension dot, if there is one.
pub open spec fn extension_of_file_name(name: Seq<char>) -> Option<Seq<char>> {
    match extension_dot(name) {
        Some(k) => Some(name.skip(k + 1)),
        None => None,
    }
}

/// `Path::file_stem`, as text.
pub open spec fn path_file_stem(path: Seq<char>) -> Option<Seq<char>> {
    match path_file_name(path) {
        Some(name) => Some(stem_of_file_name(name)),
        None => None,
    }
}

/// `Path::extension`, as text.
pub open spec fn path_extension(path: Seq<char>) -> Option<Seq<char>> {
    match path_file_name(path) {
        Some(name) => extension_of_file_name(name),
        None => None,
    }
}

/// Calls `std::path::Path::file_name` on `path`. The contract gives the result the
/// name `path_file_name`; a name taken from UTF-8 text is UTF-8 and converts without loss.
#[verifier::external_body]
fn file_name_of(path: &str) -> (r: Option<String>)
    ensures
        opt_text(r) == path_file_name(path@),
{
    match std::path::Path::new(path).file_name() {
        Some(name) => Some(name.to_string_lossy().into_owned()),
        None => None,
    }
}

/// Calls `std::path::Path::file_stem` on `path`. The contract states what its
/// documentation states: no stem without a file name; otherwise the file name up
/// to its last `'.'`, or the whole name when it has no `'.'` or only a leading one.
#[verifier::external_body]
fn file_stem_of(path: &str) -> (r: Option<String>)
    ensures
        opt_text(r) == path_file_stem(path@),
{
    match std::path::Path::new(path).file_stem() {
        Some(stem) => Some(stem.to_string_lossy().into_owned()),
        None => None,
    }
}

/// Calls `std::path::Path::extension` on `path`. The contract states what its
/// documentation states: no extension without a file name, without a `'.'` in it,
/// or with only a leading `'.'`; otherwise the part of the file name after its last `'.'`.
#[verifier::external_body]
fn extension_of(path: &str) -> (r: Option<String>)
    ensures
        opt_text(r) == path_extension(path@),
{
    match std::path::Path::new(path).extension() {
        Some(ext) => Some(ext.to_string_lossy().into_owned()),
        None => None,
    }
}

/// Calls `std::path::Path::join`. The contract gives the joined path's text the
/// name `path_join`.
#[verifier::external_body]
fn join_path(base: &str, part: &str) -> (r: String)
    ensures
        r@ == path_join(base@, part@),
{
    std::path::Path::new(base).join(part).to_string_lossy().into_owned()
}

/// The file name of `path`, or the empty text when it has none
/// (`file_name().unwrap_or_default()`).
pub open spec fn file_name_or_empty(path: Seq<char>) -> Seq<char> {
    match path_file_name(path) {
        Some(name) => name,
        None => Seq::empty(),
    }
}

/// The final component of `path`, or `""` when it has none.
pub fn file_name_or_default(path: &str) -> (r: String)
    ensures
        r@ == file_name_or_empty(path@),
{
    match file_name_of(path) {
        Some(name) => name,
        None => String::new(),
    }
}

/// `path` has an extension, and it is `ext` up to the case of ASCII letters.
pub open spec fn has_extension_ignoring_case(path: Seq<char>, ext: Seq<char>) -> bool {
    match path_extension(path) {
        Some(e) => eq_ignore_ascii_case(e, ext),
        None => false,
    }
}

/// Whether an extension, as `Path::extension` returns it, is `target` up to ASCII case.
pub fn extension_matches(ext: Option<String>, target: &str) -> (r: bool)
    ensures
        r == match opt_text(ext) {
            Some(e) => eq_ignore_ascii_case(e, target@),
            None => false,
        },
{
    match ext {
        Some(e) => str_eq_ignore_ascii_case(e.as_str(), target),
        None => false,
    }
}

/// A Canon RAW file: its extension is `cr2` in any case.
pub open spec fn spec_is_cr2(path: Seq<char>) -> bool {
    has_extension_ignoring_case(path, seq!['c', 'r', '2'])
}

/// Whether `path` names a Canon RAW file (`.cr2`, in any case).
pub fn is_cr2(path: &str) -> (r: bool)
    ensures
        r == spec_is_cr2(path@),
{
    proof {
        reveal_strlit("cr2");
    }
    extension_matches(extension_of(path), "cr2")
}

/// A JPEG export: its extension is `jpg` in any case.
pub open spec fn spec_is_jpg(path: Seq<char>) -> bool {
    has_extension_ignoring_case(path, seq!['j', 'p', 'g'])
}

/// Whether `path` names a JPEG export (`.jpg`, in any case).
pub fn is_jpg(path: &str) -> (r: bool)
    ensures
        r == spec_is_jpg(path@),
{
    proof {
        reveal_strlit("jpg");
    }
    extension_matches(extension_of(path), "jpg")
}

/// The name of the JPEG that the editor is expected to export for a RAW file
/// whose stem is `stem`: the stem (empty if there is none) with `.jpg` appended.
pub open spec fn export_file_name(stem: Option<Seq<char>>) -> Seq<char> {
    let s = match stem {
        Some(s) => s,
        None => Seq::empty(),
    };
    s + seq!['.', 'j', 'p', 'g']
}

/// The JPEG file name expected for a RAW file whose stem is `stem`.
pub fn export_name_for_stem(stem: Option<String>) -> (r: String)
    ensures
        r@ == export_file_name(opt_text(stem)),
{
    proof {
        reveal_strlit(".jpg");
    }
    let mut name = match stem {
        Some(s) => s,
        None => String::new(),
    };
    name.append(".jpg");
    name
}

/// Where the export of `raw_path` is expected: `export_dir` joined with the RAW
/// file's stem and the extension `jpg`.
pub open spec fn spec_expected_export_path(export_dir: Seq<char>, raw_path: Seq<char>) -> Seq<char> {
    path_join(export_dir, export_file_name(path_file_stem(raw_path)))
}

/// The path under `export_dir` at which the JPEG export of `raw_path` is expected.
pub fn expected_export_path(export_dir: &str, raw_path: &str) -> (r: String)
    ensures
        r@ == spec_expected_export_path(export_dir@, raw_path@),
{
    let name = export_name_for_stem(file_stem_of(raw_path));
    join_path(export_dir, name.as_str())
}

/// The session folder: `Warmups/<timestamp>` under the export root.
pub open spec fn spec_session_dir_path(export_root: Seq<char>, timestamp: Seq<char>) -> Seq<char> {
    path_join(path_join(export_root, seq!['W', 'a', 'r', 'm', 'u', 'p', 's']), timestamp)
}

/// The folder of a session that started at `timestamp`, under `export_root`.
pub fn session_dir_path(export_root: &str, timestamp: &str) -> (r: String)
    ensures
        r@ == spec_session_dir_path(export_root@, timestamp@),
{
    proof {
        reveal_strlit("Warmups");
        assert("Warmups"@ =~= seq!['W', 'a', 'r', 'm', 'u', 'p', 's']);
    }
    let warmups = join_path(export_root, "Warmups");
    join_path(warmups.as_str(), timestamp)
}

} // verus!
