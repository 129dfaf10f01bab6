//! File names taken from paths: the name sent with an uploaded file, and
//! the stem and sibling `.gif` of a tape file.
//!
//! Each is computed by `std::path`, whose reading of a path depends on the
//! platform (`\` separates components on Windows only).  The contracts state
//! what holds on every platform: for a path that ends in a plain name after
//! a `/` (or is a plain name), that name is the file name.
use vstd::prelude::*;
use crate::config::is_separator;
use crate::json::opt_string_view;

verus! {

/// A file name that every platform reads as one ordinary component: not
/// empty, not `.` or `..`, without `/`, `\` or `:`.
pub open spec fn plain_name(name: Seq<char>) -> bool {
    &&& name.len() > 0
    &&& name != seq!['.']
    &&& name != seq!['.', '.']
    &&& !name.contains('/')
    &&& !name.contains('\\')
    &&& !name.contains(':')
}

/// A path starting with two separators, which Windows reads as a network
/// or device prefix.
pub open spec fn two_separator_start(path: Seq<char>) -> bool {
    path.len() >= 2 && is_separator(path[0]) && is_separator(path[1])
}

/// The path's last component is a plain name starting at `k`: either the
/// whole path, or what follows its last `/`.
pub open spec fn name_starts_at(path: Seq<char>, k: int) -> bool {
    &&& 0 <= k <= path.len()
    &&& plain_name(path.skip(k))
    &&& (k == 0 || path[k - 1] == '/')
    &&& !two_separator_start(path)
}

/// `name` holds the file name of `path` wherever every platform agrees on it.
pub open spec fn file_name_fits(path: Seq<char>, name: Seq<char>) -> bool {
    forall|k: int| #[trigger] name_starts_at(path, k) ==> name == path.skip(k)
}

/// The last `.` of a file name, when it is not the name's first character.
pub open spec fn last_dot_at(name: Seq<char>, d: int) -> bool {
    &&& 0 < d < name.len()
    &&& name[d] == '.'
    &&& !name.skip(d + 1).contains('.')
}

/// A file name with no `.` after its first character.
pub open spec fn no_inner_dot(name: Seq<char>) -> bool {
    !name.skip(1).contains('.')
}

/// The stem of a file name: the part before its last `.`, or the whole
/// name when it has no `.` but maybe a leading one.
pub open spec fn stem_rule(name: Seq<char>, stem: Seq<char>) -> bool {
    &&& forall|d: int| #[trigger] last_dot_at(name, d) ==> stem == name.take(d)
    &&& no_inner_dot(name) ==> stem == name
}

/// `stem` is the stem of `path`'s file name wherever every platform agrees
/// on that name.
pub open spec fn stem_fits(path: Seq<char>, stem: Seq<char>) -> bool {
    forall|k: int| #[trigger] name_starts_at(path, k) ==> stem_rule(path.skip(k), stem)
}

/// `result` is `path` with the extension of its file name set to `ext`:
/// what follows the stem is replaced by `.` and `ext`.
pub open spec fn extension_rule(path: Seq<char>, k: int, ext: Seq<char>, result: Seq<char>) -> bool {
    &&& forall|d: int| #[trigger] last_dot_at(path.skip(k), d) ==> result == path.take(k + d) + seq!['.'] + ext
    &&& no_inner_dot(path.skip(k)) ==> result == path + seq!['.'] + ext
}

/// `result` is `path` with its extension set to `ext` wherever every
/// platform agrees on the file name.
pub open spec fn extension_fits(path: Seq<char>, ext: Seq<char>, result: Seq<char>) -> bool {
    forall|k: int| #[trigger] name_starts_at(path, k) ==> extension_rule(path, k, ext, result)
}

/// The final component of a path (`Path::file_name`, then
/// `to_string_lossy`, which loses nothing on a path built from a `&str`).
///
/// Trusted.  The standard library documents the result as the path's final
/// component when it is a file or directory name; a plain name after the
/// last `/` (or making up the whole path) is such a component on every
/// platform, unless the path starts with two separators, which Windows
/// reads as a prefix.  Nothing is said of other paths.
#[verifier::external_body]
fn path_file_name(path: &str) -> (r: Option<String>)
    ensures
        forall|k: int| #[trigger] name_starts_at(path@, k) ==> opt_string_view(r) == Some(path@.skip(k)),
{
    match std::path::Path::new(path).file_name() {
        Some(name) => Some(name.to_string_lossy().into_owned()),
        None => None,
    }
}

/// The stem of a path's file name (`Path::file_stem`, then
/// `to_string_lossy`).
///
/// Trusted.  The standard library documents the stem as the file name
/// without its last `.` and what follows, or the whole name when it has no
/// `.` other than a leading one; the contract states that for the file
/// names that [`path_file_name`] states.
#[verifier::external_body]
fn path_file_stem(path: &str) -> (r: Option<String>)
    ensures
        forall|k: int| #[trigger] name_starts_at(path@, k) ==> (r is Some && stem_rule(path@.skip(k), r->0@)),
{
    match std::path::Path::new(path).file_stem() {
        Some(stem) => Some(stem.to_string_lossy().into_owned()),
        None => None,
    }
}

/// The path with the extension of its file name set to `ext`
/// (`Path::with_extension`, then `to_string_lossy`).
///
/// Trusted.  The standard library documents that the extension (what
/// follows the stem) is replaced, or added when there is none; its code cuts
/// the path right after the stem and appends `.` and `ext`.  The contract
/// states that for the file names that [`path_file_name`] states, and for
/// an extension without separators.
#[verifier::external_body]
fn path_with_extension(path: &str, ext: &str) -> (r: String)
    requires
        ext@.len() > 0,
        !ext@.contains('/'),
        !ext@.contains('\\'),
    ensures
        extension_fits(path@, ext@, r@),
{
    std::path::Path::new(path).with_extension(ext).to_string_lossy().into_owned()
}

/// The file name sent with an uploaded file: the path's final component,
/// or empty when it has none.
pub fn file_name_or_empty(path: &str) -> (name: String)
    ensures
        file_name_fits(path@, name@),
{
    match path_file_name(path) {
        Some(n) => n,
        None => String::new(),
    }
}

/// The stem of a path's file name, or empty when it has none.
pub fn file_stem_or_empty(path: &str) -> (stem: String)
    ensures
        stem_fits(path@, stem@),
{
    match path_file_stem(path) {
        Some(s) => s,
        None => String::new(),
    }
}

/// The path with its extension set to `gif`: where a tape is recorded to
/// when it names no output.
pub fn with_gif_extension(path: &str) -> (gif: String)
    ensures
        extension_fits(path@, seq!['g', 'i', 'f'], gif@),
{
    proof {
        reveal_strlit("gif");
        assert("gif"@ =~= seq!['g', 'i', 'f']);
    }
    path_with_extension(path, "gif")
}

} // verus!
