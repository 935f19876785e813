//! File system paths, held as strings, and the `std::path` operations the
//! library needs on them.
//!
//! The contracts below describe paths as a Unix target has them: `/` is
//! the only separator, there are no prefixes, and a path is absolute when
//! it starts with the root. On Windows `std::path` behaves otherwise, and
//! these contracts do not hold there.

use vstd::prelude::*;
use std::path::Path;
use crate::text::chars_of;

verus! {

/// What `Path::join` gives for two paths.
pub uninterp spec fn spec_path_join(base: Seq<char>, p: Seq<char>) -> Seq<char>;


/// What `Path::file_name` gives for a path.
pub uninterp spec fn spec_path_file_name(p: Seq<char>) -> Option<Seq<char>>;

/// What `Path::with_file_name` gives for a path and a file name.
pub uninterp spec fn spec_path_with_file_name(p: Seq<char>, name: Seq<char>) -> Seq<char>;

/// What `Path::starts_with` answers: whether `base` is a prefix of `p`,
/// component by component.
pub uninterp spec fn spec_path_starts_with(p: Seq<char>, base: Seq<char>) -> bool;

/// What `Path::parent` gives for a path.
pub uninterp spec fn spec_path_parent(p: Seq<char>) -> Option<Seq<char>>;

/// What `==` on two `Path`s answers: whether they have the same
/// components.
pub uninterp spec fn spec_path_eq(a: Seq<char>, b: Seq<char>) -> bool;

/// The index of the last `.` in a name, -1 when there is none.
pub open spec fn last_dot(n: Seq<char>) -> int
    decreases n.len(),
{
    if n.len() == 0 {
        -1
    } else if n.last() == '.' {
        n.len() - 1
    } else {
        last_dot(n.drop_last())
    }
}

/// What `Path::extension` gives for a path, as std documents it: nothing
/// when there is no file name, when the name has no `.`, or when its only
/// `.` is the first character; otherwise the part of the name after the
/// last `.`.
pub closed spec fn spec_path_extension(p: Seq<char>) -> Option<Seq<char>> {
    match spec_path_file_name(p) {
        Some(n) => if last_dot(n) <= 0 { None } else { Some(n.subrange(last_dot(n) + 1, n.len() as int)) },
        None => None,
    }
}

/// What `Path::file_stem` gives for a path, as std documents it: nothing
/// when there is no file name; the whole name when it has no `.` or its
/// only `.` is the first character; otherwise the part of the name before
/// the last `.`.
pub closed spec fn spec_path_file_stem(p: Seq<char>) -> Option<Seq<char>> {
    match spec_path_file_name(p) {
        Some(n) => if last_dot(n) <= 0 { Some(n) } else { Some(n.subrange(0, last_dot(n))) },
        None => None,
    }
}

/// A path is absolute on Unix when it starts with the root `/`; this does
/// not hold on Windows, where an absolute path has a prefix.
pub open spec fn is_absolute_spec(p: Seq<char>) -> bool {
    p.len() > 0 && p[0] == '/'
}

/// `Path::join`: `p` appended to `base`. The documentation promises that
/// an absolute `p` replaces `base`; how a separator is added otherwise is
/// only named.
#[verifier::external_body]
pub(crate) fn path_join(base: &str, p: &str) -> (r: String)
    ensures
        r@ == spec_path_join(base@, p@),
        is_absolute_spec(p@) ==> r@ == p@,
{
    Path::new(base).join(p).to_string_lossy().into_owned()
}

/// `Path::extension`: the extension of the file name, without the dot, as
/// `spec_path_extension` states it from std's documentation.
#[verifier::external_body]
pub(crate) fn path_extension(p: &str) -> (r: Option<String>)
    ensures
        match r {
            Some(e) => spec_path_extension(p@) == Some(e@),
            None => spec_path_extension(p@) is None,
        },
{
    Path::new(p).extension().map(|e| e.to_string_lossy().into_owned())
}

/// A single normal path component: not empty, without a separator, and
/// neither `.` nor `..`.
pub open spec fn is_plain_name(n: Seq<char>) -> bool {
    &&& n.len() > 0
    &&& !n.contains('/')
    &&& n != "."@
    &&& n != ".."@
}

/// `Path::file_name`: the last component when it is a file or directory
/// name, that is a normal component.
#[verifier::external_body]
pub(crate) fn path_file_name(p: &str) -> (r: Option<String>)
    ensures
        match r {
            Some(n) => spec_path_file_name(p@) == Some(n@),
            None => spec_path_file_name(p@) is None,
        },
        r matches Some(n) ==> is_plain_name(n@),
{
    Path::new(p).file_name().map(|n| n.to_string_lossy().into_owned())
}

/// `Path::with_file_name`: the path with its file name replaced by `name`.
/// The documentation (of `PathBuf::set_file_name`) promises that where the
/// path has a file name the new path is a sibling of it, with the same
/// parent, and that its file name becomes `name`; this is stated for a
/// `name` that is a single normal component.
#[verifier::external_body]
pub(crate) fn path_with_file_name(p: &str, name: &str) -> (r: String)
    ensures
        r@ == spec_path_with_file_name(p@, name@),
        spec_path_file_name(p@) is Some && is_plain_name(name@) ==> {
            &&& spec_path_parent(r@) == spec_path_parent(p@)
            &&& spec_path_file_name(r@) == Some(name@)
        },
{
    Path::new(p).with_file_name(name).to_string_lossy().into_owned()
}

/// `Path::starts_with`: whether `base` is a prefix of `p`, comparing whole
/// components.
#[verifier::external_body]
pub(crate) fn path_starts_with(p: &str, base: &str) -> (r: bool)
    ensures
        r == spec_path_starts_with(p@, base@),
{
    Path::new(p).starts_with(base)
}

/// Whether the path is absolute: on Unix, whether it starts with the root.
pub(crate) fn path_is_absolute(p: &str) -> (r: bool)
    ensures
        r == is_absolute_spec(p@),
{
    let cs = chars_of(p);
    cs.len() > 0 && cs[0] == '/'
}

/// `Path::parent`: the path without its last component, `None` for a
/// path that ends in a root or prefix or is empty.
#[verifier::external_body]
pub(crate) fn path_parent(p: &str) -> (r: Option<String>)
    ensures
        match r {
            Some(q) => spec_path_parent(p@) == Some(q@),
            None => spec_path_parent(p@) is None,
        },
{
    Path::new(p).parent().map(|q| q.to_string_lossy().into_owned())
}

/// `Path`'s `==`: the two paths have the same components (so `a//b` and
/// `a/b` are equal).
#[verifier::external_body]
pub(crate) fn path_eq(a: &str, b: &str) -> (r: bool)
    ensures
        r == spec_path_eq(a@, b@),
{
    Path::new(a) == Path::new(b)
}

/// `Path::file_stem`: the file name without its extension, if there is a
/// file name, as `spec_path_file_stem` states it from std's documentation.
#[verifier::external_body]
pub(crate) fn path_file_stem(p: &str) -> (r: Option<String>)
    ensures
        match r {
            Some(q) => spec_path_file_stem(p@) == Some(q@),
            None => spec_path_file_stem(p@) is None,
        },
{
    Path::new(p).file_stem().map(|q| q.to_string_lossy().into_owned())
}

/// The directory where earlier metadata of songs is kept, inside the data
/// directory of the application.
pub fn metadata_history_dir(data_dir: &str) -> (r: String)
    ensures
        r@ == spec_path_join(data_dir@, "history"@),
{
    path_join(data_dir, "history")
}

} // verus!
