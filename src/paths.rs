//! Paths as text: the directory of the file being transformed and the
//! resolution of import specifiers against it.
use vstd::prelude::*;
use vstd::string::StrSliceExecFns;
use path_absolutize::Absolutize;

verus! {

/// A path with a root: it begins with the separator.
pub open spec fn is_rooted(p: Seq<char>) -> bool {
    p.len() > 0 && p[0] == '/'
}

pub fn has_root(p: &str) -> (r: bool)
    ensures
        r == is_rooted(p@),
{
    p.unicode_len() > 0 && p.get_char(0) == '/'
}

/// What `Path::parent` gives for a path.
pub uninterp spec fn parent_of(p: Seq<char>) -> Option<Seq<char>>;

/// What `PathBuf::push` leaves in `base` after pushing `part`: an absolute
/// `part` replaces `base`; otherwise `part` follows `base`, after a separator
/// unless `base` is empty or already ends with one.
pub open spec fn pushed(base: Seq<char>, part: Seq<char>) -> Seq<char> {
    if is_rooted(part) {
        part
    } else if base.len() == 0 || base.last() == '/' {
        base + part
    } else {
        base + seq!['/'] + part
    }
}

/// Pushing onto a rooted path gives a rooted path.
pub proof fn lemma_pushed_rooted(base: Seq<char>, part: Seq<char>)
    requires
        is_rooted(base),
    ensures
        is_rooted(pushed(base, part)),
{
    if !is_rooted(part) {
        if base.last() == '/' {
            assert((base + part)[0] == base[0]);
        } else {
            assert((base + seq!['/'] + part)[0] == base[0]);
        }
    }
}

/// What `Path::strip_prefix` gives for a path and a base.
pub uninterp spec fn stripped(p: Seq<char>, base: Seq<char>) -> Option<Seq<char>>;

/// What `Absolutize::absolutize_from` gives for a path and a base directory.
pub uninterp spec fn absolutized(p: Seq<char>, base: Seq<char>) -> Seq<char>;

/// Relies on std's `Path::parent`: the path without its last component, or
/// `None` for a root or an empty path.
#[verifier::external_body]
pub(crate) fn parent_path(p: &str) -> (r: Option<String>)
    ensures
        r is Some <==> parent_of(p@) is Some,
        r matches Some(d) ==> parent_of(p@) == Some(d@),
{
    std::path::Path::new(p).parent().map(|d| d.to_string_lossy().into_owned())
}

/// Relies on std's `PathBuf::push` (unix): `part` appended after a separator
/// where one is needed, or replacing `base` when it is absolute.
#[verifier::external_body]
pub(crate) fn push_path(base: &str, part: &str) -> (r: String)
    ensures
        r@ == pushed(base@, part@),
{
    let mut buf = std::path::PathBuf::from(base);
    buf.push(part);
    buf.to_string_lossy().into_owned()
}

/// Relies on std's `Path::strip_prefix`: the rest of `p` when `base` is a
/// prefix of it, component by component.
#[verifier::external_body]
pub(crate) fn strip_path_prefix(p: &str, base: &str) -> (r: Option<String>)
    ensures
        r is Some <==> stripped(p@, base@) is Some,
        r matches Some(d) ==> stripped(p@, base@) == Some(d@),
{
    std::path::Path::new(p).strip_prefix(base).ok().map(|d| d.to_string_lossy().into_owned())
}

/// Relies on path-absolutize's `absolutize_from` (unix): `p` resolved against
/// `base`, with `.` and `..` removed. Against a rooted base it does not fail
/// and the result is rooted.
#[verifier::external_body]
pub(crate) fn absolutize_path(p: &str, base: &str) -> (r: String)
    requires
        is_rooted(base@),
    ensures
        r@ == absolutized(p@, base@),
        is_rooted(r@),
{
    let path = std::path::Path::new(p);
    path.absolutize_from(base).map(|a| a.to_string_lossy().into_owned()).unwrap_or_default()
}

/// The directory of the file being transformed and the directory through
/// which its neighbours can be read, from the project root, the file's path
/// and the root under which reads are sandboxed (the project root when there
/// is none).
pub open spec fn dirs_of(context: Seq<char>, filepath: Seq<char>, read_root: Seq<char>) -> Option<(Seq<char>, Seq<char>)> {
    match parent_of(filepath) {
        None => None,
        Some(file_dir) => if is_rooted(file_dir) {
            match stripped(file_dir, context) {
                None => None,
                Some(rel) => Some((file_dir, pushed(read_root, rel))),
            }
        } else {
            Some((pushed(context, file_dir), pushed(read_root, file_dir)))
        },
    }
}

/// See `dirs_of`; `None` where the file has no parent or an absolute file
/// lies outside the project root.
pub fn get_dirs(context: &str, filepath: &str, read_root: &str) -> (r: Option<(String, String)>)
    ensures
        r is Some <==> dirs_of(context@, filepath@, read_root@) is Some,
        r matches Some(d) ==> dirs_of(context@, filepath@, read_root@) == Some((d.0@, d.1@)),
{
    let file_dir = match parent_path(filepath) {
        Some(d) => d,
        None => return None,
    };
    if has_root(file_dir.as_str()) {
        match strip_path_prefix(file_dir.as_str(), context) {
            Some(rel) => {
                let virtual_dir = push_path(read_root, rel.as_str());
                Some((file_dir, virtual_dir))
            },
            None => None,
        }
    } else {
        let dir = push_path(context, file_dir.as_str());
        let virtual_dir = push_path(read_root, file_dir.as_str());
        Some((dir, virtual_dir))
    }
}

} // verus!
