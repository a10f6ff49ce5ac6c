//! Path and text functions of `std` that the library calls: the file name of
//! a path, path equality, joining, and Unicode lower-casing. Their results
//! are referred to by the spec functions below.
use vstd::prelude::*;

verus! {

/// The final component of `path` (`std::path::Path::file_name`), if any.
pub uninterp spec fn path_file_name(path: Seq<char>) -> Option<Seq<char>>;

/// Whether `a` and `b` are the same path as `std::path::Path`'s `==` decides
/// (by parsed components).
pub uninterp spec fn path_eq(a: Seq<char>, b: Seq<char>) -> bool;

/// `rel` joined onto `base` (`std::path::Path::join`), as text.
pub uninterp spec fn path_join(base: Seq<char>, rel: Seq<char>) -> Seq<char>;

/// The lower-case mapping of `s` (`str::to_lowercase`).
pub uninterp spec fn lowercase(s: Seq<char>) -> Seq<char>;

/// Two paths are the same path when `std::path::Path` compares them equal.
pub open spec fn same_path(a: Seq<char>, b: Seq<char>) -> bool {
    path_eq(a, b)
}

/// Calls `std::path::Path::file_name` on `path`. Claims only that the result
/// is the named function `path_file_name` of the path's text.
#[verifier::external_body]
pub fn file_name_of(path: &str) -> (r: Option<String>)
    ensures
        match r {
            Some(n) => path_file_name(path@) == Some(n@),
            None => path_file_name(path@) is None,
        },
{
    match std::path::Path::new(path).file_name() {
        Some(n) => Some(n.to_string_lossy().into_owned()),
        None => None,
    }
}

/// Calls `std::path::Path::join` (`rel` onto `base`). Claims only that the
/// result is the named `path_join` of the two texts; joining two `&str` paths
/// gives valid UTF-8, so the text conversion loses nothing.
#[verifier::external_body]
pub fn join_path(base: &str, rel: &str) -> (r: String)
    ensures
        r@ == path_join(base@, rel@),
{
    std::path::Path::new(base).join(rel).to_string_lossy().into_owned()
}

/// ASCII lower-casing of one character: `A` to `Z` become `a` to `z`.
pub open spec fn ascii_lower(c: char) -> char {
    if 'A' <= c && c <= 'Z' {
        ((c as u32) + 32) as char
    } else {
        c
    }
}

/// Whether every character of `s` is ASCII.
pub open spec fn all_ascii(s: Seq<char>) -> bool {
    forall|i: int| 0 <= i < s.len() ==> (s[i] as u32) < 128
}

/// Calls `str::to_lowercase`, which maps each character to its Unicode
/// lower case. Claims that the result is the named `lowercase` of the
/// argument's characters, that the empty string stays empty, and that an
/// ASCII string is lower-cased letter by letter (`A`..`Z` to `a`..`z`, every
/// other ASCII character unchanged).
#[verifier::external_body]
pub fn lowercase_of(s: &str) -> (r: String)
    ensures
        r@ == lowercase(s@),
        s@.len() == 0 ==> r@.len() == 0,
        all_ascii(s@) ==> r@ == s@.map_values(|c: char| ascii_lower(c)),
{
    s.to_lowercase()
}

/// Whether `a` and `b` name the same path: `std::path::Path`'s `==` on the
/// two texts. Claims only that the result is the named `path_eq`.
#[verifier::external_body]
pub fn paths_equal(a: &str, b: &str) -> (r: bool)
    ensures
        r == path_eq(a@, b@),
{
    std::path::Path::new(a) == std::path::Path::new(b)
}

} // verus!
