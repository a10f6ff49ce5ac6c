//! Where to look for the PDFium library. The crate does not bundle PDFium:
//! it is shipped next to the application, in the places the installers use.
use vstd::prelude::*;
use crate::paths::{join_path, path_join};
use crate::pdfium::{platform_library_name, LibraryName};

verus! {

/// The directories searched, in order: the working directory, then, when the
/// executable's directory `exe_dir` is known, that directory and the places
/// the installers put bundled resources relative to it (Windows: next to the
/// executable; macOS: `../Resources`; Linux packages: `../lib/...`).
pub open spec fn search_dirs(exe_dir: Option<Seq<char>>) -> Seq<Seq<char>> {
    seq!["."@] + match exe_dir {
        Some(d) => seq![
            d,
            path_join(d, "pdfium-lib"@),
            path_join(d, "../Resources"@),
            path_join(d, "../Resources/pdfium-lib"@),
            path_join(d, "../lib"@),
            path_join(d, "../lib/open-pdf-studio3"@),
            path_join(d, "../lib/open-pdf-studio3/pdfium-lib"@),
        ],
        None => Seq::<Seq<char>>::empty(),
    }
}

/// The candidate library paths: `lib_name` in each searched directory, in
/// search order.
pub open spec fn candidate_paths(lib_name: Seq<char>, exe_dir: Option<Seq<char>>) -> Seq<Seq<char>> {
    search_dirs(exe_dir).map_values(|d: Seq<char>| path_join(d, lib_name))
}

/// The text of an optional `&str`.
pub open spec fn opt_text(o: Option<&str>) -> Option<Seq<char>> {
    match o {
        Some(d) => Some(d@),
        None => None,
    }
}

/// The paths at which to look for the PDFium library `lib_name`, in order.
pub fn pdfium_candidates(lib_name: &str, exe_dir: Option<&str>) -> (r: Vec<String>)
    ensures
        r@.map_values(|p: String| p@) == candidate_paths(lib_name@, opt_text(exe_dir)),
{
    let mut dirs: Vec<String> = Vec::new();
    dirs.push(String::from_str("."));
    match exe_dir {
        Some(d) => {
            dirs.push(String::from_str(d));
            dirs.push(join_path(d, "pdfium-lib"));
            dirs.push(join_path(d, "../Resources"));
            dirs.push(join_path(d, "../Resources/pdfium-lib"));
            dirs.push(join_path(d, "../lib"));
            dirs.push(join_path(d, "../lib/open-pdf-studio3"));
            dirs.push(join_path(d, "../lib/open-pdf-studio3/pdfium-lib"));
        },
        None => {},
    }
    let ghost ds = search_dirs(opt_text(exe_dir));
    assert(dirs@.map_values(|p: String| p@) =~= ds);
    let mut out: Vec<String> = Vec::new();
    let mut i: usize = 0;
    while i < dirs.len()
        invariant
            i <= dirs@.len(),
            dirs@.map_values(|p: String| p@) == ds,
            out@.len() == i,
            forall|k: int| 0 <= k < i ==> (#[trigger] out@[k])@ == path_join(ds[k], lib_name@),
        decreases dirs@.len() - i,
    {
        assert(dirs@[i as int]@ == ds[i as int]);
        out.push(join_path(dirs[i].as_str(), lib_name));
        i = i + 1;
    }
    assert(out@.map_values(|p: String| p@) =~= candidate_paths(lib_name@, opt_text(exe_dir)));
    out
}

/// The index of the first `true` in `exists`, if any: which candidate path
/// to load, given which of them exist.
pub fn first_existing(exists: &Vec<bool>) -> (r: Option<usize>)
    ensures
        match r {
            Some(i) => i < exists@.len() && exists@[i as int] && forall|k: int| 0 <= k < i ==> !exists@[k],
            None => forall|k: int| 0 <= k < exists@.len() ==> !exists@[k],
        },
{
    let mut i: usize = 0;
    while i < exists.len()
        invariant
            i <= exists@.len(),
            forall|k: int| 0 <= k < i ==> !exists@[k],
        decreases exists@.len() - i,
    {
        if exists[i] {
            return Some(i);
        }
        i = i + 1;
    }
    None
}


/// The paths at which to look for this platform's PDFium library, in search
/// order, and the library file name they were built from. It reads as the
/// `Vec` of paths.
pub struct SearchPaths {
    paths: Vec<String>,
    library: LibraryName,
}

impl SearchPaths {
    /// The candidate paths, in search order.
    pub closed spec fn paths(&self) -> Seq<Seq<char>> {
        self.paths@.map_values(|p: String| p@)
    }

    /// The library file name, as this platform's PDFium reported it.
    pub closed spec fn library(&self) -> Seq<char> {
        self.library.text()
    }
}

impl std::ops::Deref for SearchPaths {
    type Target = Vec<String>;

    fn deref(&self) -> (r: &Vec<String>)
        ensures
            r@.map_values(|p: String| p@) == self.paths(),
    {
        &self.paths
    }
}

/// The paths at which to look for this platform's PDFium library, in order,
/// given the executable's directory if known: the platform's library file
/// name, as `Pdfium::pdfium_platform_library_name` gives it, in each
/// directory of [`search_dirs`].
pub fn pdfium_search_paths(exe_dir: Option<&str>) -> (r: SearchPaths)
    ensures
        r.paths() == candidate_paths(r.library(), opt_text(exe_dir)),
{
    let (lib, library) = platform_library_name();
    let paths = pdfium_candidates(lib.as_str(), exe_dir);
    SearchPaths { paths, library }
}

} // verus!
