//! The few questions about file paths that the library leaves to
//! `std::path`, on the path conventions of the platform it is built for.

use vstd::prelude::*;

verus! {

/// The file stem of a path: its last component without the extension.
pub uninterp spec fn path_file_stem(path: Seq<char>) -> Option<Seq<char>>;

/// The extension of a path: what follows the last dot of its last component.
pub uninterp spec fn path_extension(path: Seq<char>) -> Option<Seq<char>>;

/// The path of `child` inside the directory `base`.
pub uninterp spec fn path_join(base: Seq<char>, child: Seq<char>) -> Seq<char>;

/// Calls `std::path::Path::file_stem`. The contract only gives the result
/// its name, [`path_file_stem`]; nothing is proved of it.
#[verifier::external_body]
pub(crate) fn file_stem_of(path: &str) -> (out: Option<String>)
    ensures
        match out {
            Some(stem) => path_file_stem(path@) == Some(stem@),
            None => path_file_stem(path@) is None,
        },
{
    match std::path::Path::new(path).file_stem() {
        Some(stem) => stem.to_str().map(String::from),
        None => None,
    }
}

/// Calls `std::path::Path::extension`. The contract only gives the result
/// its name, [`path_extension`]; nothing is proved of it.
#[verifier::external_body]
pub(crate) fn extension_of(path: &str) -> (out: Option<String>)
    ensures
        match out {
            Some(ext) => path_extension(path@) == Some(ext@),
            None => path_extension(path@) is None,
        },
{
    match std::path::Path::new(path).extension() {
        Some(extension) => extension.to_str().map(String::from),
        None => None,
    }
}

/// Calls `std::path::Path::join`. The contract only gives the result its
/// name, [`path_join`]; nothing is proved of it.
#[verifier::external_body]
pub(crate) fn join_path(base: &str, child: &str) -> (out: String)
    ensures
        out@ == path_join(base@, child@),
{
    std::path::Path::new(base).join(child).to_string_lossy().into_owned()
}

} // verus!
