//! Paths as text: telling absolute from relative, resolving a relative path
//! against a directory, and deciding whether one path lies under another.

use std::path::Path;
use path_absolutize::Absolutize;
use vstd::prelude::*;
use crate::text::{opt_text, texts};

verus! {

/// A path is absolute when it starts at the root.
pub open spec fn is_absolute(path: Seq<char>) -> bool {
    path.len() > 0 && path[0] == '/'
}

/// Whether `path` starts at the root.
pub fn is_absolute_path(path: &str) -> (absolute: bool)
    ensures
        absolute == is_absolute(path@),
{
    path.unicode_len() > 0 && path.get_char(0) == '/'
}

/// What `path_absolutize::Absolutize::absolutize_from` makes of `path` when it
/// is resolved against the directory `root`: the joined path with its `.` and
/// `..` components worked out, or `None` where that path is not text.
pub uninterp spec fn absolutized(path: Seq<char>, root: Seq<char>) -> Option<Seq<char>>;

/// Calls `Absolutize::absolutize_from` of the crate `path_absolutize` on
/// `path`, with `root` as the directory to resolve against.
///
/// Trusted: the result is a function of the two texts alone, which the name
/// `absolutized` stands for, and a path resolved against an absolute
/// directory is absolute. An absolute `root` is asked for because the
/// outside function can run out of components, and panic, when `..` climbs
/// above a relative one. A failure reported by the outside function, and a
/// resolved path that is not valid text, both come back as `None`.
#[verifier::external_body]
fn absolutize_from(path: &str, root: &str) -> (resolved: Option<String>)
    requires
        is_absolute(root@),
    ensures
        opt_text(resolved) == absolutized(path@, root@),
        resolved matches Some(text) ==> is_absolute(text@),
{
    match Path::new(path).absolutize_from(Path::new(root)) {
        Ok(found) => found.into_owned().into_os_string().into_string().ok(),
        Err(_) => None,
    }
}

/// Why a path could not be resolved.
#[derive(Debug, Clone, Copy, PartialEq, Eq, Structural)]
pub enum ConversionError {
    /// A resolved path cannot be represented as plain text.
    PathEncoding,
    /// A relative path was to be resolved against a directory that is not
    /// itself absolute.
    WorkingDirNotAbsolute,
}

impl ConversionError {
    /// The message of the error.
    pub fn message(&self) -> (text: String)
        ensures
            text@ == match *self {
                ConversionError::PathEncoding => "encode error"@,
                ConversionError::WorkingDirNotAbsolute => "working directory is not absolute"@,
            },
    {
        match self {
            ConversionError::PathEncoding => String::from_str("encode error"),
            ConversionError::WorkingDirNotAbsolute => String::from_str(
                "working directory is not absolute",
            ),
        }
    }
}

/// The absolute form of `path` for a process that ran in `root`: an absolute
/// path as it is, a relative one resolved against an absolute `root`.
pub open spec fn resolved(path: Seq<char>, root: Seq<char>) -> Result<Seq<char>, ConversionError> {
    if is_absolute(path) {
        Ok(path)
    } else if !is_absolute(root) {
        Err(ConversionError::WorkingDirNotAbsolute)
    } else {
        resolved_from(path, absolutized(path, root))
    }
}

/// What resolving the relative `path` comes to, given the outcome of the
/// outside resolution.
pub open spec fn resolved_from(path: Seq<char>, outcome: Option<Seq<char>>) -> Result<
    Seq<char>,
    ConversionError,
> {
    match outcome {
        Some(text) => Ok(text),
        None => Err(ConversionError::PathEncoding),
    }
}

/// `resolved` for a path that may be missing.
pub open spec fn resolved_opt(path: Option<Seq<char>>, root: Seq<char>) -> Result<
    Option<Seq<char>>,
    ConversionError,
> {
    match path {
        None => Ok(None),
        Some(p) => match resolved(p, root) {
            Ok(text) => Ok(Some(text)),
            Err(e) => Err(e),
        },
    }
}

/// The views of a resolution's outcome.
pub open spec fn result_view(r: Result<String, ConversionError>) -> Result<
    Seq<char>,
    ConversionError,
> {
    match r {
        Ok(s) => Ok(s@),
        Err(e) => Err(e),
    }
}

/// The views of an optional resolution's outcome.
pub open spec fn result_opt_view(r: Result<Option<String>, ConversionError>) -> Result<
    Option<Seq<char>>,
    ConversionError,
> {
    match r {
        Ok(s) => Ok(opt_text(s)),
        Err(e) => Err(e),
    }
}

/// Decides the result of resolving a relative `path` from what the outside
/// resolution gave.
pub fn finish_resolution(path: &str, outcome: Option<String>) -> (r: Result<
    String,
    ConversionError,
>)
    ensures
        result_view(r) == resolved_from(path@, opt_text(outcome)),
{
    match outcome {
        Some(text) => Ok(text),
        None => Err(ConversionError::PathEncoding),
    }
}

/// Resolves `path` to an absolute path for a process that ran in `root`.
///
/// An absolute path is returned unchanged. A relative one is resolved against
/// `root`, which has to be absolute for that.
pub fn into_abspath(path: String, root: &str) -> (r: Result<String, ConversionError>)
    ensures
        result_view(r) == resolved(path@, root@),
        is_absolute(path@) ==> r == Ok::<String, ConversionError>(path),
        r matches Ok(text) ==> is_absolute(text@),
{
    if is_absolute_path(path.as_str()) {
        Ok(path)
    } else if !is_absolute_path(root) {
        Err(ConversionError::WorkingDirNotAbsolute)
    } else {
        let outcome = absolutize_from(path.as_str(), root);
        finish_resolution(path.as_str(), outcome)
    }
}

/// Resolves a path that may be missing: nothing to resolve gives `None`.
pub fn into_abspath_opt(path: Option<String>, root: &str) -> (r: Result<
    Option<String>,
    ConversionError,
>)
    ensures
        result_opt_view(r) == resolved_opt(opt_text(path), root@),
        r matches Ok(Some(text)) ==> is_absolute(text@),
{
    match path {
        None => Ok(None),
        Some(p) => match into_abspath(p, root) {
            Ok(text) => Ok(Some(text)),
            Err(e) => Err(e),
        },
    }
}

/// Whether `path` is `dir` or lies under it: `dir` is a prefix of `path`
/// that ends where a component of `path` ends. Everything lies under the
/// empty path.
pub open spec fn is_under(path: Seq<char>, dir: Seq<char>) -> bool {
    &&& dir.len() <= path.len()
    &&& path.take(dir.len() as int) == dir
    &&& (dir.len() == 0 || dir.len() == path.len() || dir.last() == '/' || path[dir.len() as int]
        == '/')
}

/// Whether `path` is `dir` or lies under it.
pub fn path_is_under(path: &str, dir: &str) -> (under: bool)
    ensures
        under == is_under(path@, dir@),
{
    let n: usize = path.unicode_len();
    let m: usize = dir.unicode_len();
    if m > n {
        return false;
    }
    let mut i: usize = 0;
    while i < m
        invariant
            i <= m <= n,
            n == path@.len(),
            m == dir@.len(),
            forall|j: int| 0 <= j < i ==> path@[j] == dir@[j],
        decreases m - i,
    {
        if path.get_char(i) != dir.get_char(i) {
            assert(path@.take(m as int)[i as int] != dir@[i as int]);
            return false;
        }
        i = i + 1;
    }
    assert(path@.take(m as int) =~= dir@);
    m == 0 || m == n || dir.get_char(m - 1) == '/' || path.get_char(m) == '/'
}

/// Whether `path` lies under one of the directories of `dirs`.
pub open spec fn is_under_any(path: Seq<char>, dirs: Seq<Seq<char>>) -> bool {
    exists|i: int| 0 <= i < dirs.len() && is_under(path, #[trigger] dirs[i])
}

/// Whether `path` lies under one of the directories of `dirs`.
pub fn path_is_under_any(path: &str, dirs: &Vec<String>) -> (under: bool)
    ensures
        under == is_under_any(path@, texts(dirs@)),
{
    let mut i: usize = 0;
    while i < dirs.len()
        invariant
            i <= dirs.len(),
            forall|j: int| 0 <= j < i ==> !is_under(path@, #[trigger] texts(dirs@)[j]),
        decreases dirs.len() - i,
    {
        if path_is_under(path, dirs[i].as_str()) {
            assert(is_under(path@, texts(dirs@)[i as int]));
            return true;
        }
        i = i + 1;
    }
    false
}

} // verus!
