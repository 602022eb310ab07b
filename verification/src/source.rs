//! Telling source files from flags by the extension of an argument.

use vstd::prelude::*;
use crate::text::{find_last, last_position, lemma_last_position, str_equal};

verus! {

/// An argument that starts like a flag: `-` for Unix tools, `/` for Windows tools.
pub open spec fn starts_like_flag(argument: Seq<char>) -> bool {
    argument.len() > 0 && (argument[0] == '-' || argument[0] == '/')
}

/// The text after the last `.` of an argument, when it has one.
pub open spec fn extension_of(argument: Seq<char>) -> Option<Seq<char>> {
    let dot = last_position(argument, '.');
    if dot >= 0 {
        Some(argument.skip(dot + 1))
    } else {
        None
    }
}

/// The extensions of header files.
pub open spec fn header_extension(e: Seq<char>) -> bool {
    e == "h"@ || e == "hh"@ || e == "H"@ || e == "hp"@ || e == "hxx"@ || e == "hpp"@ || e
        == "HPP"@ || e == "h++"@ || e == "tcc"@
}

/// The extensions of C, C++, CUDA and Objective-C sources.
pub open spec fn c_family_extension(e: Seq<char>) -> bool {
    e == "c"@ || e == "C"@ || e == "cc"@ || e == "CC"@ || e == "c++"@ || e == "C++"@ || e
        == "cxx"@ || e == "cpp"@ || e == "cp"@ || e == "cu"@ || e == "m"@ || e == "mi"@ || e
        == "mm"@ || e == "M"@ || e == "mii"@
}

/// The extensions of preprocessed and assembly sources.
pub open spec fn low_level_extension(e: Seq<char>) -> bool {
    e == "i"@ || e == "ii"@ || e == "s"@ || e == "S"@ || e == "sx"@ || e == "asm"@
}

/// The extensions of Fortran sources.
pub open spec fn fortran_extension(e: Seq<char>) -> bool {
    e == "f"@ || e == "for"@ || e == "ftn"@ || e == "F"@ || e == "FOR"@ || e == "fpp"@ || e
        == "FPP"@ || e == "FTN"@ || e == "f90"@ || e == "f95"@ || e == "f03"@ || e == "f08"@
        || e == "F90"@ || e == "F95"@ || e == "F03"@ || e == "F08"@
}

/// The extensions of Go, BrigIL, D and Ada sources.
pub open spec fn other_extension(e: Seq<char>) -> bool {
    e == "go"@ || e == "brig"@ || e == "d"@ || e == "di"@ || e == "dd"@ || e == "ads"@ || e
        == "abd"@
}

/// The fixed, case-sensitive table of extensions that mark a source file.
pub open spec fn known_extension(e: Seq<char>) -> bool {
    header_extension(e) || c_family_extension(e) || low_level_extension(e)
        || fortran_extension(e) || other_extension(e)
}

/// An argument is a source file when it does not start like a flag and the
/// text after its last `.` is a known extension.
pub open spec fn is_source_file(argument: Seq<char>) -> bool {
    !starts_like_flag(argument) && match extension_of(argument) {
        Some(e) => known_extension(e),
        None => false,
    }
}

fn is_header_extension(e: &str) -> (known: bool)
    ensures
        known == header_extension(e@),
{
    str_equal(e, "h") || str_equal(e, "hh") || str_equal(e, "H") || str_equal(e, "hp")
        || str_equal(e, "hxx") || str_equal(e, "hpp") || str_equal(e, "HPP") || str_equal(
        e,
        "h++",
    ) || str_equal(e, "tcc")
}

fn is_c_family_extension(e: &str) -> (known: bool)
    ensures
        known == c_family_extension(e@),
{
    str_equal(e, "c") || str_equal(e, "C") || str_equal(e, "cc") || str_equal(e, "CC")
        || str_equal(e, "c++") || str_equal(e, "C++") || str_equal(e, "cxx") || str_equal(
        e,
        "cpp",
    ) || str_equal(e, "cp") || str_equal(e, "cu") || str_equal(e, "m") || str_equal(e, "mi")
        || str_equal(e, "mm") || str_equal(e, "M") || str_equal(e, "mii")
}

fn is_low_level_extension(e: &str) -> (known: bool)
    ensures
        known == low_level_extension(e@),
{
    str_equal(e, "i") || str_equal(e, "ii") || str_equal(e, "s") || str_equal(e, "S")
        || str_equal(e, "sx") || str_equal(e, "asm")
}

fn is_fortran_extension(e: &str) -> (known: bool)
    ensures
        known == fortran_extension(e@),
{
    str_equal(e, "f") || str_equal(e, "for") || str_equal(e, "ftn") || str_equal(e, "F")
        || str_equal(e, "FOR") || str_equal(e, "fpp") || str_equal(e, "FPP") || str_equal(
        e,
        "FTN",
    ) || str_equal(e, "f90") || str_equal(e, "f95") || str_equal(e, "f03") || str_equal(
        e,
        "f08",
    ) || str_equal(e, "F90") || str_equal(e, "F95") || str_equal(e, "F03") || str_equal(
        e,
        "F08",
    )
}

fn is_other_extension(e: &str) -> (known: bool)
    ensures
        known == other_extension(e@),
{
    str_equal(e, "go") || str_equal(e, "brig") || str_equal(e, "d") || str_equal(e, "di")
        || str_equal(e, "dd") || str_equal(e, "ads") || str_equal(e, "abd")
}

/// Whether `e` is in the table of source and header extensions.
pub fn is_known_extension(e: &str) -> (known: bool)
    ensures
        known == known_extension(e@),
{
    is_header_extension(e) || is_c_family_extension(e) || is_low_level_extension(e)
        || is_fortran_extension(e) || is_other_extension(e)
}

/// Whether an argument of a compiler call names a source file rather than a
/// flag or the value of a flag. Total over all strings.
pub fn looks_like_a_source_file(argument: &str) -> (source: bool)
    ensures
        source == is_source_file(argument@),
{
    let n: usize = argument.unicode_len();
    if n == 0 {
        return false;
    }
    let first = argument.get_char(0);
    if first == '-' || first == '/' {
        return false;
    }
    proof {
        lemma_last_position(argument@, '.');
    }
    match find_last(argument, '.') {
        Some(dot) => is_known_extension(argument.substring_char(dot + 1, n)),
        None => false,
    }
}

/// An argument that starts with `-` or `/` is never a source file, and
/// neither is one without a `.`.
pub proof fn lemma_flags_are_not_sources(argument: Seq<char>)
    ensures
        starts_like_flag(argument) ==> !is_source_file(argument),
        !argument.contains('.') ==> !is_source_file(argument),
{
    lemma_last_position(argument, '.');
}

} // verus!
