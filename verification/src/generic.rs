//! Recognition of well-known compilers by the name of the executable.

use vstd::prelude::*;
use crate::execution::{Execution, ExecutionView};
use crate::text::{find_last, last_position, lemma_last_position, str_equal, texts};
use crate::configured::{read_arguments, read_as_compiler};
use crate::tools::{RecognitionResult, RecognitionView, Tool};

verus! {

/// The last component of a path: the text after its last `/`, or all of it.
pub open spec fn file_name_of(path: Seq<char>) -> Seq<char> {
    path.skip(last_position(path, '/') + 1)
}

/// A decimal digit.
pub open spec fn is_digit(c: char) -> bool {
    c == '0' || c == '1' || c == '2' || c == '3' || c == '4' || c == '5' || c == '6' || c == '7'
        || c == '8' || c == '9'
}

/// A character of a version number: a digit or a dot.
pub open spec fn is_version_char(c: char) -> bool {
    is_digit(c) || c == '.'
}

/// Where the digits and dots at the end of `name` begin; the length of
/// `name` when it ends in none.
pub open spec fn version_start(name: Seq<char>) -> int
    decreases name.len(),
{
    if name.len() > 0 && is_version_char(name.last()) {
        version_start(name.drop_last())
    } else {
        name.len() as int
    }
}

/// The name without a version at its end: a `-` followed by digits and dots
/// of which the first is a digit, as in `gcc-12` or `clang-15.0`.
pub open spec fn without_version(name: Seq<char>) -> Seq<char> {
    let start = version_start(name);
    if 0 < start < name.len() && name[start - 1] == '-' && is_digit(name[start]) {
        name.take(start - 1)
    } else {
        name
    }
}

/// The name without the target that the tool was built for: the text after
/// the last `-`, as `gcc` in `arm-none-eabi-gcc`, or all of it.
pub open spec fn without_target(name: Seq<char>) -> Seq<char> {
    name.skip(last_position(name, '-') + 1)
}

/// The name of the tool that an executable holds: its file name without a
/// version at its end and without a target at its start.
pub open spec fn tool_name_of(executable: Seq<char>) -> Seq<char> {
    without_target(without_version(file_name_of(executable)))
}

/// The names of the well-known compilers.
pub open spec fn known_compiler_name(name: Seq<char>) -> bool {
    name == "cc"@ || name == "c++"@ || name == "cxx"@ || name == "CC"@ || name == "gcc"@ || name
        == "g++"@ || name == "clang"@ || name == "clang++"@ || name == "gfortran"@ || name
        == "f77"@ || name == "f95"@ || name == "nvcc"@
}

/// An executable is taken for a compiler when the name of its tool is that
/// of a well-known compiler, in whatever directory it lies, for whatever
/// target it was built and in whatever version.
pub open spec fn looks_like_a_compiler(executable: Seq<char>) -> bool {
    known_compiler_name(tool_name_of(executable))
}

/// Whether `name` is the name of a well-known compiler.
pub fn is_known_compiler_name(name: &str) -> (known: bool)
    ensures
        known == known_compiler_name(name@),
{
    str_equal(name, "cc") || str_equal(name, "c++") || str_equal(name, "cxx") || str_equal(
        name,
        "CC",
    ) || str_equal(name, "gcc") || str_equal(name, "g++") || str_equal(name, "clang")
        || str_equal(name, "clang++") || str_equal(name, "gfortran") || str_equal(name, "f77")
        || str_equal(name, "f95") || str_equal(name, "nvcc")
}

/// The text of `text` after the last `separator`, or all of it.
pub fn after_last<'a>(text: &'a str, separator: char) -> (rest: &'a str)
    ensures
        rest@ == text@.skip(last_position(text@, separator) + 1),
{
    let n: usize = text.unicode_len();
    proof {
        lemma_last_position(text@, separator);
    }
    let start: usize = match find_last(text, separator) {
        Some(at) => at + 1,
        None => 0,
    };
    assert(text@.subrange(start as int, n as int) =~= text@.skip(start as int));
    text.substring_char(start, n)
}

/// Whether `c` is a decimal digit.
pub fn is_digit_character(c: char) -> (digit: bool)
    ensures
        digit == is_digit(c),
{
    c == '0' || c == '1' || c == '2' || c == '3' || c == '4' || c == '5' || c == '6' || c == '7'
        || c == '8' || c == '9'
}

/// Whether `c` is a digit or a dot.
pub fn is_version_character(c: char) -> (version: bool)
    ensures
        version == is_version_char(c),
{
    is_digit_character(c) || c == '.'
}

/// The name without a version at its end.
pub fn strip_version<'a>(name: &'a str) -> (stem: &'a str)
    ensures
        stem@ == without_version(name@),
{
    let n: usize = name.unicode_len();
    let mut start: usize = n;
    assert(name@.take(n as int) =~= name@);
    while start > 0 && is_version_character(name.get_char(start - 1))
        invariant
            start <= n,
            n == name@.len(),
            version_start(name@) == version_start(name@.take(start as int)),
        decreases start,
    {
        assert(name@.take(start as int).drop_last() =~= name@.take(start - 1));
        start = start - 1;
    }
    assert(version_start(name@) == start) by {
        if start > 0 {
            assert(name@.take(start as int).last() == name@[start - 1]);
        }
    }
    if 0 < start && start < n && name.get_char(start - 1) == '-' && is_digit_character(
        name.get_char(start),
    ) {
        assert(name@.subrange(0, start - 1) =~= name@.take(start - 1));
        name.substring_char(0, start - 1)
    } else {
        name
    }
}

/// Whether the executable is taken for a compiler.
pub fn is_compiler_executable(executable: &str) -> (compiler: bool)
    ensures
        compiler == looks_like_a_compiler(executable@),
{
    let file_name = after_last(executable, '/');
    let tool_name = after_last(strip_version(file_name), '-');
    is_known_compiler_name(tool_name)
}

/// Recognizes the calls of well-known compilers without any configuration.
/// The arguments are read as they are: no flag is removed and none added.
pub struct GenericCompilerMatch {}

impl Tool for GenericCompilerMatch {
    open spec fn recognized(&self, x: ExecutionView) -> RecognitionView {
        generic_recognized(x)
    }

    fn recognize(&self, x: &Execution) -> (r: RecognitionResult) {
        if is_compiler_executable(x.executable.as_str()) {
            let none: Vec<String> = Vec::new();
            assert(texts(none@) =~= Seq::empty());
            read_arguments(x, &none, &none)
        } else {
            RecognitionResult::NotRecognized
        }
    }
}

/// What the generic tool makes of an execution.
pub open spec fn generic_recognized(x: ExecutionView) -> RecognitionView {
    if looks_like_a_compiler(x.executable) {
        read_as_compiler(x, Seq::empty(), Seq::empty())
    } else {
        RecognitionView::NotRecognized
    }
}

} // verus!
