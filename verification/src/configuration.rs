//! The configuration of the recognition and of the output.

use vstd::prelude::*;
use crate::text::str_equal;

verus! {

/// The whole configuration.
#[derive(Debug, Clone, PartialEq)]
pub struct Configuration {
    pub output: Option<Output>,
    pub compilation: Option<Compilation>,
}

/// What to recognize as a compiler, and what never to.
#[derive(Debug, Clone, PartialEq)]
pub struct Compilation {
    pub compilers_to_recognize: Vec<CompilerToRecognize>,
    pub compilers_to_exclude: Vec<String>,
}

/// A compiler, or a wrapper of one, to recognize by the path of its
/// executable. Its arguments are read as those of a known compiler; the
/// flags to remove are dropped from them and the flags to add follow them.
#[derive(Debug, Clone, PartialEq)]
pub struct CompilerToRecognize {
    pub executable: String,
    pub flags_to_add: Vec<String>,
    pub flags_to_remove: Vec<String>,
}

/// The configuration of the output.
#[derive(Debug, Clone, PartialEq)]
pub struct Output {
    pub format: Option<Format>,
    pub content: Option<Content>,
}

/// The form of the entries in the output.
#[derive(Debug, Clone, PartialEq)]
pub struct Format {
    /// Whether the command is written as an array of strings; when missing, it is.
    pub command_as_array: Option<bool>,
    /// Whether the output field is left out; when missing, it is not.
    pub drop_output_field: Option<bool>,
}

/// Which entries reach the output.
#[derive(Debug, Clone, PartialEq)]
pub struct Content {
    /// Whether only sources that exist are kept; when missing, all are.
    pub include_only_existing_source: Option<bool>,
    pub duplicate_filter_fields: Option<DuplicateFilterFields>,
    pub paths_to_include: Vec<String>,
    pub paths_to_exclude: Vec<String>,
}

/// The fields of an entry by which a duplicate is told.
#[derive(Debug, Clone, Copy, PartialEq, Eq, Structural)]
pub enum DuplicateFilterFields {
    FileOnly,
    FileAndOutputOnly,
    All,
}

/// The fields that a name of the configuration file stands for.
pub open spec fn fields_named(name: Seq<char>) -> Option<DuplicateFilterFields> {
    if name == "file"@ {
        Some(DuplicateFilterFields::FileOnly)
    } else if name == "file_output"@ {
        Some(DuplicateFilterFields::FileAndOutputOnly)
    } else if name == "all"@ {
        Some(DuplicateFilterFields::All)
    } else {
        None
    }
}

/// The message for a name that stands for no fields.
pub open spec fn unknown_fields_message(name: Seq<char>) -> Seq<char> {
    "Unknown value \""@ + name + "\" for duplicate filter"@
}

impl DuplicateFilterFields {
    /// Reads the name that the configuration file gives to a choice of
    /// fields: `file`, `file_output` or `all`. Any other name is an error,
    /// whose message quotes it.
    pub fn parse(value: &str) -> (r: Result<DuplicateFilterFields, String>)
        ensures
            match r {
                Ok(fields) => fields_named(value@) == Some(fields),
                Err(message) => fields_named(value@) is None && message@
                    == unknown_fields_message(value@),
            },
    {
        if str_equal(value, "file") {
            Ok(DuplicateFilterFields::FileOnly)
        } else if str_equal(value, "file_output") {
            Ok(DuplicateFilterFields::FileAndOutputOnly)
        } else if str_equal(value, "all") {
            Ok(DuplicateFilterFields::All)
        } else {
            let message = String::from_str("Unknown value \"").concat(value).concat(
                "\" for duplicate filter",
            );
            Err(message)
        }
    }
}

impl TryFrom<String> for DuplicateFilterFields {
    type Error = String;

    /// Reads the name of a choice of fields: see `DuplicateFilterFields::parse`.
    fn try_from(value: String) -> (r: Result<DuplicateFilterFields, String>)
        ensures
            match r {
                Ok(fields) => fields_named(value@) == Some(fields),
                Err(message) => fields_named(value@) is None && message@
                    == unknown_fields_message(value@),
            },
    {
        DuplicateFilterFields::parse(value.as_str())
    }
}

impl vstd::std_specs::convert::TryFromSpecImpl<String> for DuplicateFilterFields {
    /// The conversion is stated over the text of its argument, in the
    /// contract of `try_from`.
    open spec fn obeys_try_from_spec() -> bool {
        false
    }

    open spec fn try_from_spec(v: String) -> Result<Self, Self::Error> {
        arbitrary()
    }
}

impl Default for Compilation {
    /// No compiler to recognize beyond the well-known ones, and none to exclude.
    fn default() -> (r: Compilation)
        ensures
            r.compilers_to_recognize@ == Seq::<CompilerToRecognize>::empty(),
            r.compilers_to_exclude@ == Seq::<String>::empty(),
    {
        Compilation { compilers_to_recognize: Vec::new(), compilers_to_exclude: Vec::new() }
    }
}

impl Default for Content {
    /// Every path passes, and the way to tell duplicates is left open.
    fn default() -> (r: Content)
        ensures
            r.include_only_existing_source is None,
            r.duplicate_filter_fields is None,
            r.paths_to_include@ == Seq::<String>::empty(),
            r.paths_to_exclude@ == Seq::<String>::empty(),
    {
        Content {
            include_only_existing_source: None,
            duplicate_filter_fields: None,
            paths_to_include: Vec::new(),
            paths_to_exclude: Vec::new(),
        }
    }
}

impl Configuration {
    /// The compilers to recognize; none where the configuration is silent.
    pub open spec fn compilers_to_recognize(&self) -> Seq<CompilerToRecognize> {
        match self.compilation {
            Some(compilation) => compilation.compilers_to_recognize@,
            None => Seq::empty(),
        }
    }

    /// The executables to exclude; none where the configuration is silent.
    pub open spec fn compilers_to_exclude(&self) -> Seq<String> {
        match self.compilation {
            Some(compilation) => compilation.compilers_to_exclude@,
            None => Seq::empty(),
        }
    }

    /// The configuration of the content of the output, if there is one.
    pub open spec fn content(&self) -> Option<Content> {
        match self.output {
            Some(output) => output.content,
            None => None,
        }
    }
}

impl Default for Configuration {
    fn default() -> (r: Configuration)
        ensures
            r.output is None,
            r.compilation is None,
    {
        Configuration { output: None, compilation: None }
    }
}

} // verus!
