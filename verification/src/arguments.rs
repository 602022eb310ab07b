//! The arguments of a run, and what they say of where to read and write.

use vstd::prelude::*;
use crate::text::{opt_text, str_equal};

verus! {

/// The arguments of one run.
#[derive(Debug, Clone, PartialEq)]
pub struct Arguments {
    /// Where the executions are read from; `-` is the standard input.
    pub input: String,
    /// Where the entries are written to; `-` is the standard output.
    pub output: String,
    /// Where the configuration is read from, if anywhere.
    pub config: Option<String>,
    /// Whether the entries of an existing output are kept.
    pub append: bool,
    /// How much is logged.
    pub verbose: u8,
}

/// Why a set of arguments cannot be run.
#[derive(Debug, Clone, Copy, PartialEq, Eq, Structural)]
pub enum ArgumentsError {
    /// The executions and the configuration would both be read from the
    /// standard input.
    StdinUsedTwice,
    /// Entries cannot be appended to the standard output.
    AppendToStdout,
}

impl ArgumentsError {
    /// The message of the error.
    pub fn message(&self) -> (text: String)
        ensures
            text@ == match *self {
                ArgumentsError::StdinUsedTwice =>
                    "Both input and config reading the standard input."@,
                ArgumentsError::AppendToStdout => "Append can't applied to the standard output."@,
            },
    {
        match self {
            ArgumentsError::StdinUsedTwice => String::from_str(
                "Both input and config reading the standard input.",
            ),
            ArgumentsError::AppendToStdout => String::from_str(
                "Append can't applied to the standard output.",
            ),
        }
    }
}

/// What is wrong with the arguments, if anything. Reading the standard input
/// twice is found before appending to the standard output.
pub open spec fn fault_of(
    input: Seq<char>,
    output: Seq<char>,
    config: Option<Seq<char>>,
    append: bool,
) -> Option<ArgumentsError> {
    if input == "-"@ && config == Some("-"@) {
        Some(ArgumentsError::StdinUsedTwice)
    } else if append && output == "-"@ {
        Some(ArgumentsError::AppendToStdout)
    } else {
        None
    }
}

/// A name that stands for the standard input.
pub open spec fn names_stdin(name: Seq<char>) -> bool {
    name == "-"@ || name == "/dev/stdin"@
}

/// A name that stands for the standard output.
pub open spec fn names_stdout(name: Seq<char>) -> bool {
    name == "-"@ || name == "/dev/stdout"@
}

/// Where the entries of a run go.
#[derive(Debug, Clone, PartialEq, Eq)]
pub enum Destination {
    /// Straight to the standard output.
    Stdout,
    /// To the file `temporary`, which takes the place of `target` when all
    /// is written.
    File { temporary: String, target: String },
}

/// Whether `name` stands for the standard input.
pub fn reads_stdin(name: &str) -> (stdin: bool)
    ensures
        stdin == names_stdin(name@),
{
    str_equal(name, "-") || str_equal(name, "/dev/stdin")
}

/// Whether `name` stands for the standard output.
pub fn writes_stdout(name: &str) -> (stdout: bool)
    ensures
        stdout == names_stdout(name@),
{
    str_equal(name, "-") || str_equal(name, "/dev/stdout")
}

/// Where to write for the output `name`: the standard output, or a file
/// beside the target whose name is that of the target with `.tmp` behind it.
pub fn destination_of(name: &str) -> (destination: Destination)
    ensures
        match destination {
            Destination::Stdout => names_stdout(name@),
            Destination::File { temporary, target } => !names_stdout(name@) && target@ == name@
                && temporary@ == name@ + ".tmp"@,
        },
{
    if writes_stdout(name) {
        Destination::Stdout
    } else {
        Destination::File {
            temporary: String::from_str(name).concat(".tmp"),
            target: String::from_str(name),
        }
    }
}

impl Arguments {
    /// The arguments as they are, or what is wrong with them.
    pub fn validate(self) -> (r: Result<Arguments, ArgumentsError>)
        ensures
            match r {
                Ok(same) => same == self && fault_of(
                    self.input@,
                    self.output@,
                    opt_text(self.config),
                    self.append,
                ) is None,
                Err(e) => fault_of(
                    self.input@,
                    self.output@,
                    opt_text(self.config),
                    self.append,
                ) == Some(e),
            },
    {
        let config_is_stdin = match &self.config {
            Some(name) => str_equal(name.as_str(), "-"),
            None => false,
        };
        if str_equal(self.input.as_str(), "-") && config_is_stdin {
            return Err(ArgumentsError::StdinUsedTwice);
        }
        if self.append && str_equal(self.output.as_str(), "-") {
            return Err(ArgumentsError::AppendToStdout);
        }
        Ok(self)
    }
}

} // verus!
