//! The tools that recognize an execution, and their composition.

use vstd::prelude::*;
use crate::execution::{Execution, ExecutionView};
use crate::semantic::{Semantic, SemanticView};
use crate::text::{contains_text, texts};

verus! {

/// Why a tool that took an execution for its own could not read it.
#[derive(Debug, Clone, Copy, PartialEq, Eq, Structural)]
pub enum RecognitionError {
    /// The call names no source file.
    SourceNotFound,
    /// The executable could not be asked about itself.
    ExecutableFailure,
}

impl RecognitionError {
    /// The message of the error.
    pub fn message(&self) -> (text: String)
        ensures
            text@ == match *self {
                RecognitionError::SourceNotFound => "source file is not found"@,
                RecognitionError::ExecutableFailure => "executable failure"@,
            },
    {
        match self {
            RecognitionError::SourceNotFound => String::from_str("source file is not found"),
            RecognitionError::ExecutableFailure => String::from_str("executable failure"),
        }
    }
}

/// What a tool says of an execution: that it is its own, with what it means
/// or why it could not be read, or that it is not.
#[derive(Debug, PartialEq)]
pub enum RecognitionResult {
    Recognized(Result<Semantic, RecognitionError>),
    NotRecognized,
}

/// The texts of a recognition result.
pub enum RecognitionView {
    Recognized(Result<SemanticView, RecognitionError>),
    NotRecognized,
}

impl View for RecognitionResult {
    type V = RecognitionView;

    open spec fn view(&self) -> RecognitionView {
        match *self {
            RecognitionResult::Recognized(Ok(semantic)) => RecognitionView::Recognized(
                Ok(semantic@),
            ),
            RecognitionResult::Recognized(Err(e)) => RecognitionView::Recognized(Err(e)),
            RecognitionResult::NotRecognized => RecognitionView::NotRecognized,
        }
    }
}

/// A tool that is known to us. It may recognize an execution as its own and
/// say what it means.
pub trait Tool {
    /// What the tool makes of an execution, as a function of its texts. A
    /// tool that does not say otherwise recognizes nothing.
    open spec fn recognized(&self, x: ExecutionView) -> RecognitionView {
        RecognitionView::NotRecognized
    }

    /// Recognizes the execution, or declines to.
    fn recognize(&self, x: &Execution) -> (r: RecognitionResult)
        ensures
            r@ == self.recognized(x@),
    ;
}

/// The result of the first tool that recognizes the execution.
pub open spec fn first_recognized<T: Tool>(tools: Seq<T>, x: ExecutionView) -> RecognitionView
    decreases tools.len(),
{
    if tools.len() == 0 {
        RecognitionView::NotRecognized
    } else {
        match tools[0].recognized(x) {
            RecognitionView::NotRecognized => first_recognized(tools.drop_first(), x),
            result => result,
        }
    }
}

/// Several tools in the order in which they are asked.
pub struct Any<T: Tool> {
    pub tools: Vec<T>,
}

impl<T: Tool> Tool for Any<T> {
    /// The first tool that recognizes the execution decides, also when it
    /// recognizes it with a failure.
    open spec fn recognized(&self, x: ExecutionView) -> RecognitionView {
        first_recognized(self.tools@, x)
    }

    fn recognize(&self, x: &Execution) -> (r: RecognitionResult) {
        let mut i: usize = 0;
        assert(self.tools@.skip(0) =~= self.tools@);
        while i < self.tools.len()
            invariant
                i <= self.tools.len(),
                first_recognized(self.tools@, x@) == first_recognized(
                    self.tools@.skip(i as int),
                    x@,
                ),
            decreases self.tools.len() - i,
        {
            assert(self.tools@.skip(i as int).drop_first() =~= self.tools@.skip(i + 1));
            match self.tools[i].recognize(x) {
                RecognitionResult::Recognized(result) => {
                    return RecognitionResult::Recognized(result);
                },
                RecognitionResult::NotRecognized => {},
            }
            i = i + 1;
        }
        RecognitionResult::NotRecognized
    }
}

/// A tool behind a list of executables that are never recognized.
pub struct ExcludeOr<T: Tool> {
    pub excludes: Vec<String>,
    pub or: T,
}

impl<T: Tool> Tool for ExcludeOr<T> {
    /// An executable on the list is not recognized, whatever the tool behind
    /// the list would say of it.
    open spec fn recognized(&self, x: ExecutionView) -> RecognitionView {
        if texts(self.excludes@).contains(x.executable) {
            RecognitionView::NotRecognized
        } else {
            self.or.recognized(x)
        }
    }

    fn recognize(&self, x: &Execution) -> (r: RecognitionResult) {
        if contains_text(&self.excludes, x.executable.as_str()) {
            RecognitionResult::NotRecognized
        } else {
            self.or.recognize(x)
        }
    }
}

/// A tool in a box is the tool.
impl<T: Tool> Tool for Box<T> {
    open spec fn recognized(&self, x: ExecutionView) -> RecognitionView {
        (**self).recognized(x)
    }

    fn recognize(&self, x: &Execution) -> (r: RecognitionResult) {
        (**self).recognize(x)
    }
}

/// An executable on the list of excluded ones is not recognized, whatever
/// the tool behind the list makes of the execution.
pub proof fn lemma_excluded_is_not_recognized<T: Tool>(tool: ExcludeOr<T>, x: ExecutionView)
    requires
        texts(tool.excludes@).contains(x.executable),
    ensures
        tool.recognized(x) == RecognitionView::NotRecognized,
{
}

/// An executable that is not on the list of excluded ones is left to the
/// tool behind the list.
pub proof fn lemma_not_excluded_is_delegated<T: Tool>(tool: ExcludeOr<T>, x: ExecutionView)
    requires
        !texts(tool.excludes@).contains(x.executable),
    ensures
        tool.recognized(x) == tool.or.recognized(x),
{
}

/// The first tool in the list that recognizes the execution decides for the
/// whole list, whether it recognizes it with success or with a failure and
/// whatever the tools after it would say.
pub proof fn lemma_first_tool_decides<T: Tool>(tools: Seq<T>, x: ExecutionView, i: int)
    requires
        0 <= i < tools.len(),
        forall|j: int| 0 <= j < i ==> (#[trigger] tools[j]).recognized(x) is NotRecognized,
        !(tools[i].recognized(x) is NotRecognized),
    ensures
        first_recognized(tools, x) == tools[i].recognized(x),
    decreases i,
{
    if i > 0 {
        assert(tools[0].recognized(x) is NotRecognized);
        let later = tools.drop_first();
        assert forall|j: int| 0 <= j < i - 1 implies (#[trigger] later[j]).recognized(
            x,
        ) is NotRecognized by {
            assert(tools[j + 1].recognized(x) is NotRecognized);
        }
        assert(later[i - 1] == tools[i]);
        lemma_first_tool_decides(later, x, i - 1);
    }
}

/// Where no tool in the list recognizes the execution, the list does not.
pub proof fn lemma_no_tool_recognizes<T: Tool>(tools: Seq<T>, x: ExecutionView)
    requires
        forall|j: int|
            0 <= j < tools.len() ==> (#[trigger] tools[j]).recognized(x) is NotRecognized,
    ensures
        first_recognized(tools, x) == RecognitionView::NotRecognized,
    decreases tools.len(),
{
    if tools.len() > 0 {
        assert(tools[0].recognized(x) is NotRecognized);
        let later = tools.drop_first();
        assert forall|j: int| 0 <= j < later.len() implies (#[trigger] later[j]).recognized(
            x,
        ) is NotRecognized by {
            assert(tools[j + 1].recognized(x) is NotRecognized);
        }
        lemma_no_tool_recognizes(later, x);
    }
}

} // verus!
