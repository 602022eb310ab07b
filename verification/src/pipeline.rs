//! What a worker makes of one execution.

use vstd::prelude::*;
use crate::execution::Execution;
use crate::paths::ConversionError;
use crate::semantic::{entry_views, expansion, Entry, EntryView, Semantic, SemanticView};
use crate::tools::{RecognitionError, RecognitionResult, RecognitionView, Tool};

verus! {

/// What became of one execution.
#[derive(Debug, PartialEq)]
pub enum Outcome {
    /// A compiler call, with the entries that it stands for.
    Entries(Vec<Entry>),
    /// A compiler call whose entries could not be made; none of them is sent.
    ConversionFailed(ConversionError),
    /// Recognized, but no compiler call.
    Ignored,
    /// Recognized with a failure; the execution is dropped.
    Failed(RecognitionError),
    /// No tool took the execution for its own.
    NotRecognized,
}

/// The texts of an outcome.
pub enum OutcomeView {
    Entries(Seq<EntryView>),
    ConversionFailed(ConversionError),
    Ignored,
    Failed(RecognitionError),
    NotRecognized,
}

impl View for Outcome {
    type V = OutcomeView;

    open spec fn view(&self) -> OutcomeView {
        match *self {
            Outcome::Entries(entries) => OutcomeView::Entries(entry_views(entries@)),
            Outcome::ConversionFailed(e) => OutcomeView::ConversionFailed(e),
            Outcome::Ignored => OutcomeView::Ignored,
            Outcome::Failed(e) => OutcomeView::Failed(e),
            Outcome::NotRecognized => OutcomeView::NotRecognized,
        }
    }
}

/// The outcome that a recognition result leads to. Only a compiler call is
/// expanded, and a call that cannot be expanded yields no entry at all.
pub open spec fn outcome_of(result: RecognitionView) -> OutcomeView {
    match result {
        RecognitionView::Recognized(Ok(SemanticView::Compiler(call))) => match expansion(call) {
            Ok(entries) => OutcomeView::Entries(entries),
            Err(e) => OutcomeView::ConversionFailed(e),
        },
        RecognitionView::Recognized(Ok(_)) => OutcomeView::Ignored,
        RecognitionView::Recognized(Err(e)) => OutcomeView::Failed(e),
        RecognitionView::NotRecognized => OutcomeView::NotRecognized,
    }
}

/// Turns what a tool said of an execution into the outcome for the pipeline.
pub fn conclude(result: RecognitionResult) -> (outcome: Outcome)
    ensures
        outcome@ == outcome_of(result@),
{
    match result {
        RecognitionResult::Recognized(Ok(Semantic::Compiler(call))) => {
            match call.into_entries() {
                Ok(entries) => Outcome::Entries(entries),
                Err(e) => Outcome::ConversionFailed(e),
            }
        },
        RecognitionResult::Recognized(Ok(_)) => Outcome::Ignored,
        RecognitionResult::Recognized(Err(e)) => Outcome::Failed(e),
        RecognitionResult::NotRecognized => Outcome::NotRecognized,
    }
}

/// The work of a worker on one execution: asks the tool, and expands what it
/// recognized as a compiler call into entries.
pub fn process_execution<T: Tool>(tool: &T, execution: &Execution) -> (outcome: Outcome)
    ensures
        outcome@ == outcome_of(tool.recognized(execution@)),
{
    conclude(tool.recognize(execution))
}

} // verus!
