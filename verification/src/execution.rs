//! One captured process execution.

use std::collections::HashMap;
use vstd::prelude::*;
use crate::text::texts;

verus! {

/// One observed process invocation. Argument 0 is by convention the name
/// the program was invoked by.
#[derive(Debug, Clone, PartialEq)]
pub struct Execution {
    pub executable: String,
    pub arguments: Vec<String>,
    pub working_dir: String,
    pub environment: HashMap<String, String>,
}

/// What recognition reads of an execution: its texts. The environment plays
/// no part in it.
pub struct ExecutionView {
    pub executable: Seq<char>,
    pub arguments: Seq<Seq<char>>,
    pub working_dir: Seq<char>,
}

impl View for Execution {
    type V = ExecutionView;

    open spec fn view(&self) -> ExecutionView {
        ExecutionView {
            executable: self.executable@,
            arguments: texts(self.arguments@),
            working_dir: self.working_dir@,
        }
    }
}

} // verus!
