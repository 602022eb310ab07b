//! The chain of tools that a configuration asks for.

use vstd::prelude::*;
use crate::configuration::{Compilation, CompilerToRecognize, Configuration};
use crate::execution::{Execution, ExecutionView};
use crate::generic::{generic_recognized, GenericCompilerMatch};
use crate::text::{copy_of, texts};
use crate::configured::{configured_recognized, first_configured, same_config, Configured};
use crate::tools::{
    first_recognized,
    Any,
    ExcludeOr,
    RecognitionResult,
    RecognitionView,
    Tool,
};

verus! {

/// A tool that recognizes compilers: a configured one or the generic one.
pub enum CompilerTool {
    Configured(Configured),
    Generic(GenericCompilerMatch),
}

impl Tool for CompilerTool {
    open spec fn recognized(&self, x: ExecutionView) -> RecognitionView {
        match *self {
            CompilerTool::Configured(tool) => tool.recognized(x),
            CompilerTool::Generic(tool) => tool.recognized(x),
        }
    }

    fn recognize(&self, x: &Execution) -> (r: RecognitionResult) {
        match self {
            CompilerTool::Configured(tool) => tool.recognize(x),
            CompilerTool::Generic(tool) => tool.recognize(x),
        }
    }
}

/// The tools of a configuration: the compiler tools in their order, behind
/// the list of excluded executables where there is one.
pub enum Chain {
    Open(Any<CompilerTool>),
    Guarded(ExcludeOr<Any<CompilerTool>>),
}

impl Tool for Chain {
    open spec fn recognized(&self, x: ExecutionView) -> RecognitionView {
        match *self {
            Chain::Open(tools) => tools.recognized(x),
            Chain::Guarded(tools) => tools.recognized(x),
        }
    }

    fn recognize(&self, x: &Execution) -> (r: RecognitionResult) {
        match self {
            Chain::Open(tools) => tools.recognize(x),
            Chain::Guarded(tools) => tools.recognize(x),
        }
    }
}

/// What the chain of a configuration makes of an execution. An excluded
/// executable is never recognized. Of the others the configured compilers
/// are asked first, in their order, and the generic tool last.
pub open spec fn chain_recognized(
    configs: Seq<CompilerToRecognize>,
    excludes: Seq<Seq<char>>,
    x: ExecutionView,
) -> RecognitionView {
    if excludes.contains(x.executable) {
        RecognitionView::NotRecognized
    } else {
        match first_configured(configs, x) {
            RecognitionView::NotRecognized => generic_recognized(x),
            result => result,
        }
    }
}

/// Whether the tool is the configured tool of `config`.
pub open spec fn is_tool_of(tool: CompilerTool, config: CompilerToRecognize) -> bool {
    match tool {
        CompilerTool::Configured(own) => same_config(own.config, config),
        CompilerTool::Generic(_) => false,
    }
}

/// The tools of a chain: one per configured compiler, then the generic one.
pub open spec fn is_chain_of(tools: Seq<CompilerTool>, configs: Seq<CompilerToRecognize>) -> bool {
    &&& tools.len() == configs.len() + 1
    &&& forall|j: int| 0 <= j < configs.len() ==> is_tool_of(#[trigger] tools[j], configs[j])
    &&& tools[configs.len() as int] is Generic
}

/// Asking the tools of a chain in their order gives what the configured
/// compilers give, and where none of them recognizes, what the generic tool gives.
pub proof fn lemma_chain_order(
    tools: Seq<CompilerTool>,
    configs: Seq<CompilerToRecognize>,
    x: ExecutionView,
)
    requires
        is_chain_of(tools, configs),
    ensures
        first_recognized(tools, x) == match first_configured(configs, x) {
            RecognitionView::NotRecognized => generic_recognized(x),
            result => result,
        },
    decreases configs.len(),
{
    if configs.len() == 0 {
        assert(tools[0] is Generic);
        assert(tools.drop_first().len() == 0);
        assert(first_recognized(tools.drop_first(), x) == RecognitionView::NotRecognized);
    } else {
        assert(tools[0] is Configured);
        assert(tools[0].recognized(x) == configured_recognized(configs[0], x));
        let later = tools.drop_first();
        assert forall|j: int| 0 <= j < configs.drop_first().len() implies is_tool_of(
            #[trigger] later[j],
            configs.drop_first()[j],
        ) by {
            assert(later[j] == tools[j + 1]);
            assert(is_tool_of(tools[j + 1], configs[j + 1]));
        }
        assert(later[configs.drop_first().len() as int] == tools[configs.len() as int]);
        lemma_chain_order(later, configs.drop_first(), x);
    }
}

impl Chain {
    /// Builds the chain of a configuration: one tool for each compiler to
    /// recognize, in the order of the configuration, then the generic tool;
    /// all of them behind the excluded executables where any are named.
    pub fn from(value: &Compilation) -> (chain: Chain)
        ensures
            chain is Guarded <==> value.compilers_to_exclude@.len() > 0,
            match chain {
                Chain::Open(any) => is_chain_of(any.tools@, value.compilers_to_recognize@),
                Chain::Guarded(guard) => is_chain_of(
                    guard.or.tools@,
                    value.compilers_to_recognize@,
                ) && guard.excludes@ == value.compilers_to_exclude@,
            },
            forall|x: ExecutionView| #[trigger]
                chain.recognized(x) == chain_recognized(
                    value.compilers_to_recognize@,
                    texts(value.compilers_to_exclude@),
                    x,
                ),
    {
        let configs = &value.compilers_to_recognize;
        let mut tools: Vec<CompilerTool> = Vec::new();
        let mut i: usize = 0;
        while i < configs.len()
            invariant
                i <= configs.len(),
                tools@.len() == i,
                forall|j: int| 0 <= j < i ==> is_tool_of(#[trigger] tools@[j], configs@[j]),
            decreases configs.len() - i,
        {
            tools.push(CompilerTool::Configured(Configured::new(&configs[i])));
            i = i + 1;
        }
        tools.push(CompilerTool::Generic(GenericCompilerMatch {}));
        assert(is_chain_of(tools@, configs@));
        let any = Any { tools };
        assert forall|x: ExecutionView| #[trigger]
            any.recognized(x) == chain_recognized(configs@, Seq::empty(), x) by {
            lemma_chain_order(any.tools@, configs@, x);
        }
        if value.compilers_to_exclude.len() > 0 {
            Chain::Guarded(ExcludeOr { excludes: copy_of(&value.compilers_to_exclude), or: any })
        } else {
            assert(texts(value.compilers_to_exclude@) =~= Seq::empty());
            Chain::Open(any)
        }
    }

    /// The chain of a whole configuration. Where it says nothing of the
    /// compilation, only the well-known compilers are recognized.
    pub fn of(configuration: &Configuration) -> (chain: Chain)
        ensures
            chain is Guarded <==> configuration.compilers_to_exclude().len() > 0,
            forall|x: ExecutionView| #[trigger]
                chain.recognized(x) == chain_recognized(
                    configuration.compilers_to_recognize(),
                    texts(configuration.compilers_to_exclude()),
                    x,
                ),
    {
        match &configuration.compilation {
            Some(compilation) => Chain::from(compilation),
            None => Chain::from(&Compilation::default()),
        }
    }
}

/// An excluded executable is never recognized by the chain, whatever
/// compilers are configured.
pub proof fn lemma_chain_excludes(
    configs: Seq<CompilerToRecognize>,
    excludes: Seq<Seq<char>>,
    x: ExecutionView,
)
    requires
        excludes.contains(x.executable),
    ensures
        chain_recognized(configs, excludes, x) == RecognitionView::NotRecognized,
{
}

/// What the first configured compiler of the executable makes of an
/// execution stands for the whole chain, also where the generic tool would
/// have recognized it otherwise: the configuration comes before the heuristic.
pub proof fn lemma_configured_comes_first(
    configs: Seq<CompilerToRecognize>,
    excludes: Seq<Seq<char>>,
    x: ExecutionView,
    i: int,
)
    requires
        !excludes.contains(x.executable),
        0 <= i < configs.len(),
        configs[i].executable@ == x.executable,
        forall|j: int| 0 <= j < i ==> (#[trigger] configs[j]).executable@ != x.executable,
    ensures
        chain_recognized(configs, excludes, x) == configured_recognized(configs[i], x),
    decreases i,
{
    if i > 0 {
        assert(configs[0].executable@ != x.executable);
        let later = configs.drop_first();
        assert forall|j: int| 0 <= j < i - 1 implies (#[trigger] later[j]).executable@
            != x.executable by {
            assert(configs[j + 1].executable@ != x.executable);
        }
        assert(later[i - 1] == configs[i]);
        lemma_configured_comes_first(later, excludes, x, i - 1);
    }
}

} // verus!
