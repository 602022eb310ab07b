//! The tool of a configured compiler, and how the arguments of a compiler
//! call are read.

use vstd::prelude::*;
use crate::configuration::CompilerToRecognize;
use crate::execution::{Execution, ExecutionView};
use crate::semantic::{CompilerCall, CompilerCallView, Semantic, SemanticView};
use crate::source::{is_source_file, looks_like_a_source_file};
use crate::sequences::{
    lemma_filter_agree,
    lemma_filter_keeps,
    lemma_filter_members,
    lemma_filter_next,
};
use crate::text::{append_copies, contains_text, copy_of, texts};
use crate::tools::{
    first_recognized,
    Any,
    RecognitionError,
    RecognitionResult,
    RecognitionView,
    Tool,
};

verus! {

/// The arguments but the first, which is the name the program was called by.
pub open spec fn arguments_after_first(arguments: Seq<Seq<char>>) -> Seq<Seq<char>> {
    if arguments.len() == 0 {
        arguments
    } else {
        arguments.skip(1)
    }
}

/// Holds of an argument that is kept and names a source file.
pub open spec fn kept_source(remove: Seq<Seq<char>>) -> spec_fn(Seq<char>) -> bool {
    |a: Seq<char>| !remove.contains(a) && is_source_file(a)
}

/// Holds of an argument that is kept and is a flag or the value of one.
pub open spec fn kept_flag(remove: Seq<Seq<char>>) -> spec_fn(Seq<char>) -> bool {
    |a: Seq<char>| !remove.contains(a) && !is_source_file(a)
}

/// The sources of a call: the arguments after the first that are not to be
/// removed and name a source file, in their order.
pub open spec fn sources_of(arguments: Seq<Seq<char>>, remove: Seq<Seq<char>>) -> Seq<Seq<char>> {
    arguments_after_first(arguments).filter(kept_source(remove))
}

/// The flags of a call: the other arguments after the first that are not to
/// be removed, in their order, and then the flags to add.
pub open spec fn flags_of(
    arguments: Seq<Seq<char>>,
    remove: Seq<Seq<char>>,
    add: Seq<Seq<char>>,
) -> Seq<Seq<char>> {
    arguments_after_first(arguments).filter(kept_flag(remove)) + add
}

/// The execution read as a compile call: a failure when it names no source.
pub open spec fn read_as_compiler(
    x: ExecutionView,
    remove: Seq<Seq<char>>,
    add: Seq<Seq<char>>,
) -> RecognitionView {
    if sources_of(x.arguments, remove).len() == 0 {
        RecognitionView::Recognized(Err(RecognitionError::SourceNotFound))
    } else {
        RecognitionView::Recognized(
            Ok(
                SemanticView::Compiler(
                    CompilerCallView::Compile {
                        working_dir: x.working_dir,
                        compiler: x.executable,
                        flags: flags_of(x.arguments, remove, add),
                        sources: sources_of(x.arguments, remove),
                        output: None,
                    },
                ),
            ),
        )
    }
}

/// Reads the arguments of an execution as those of a compiler: sorts the
/// arguments after the first into sources and flags, without those to remove
/// and with the flags to add at the end.
pub fn read_arguments(x: &Execution, remove: &Vec<String>, add: &Vec<String>) -> (r:
    RecognitionResult)
    ensures
        r@ == read_as_compiler(x@, texts(remove@), texts(add@)),
{
    let ghost rest = arguments_after_first(texts(x.arguments@));
    let mut flags: Vec<String> = Vec::new();
    let mut sources: Vec<String> = Vec::new();
    let mut i: usize = 1;
    proof {
        reveal(Seq::filter);
        assert(rest.take(0).filter(kept_source(texts(remove@))) =~= texts(sources@));
        assert(rest.take(0).filter(kept_flag(texts(remove@))) =~= texts(flags@));
    }
    while i < x.arguments.len()
        invariant
            1 <= i,
            i == 1 || i <= x.arguments.len(),
            rest == arguments_after_first(texts(x.arguments@)),
            texts(sources@) == rest.take(i - 1).filter(kept_source(texts(remove@))),
            texts(flags@) == rest.take(i - 1).filter(kept_flag(texts(remove@))),
        decreases x.arguments.len() - i,
    {
        let argument = &x.arguments[i];
        proof {
            assert(rest[i - 1] == argument@);
            lemma_filter_next(rest, kept_source(texts(remove@)), i - 1);
            lemma_filter_next(rest, kept_flag(texts(remove@)), i - 1);
        }
        if contains_text(remove, argument.as_str()) {
        } else if looks_like_a_source_file(argument.as_str()) {
            assert(texts(sources@.push(*argument)) =~= texts(sources@).push(argument@));
            sources.push(argument.clone());
        } else {
            assert(texts(flags@.push(*argument)) =~= texts(flags@).push(argument@));
            flags.push(argument.clone());
        }
        i = i + 1;
    }
    assert(rest.len() == i - 1);
    assert(rest.take(i - 1) =~= rest);
    let ghost kept = flags@;
    append_copies(&mut flags, add);
    assert(texts(flags@) =~= texts(kept) + texts(add@));
    if sources.len() == 0 {
        RecognitionResult::Recognized(Err(RecognitionError::SourceNotFound))
    } else {
        RecognitionResult::Recognized(
            Ok(
                Semantic::Compiler(
                    CompilerCall::Compile {
                        working_dir: x.working_dir.clone(),
                        compiler: x.executable.clone(),
                        flags,
                        sources,
                        output: None,
                    },
                ),
            ),
        )
    }
}

/// What the tool of one configured compiler makes of an execution: the
/// execution is its own when the executable is the configured path, letter
/// for letter.
pub open spec fn configured_recognized(
    config: CompilerToRecognize,
    x: ExecutionView,
) -> RecognitionView {
    if x.executable == config.executable@ {
        read_as_compiler(x, texts(config.flags_to_remove@), texts(config.flags_to_add@))
    } else {
        RecognitionView::NotRecognized
    }
}

/// Whether two configured compilers say the same: the same executable and
/// the same flags to add and to remove.
pub open spec fn same_config(a: CompilerToRecognize, b: CompilerToRecognize) -> bool {
    &&& a.executable@ == b.executable@
    &&& a.flags_to_add@ == b.flags_to_add@
    &&& a.flags_to_remove@ == b.flags_to_remove@
}

/// Recognizes the executions of one configured compiler.
pub struct Configured {
    pub config: CompilerToRecognize,
}

impl Tool for Configured {
    open spec fn recognized(&self, x: ExecutionView) -> RecognitionView {
        configured_recognized(self.config, x)
    }

    fn recognize(&self, x: &Execution) -> (r: RecognitionResult) {
        if x.executable == self.config.executable {
            read_arguments(x, &self.config.flags_to_remove, &self.config.flags_to_add)
        } else {
            RecognitionResult::NotRecognized
        }
    }
}

impl Configured {
    /// The tool for one configured compiler.
    pub fn new(config: &CompilerToRecognize) -> (tool: Configured)
        ensures
            same_config(tool.config, *config),
            forall|x: ExecutionView| #[trigger]
                tool.recognized(x) == configured_recognized(*config, x),
    {
        Configured {
            config: CompilerToRecognize {
                executable: config.executable.clone(),
                flags_to_add: copy_of(&config.flags_to_add),
                flags_to_remove: copy_of(&config.flags_to_remove),
            },
        }
    }

    /// The tools for the configured compilers, asked in the order of the
    /// configuration.
    pub fn from(configs: &[CompilerToRecognize]) -> (tool: Any<Configured>)
        ensures
            tool.tools@.len() == configs@.len(),
            forall|x: ExecutionView| #[trigger]
                tool.recognized(x) == first_configured(configs@, x),
    {
        let mut tools: Vec<Configured> = Vec::new();
        let mut i: usize = 0;
        while i < configs.len()
            invariant
                i <= configs.len(),
                tools@.len() == i,
                forall|j: int, x: ExecutionView|
                    0 <= j < i ==> #[trigger] tools@[j].recognized(x) == configured_recognized(
                        configs@[j],
                        x,
                    ),
            decreases configs.len() - i,
        {
            tools.push(Configured::new(&configs[i]));
            i = i + 1;
        }
        let tool = Any { tools };
        assert forall|x: ExecutionView| #[trigger]
            tool.recognized(x) == first_configured(configs@, x) by {
            lemma_first_configured(tool.tools@, configs@, x);
        }
        tool
    }
}

/// What the configured compilers make of an execution, the first of them
/// that takes it for its own deciding.
pub open spec fn first_configured(
    configs: Seq<CompilerToRecognize>,
    x: ExecutionView,
) -> RecognitionView
    decreases configs.len(),
{
    if configs.len() == 0 {
        RecognitionView::NotRecognized
    } else {
        match configured_recognized(configs[0], x) {
            RecognitionView::NotRecognized => first_configured(configs.drop_first(), x),
            result => result,
        }
    }
}

/// Tools that each do what one configured compiler asks for do together what
/// the list of configured compilers asks for.
pub proof fn lemma_first_configured<T: Tool>(
    tools: Seq<T>,
    configs: Seq<CompilerToRecognize>,
    x: ExecutionView,
)
    requires
        tools.len() == configs.len(),
        forall|j: int|
            0 <= j < tools.len() ==> #[trigger] tools[j].recognized(x) == configured_recognized(
                configs[j],
                x,
            ),
    ensures
        first_recognized(tools, x) == first_configured(configs, x),
    decreases tools.len(),
{
    if tools.len() > 0 {
        assert(tools[0].recognized(x) == configured_recognized(configs[0], x));
        let later = tools.drop_first();
        assert forall|j: int| 0 <= j < later.len() implies #[trigger] later[j].recognized(x)
            == configured_recognized(configs.drop_first()[j], x) by {
            assert(tools[j + 1].recognized(x) == configured_recognized(configs[j + 1], x));
        }
        lemma_first_configured(later, configs.drop_first(), x);
    }
}

/// Holds of an argument that names a source file.
pub open spec fn names_source() -> spec_fn(Seq<char>) -> bool {
    |a: Seq<char>| is_source_file(a)
}

/// The sources of a call are source files that are not to be removed, and
/// its flags, up to those that are added, are kept arguments that are none.
pub proof fn lemma_sorted_arguments(
    arguments: Seq<Seq<char>>,
    remove: Seq<Seq<char>>,
    add: Seq<Seq<char>>,
)
    ensures
        forall|i: int|
            0 <= i < sources_of(arguments, remove).len() ==> {
                let source = #[trigger] sources_of(arguments, remove)[i];
                &&& is_source_file(source)
                &&& !remove.contains(source)
                &&& arguments_after_first(arguments).contains(source)
            },
        flags_of(arguments, remove, add).len() >= add.len(),
        forall|i: int|
            0 <= i < flags_of(arguments, remove, add).len() - add.len() ==> {
                let flag = #[trigger] flags_of(arguments, remove, add)[i];
                &&& !is_source_file(flag)
                &&& !remove.contains(flag)
                &&& arguments_after_first(arguments).contains(flag)
            },
        forall|i: int|
            0 <= i < add.len() ==> flags_of(arguments, remove, add)[flags_of(
                arguments,
                remove,
                add,
            ).len() - add.len() + i] == add[i],
{
    let rest = arguments_after_first(arguments);
    lemma_filter_members(rest, kept_source(remove));
    lemma_filter_members(rest, kept_flag(remove));
}

/// An execution of the configured executable that names a source file among
/// its arguments after the first, and none of whose source files is to be
/// removed, is recognized as a compile call. Its sources are exactly the
/// arguments after the first that name source files, in their order; its
/// compiler and working directory are those of the execution, and it has no
/// output.
pub proof fn lemma_configured_finds_sources(config: CompilerToRecognize, x: ExecutionView)
    requires
        x.executable == config.executable@,
        exists|i: int|
            0 <= i < arguments_after_first(x.arguments).len() && is_source_file(
                #[trigger] arguments_after_first(x.arguments)[i],
            ),
        forall|i: int|
            0 <= i < arguments_after_first(x.arguments).len() && is_source_file(
                #[trigger] arguments_after_first(x.arguments)[i],
            ) ==> !texts(config.flags_to_remove@).contains(arguments_after_first(x.arguments)[i]),
    ensures
        configured_recognized(config, x) == RecognitionView::Recognized(
            Ok(
                SemanticView::Compiler(
                    CompilerCallView::Compile {
                        working_dir: x.working_dir,
                        compiler: x.executable,
                        flags: flags_of(
                            x.arguments,
                            texts(config.flags_to_remove@),
                            texts(config.flags_to_add@),
                        ),
                        sources: arguments_after_first(x.arguments).filter(names_source()),
                        output: None,
                    },
                ),
            ),
        ),
{
    let rest = arguments_after_first(x.arguments);
    let remove = texts(config.flags_to_remove@);
    lemma_filter_agree(rest, kept_source(remove), names_source());
    let i = choose|i: int| 0 <= i < rest.len() && is_source_file(#[trigger] rest[i]);
    lemma_filter_keeps(rest, names_source(), i);
}

/// An execution of the configured executable none of whose arguments after
/// the first names a source file is recognized with the failure that no
/// source was found.
pub proof fn lemma_configured_without_sources(config: CompilerToRecognize, x: ExecutionView)
    requires
        x.executable == config.executable@,
        forall|i: int|
            0 <= i < arguments_after_first(x.arguments).len() ==> !is_source_file(
                #[trigger] arguments_after_first(x.arguments)[i],
            ),
    ensures
        configured_recognized(config, x) == RecognitionView::Recognized(
            Err(RecognitionError::SourceNotFound),
        ),
{
    let sources = sources_of(x.arguments, texts(config.flags_to_remove@));
    lemma_sorted_arguments(x.arguments, texts(config.flags_to_remove@), Seq::empty());
    if sources.len() > 0 {
        assert(is_source_file(sources[0]));
        assert(arguments_after_first(x.arguments).contains(sources[0]));
    }
}

/// An execution of another executable than the configured one is not
/// recognized by the configured tool.
pub proof fn lemma_configured_declines(config: CompilerToRecognize, x: ExecutionView)
    requires
        x.executable != config.executable@,
    ensures
        configured_recognized(config, x) == RecognitionView::NotRecognized,
{
}

} // verus!
