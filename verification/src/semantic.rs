//! What a recognized execution means, and the entries of the compilation
//! database that a compiler call stands for.

use vstd::prelude::*;
use crate::paths::{
    into_abspath,
    into_abspath_opt,
    is_absolute,
    resolved,
    resolved_opt,
    ConversionError,
};
use crate::text::{append_copies, copy_of_opt, opt_text, texts};

verus! {

/// The meaning of an executed command.
#[derive(Debug, Clone, PartialEq)]
pub enum Semantic {
    Compiler(CompilerCall),
    UnixCommand,
    BuildCommand,
}

/// What a compiler was called for.
#[derive(Debug, Clone, PartialEq)]
pub enum CompilerCall {
    /// The compiler was asked about itself, its version for one.
    Query,
    /// The compiler was asked to preprocess only.
    Preprocess,
    /// The compiler was asked to compile `sources`.
    Compile {
        working_dir: String,
        compiler: String,
        flags: Vec<String>,
        sources: Vec<String>,
        output: Option<String>,
    },
}

/// One record of the compilation database: how one source file was compiled.
#[derive(Debug, Clone, PartialEq, Eq)]
pub struct Entry {
    pub file: String,
    pub arguments: Vec<String>,
    pub directory: String,
    pub output: Option<String>,
}

/// The texts of a compiler call.
pub enum CompilerCallView {
    Query,
    Preprocess,
    Compile {
        working_dir: Seq<char>,
        compiler: Seq<char>,
        flags: Seq<Seq<char>>,
        sources: Seq<Seq<char>>,
        output: Option<Seq<char>>,
    },
}

/// The texts of a semantic.
pub enum SemanticView {
    Compiler(CompilerCallView),
    UnixCommand,
    BuildCommand,
}

/// The texts of an entry.
pub struct EntryView {
    pub file: Seq<char>,
    pub arguments: Seq<Seq<char>>,
    pub directory: Seq<char>,
    pub output: Option<Seq<char>>,
}

impl View for CompilerCall {
    type V = CompilerCallView;

    open spec fn view(&self) -> CompilerCallView {
        match *self {
            CompilerCall::Query => CompilerCallView::Query,
            CompilerCall::Preprocess => CompilerCallView::Preprocess,
            CompilerCall::Compile { working_dir, compiler, flags, sources, output } => {
                CompilerCallView::Compile {
                    working_dir: working_dir@,
                    compiler: compiler@,
                    flags: texts(flags@),
                    sources: texts(sources@),
                    output: opt_text(output),
                }
            },
        }
    }
}

impl View for Semantic {
    type V = SemanticView;

    open spec fn view(&self) -> SemanticView {
        match *self {
            Semantic::Compiler(call) => SemanticView::Compiler(call@),
            Semantic::UnixCommand => SemanticView::UnixCommand,
            Semantic::BuildCommand => SemanticView::BuildCommand,
        }
    }
}

impl View for Entry {
    type V = EntryView;

    open spec fn view(&self) -> EntryView {
        EntryView {
            file: self.file@,
            arguments: texts(self.arguments@),
            directory: self.directory@,
            output: opt_text(self.output),
        }
    }
}

/// An entry whose file, and whose output where it has one, is an absolute path.
pub open spec fn has_absolute_paths(entry: EntryView) -> bool {
    &&& is_absolute(entry.file)
    &&& entry.output matches Some(o) ==> is_absolute(o)
}

/// The views of a list of entries.
pub open spec fn entry_views(entries: Seq<Entry>) -> Seq<EntryView> {
    entries.map_values(|e: Entry| e@)
}

/// The `-o` flag with its value, when there is an output.
pub open spec fn output_arguments(output: Option<Seq<char>>) -> Seq<Seq<char>> {
    match output {
        Some(o) => seq!["-o"@, o],
        None => Seq::empty(),
    }
}

/// The compiler and the flags, with `-o` and the output where there is one:
/// what the arguments of every entry of one call begin with.
pub open spec fn argument_prefix(
    compiler: Seq<char>,
    flags: Seq<Seq<char>>,
    output: Option<Seq<char>>,
) -> Seq<Seq<char>> {
    seq![compiler] + flags + output_arguments(output)
}

/// The arguments of the call as it would stand for `source` alone. Output
/// and source keep the text they had in the call.
pub open spec fn entry_arguments(
    compiler: Seq<char>,
    flags: Seq<Seq<char>>,
    output: Option<Seq<char>>,
    source: Seq<char>,
) -> Seq<Seq<char>> {
    argument_prefix(compiler, flags, output).push(source)
}

/// The entry for one source of a compile call, or the error of the first
/// path that cannot be resolved: the source is resolved before the output.
pub open spec fn entry_for(
    working_dir: Seq<char>,
    compiler: Seq<char>,
    flags: Seq<Seq<char>>,
    output: Option<Seq<char>>,
    source: Seq<char>,
) -> Result<EntryView, ConversionError> {
    match resolved(source, working_dir) {
        Err(e) => Err(e),
        Ok(file) => match resolved_opt(output, working_dir) {
            Err(e) => Err(e),
            Ok(out) => Ok(
                EntryView {
                    file,
                    arguments: entry_arguments(compiler, flags, output, source),
                    directory: working_dir,
                    output: out,
                },
            ),
        },
    }
}

/// One entry per source, in the order of the sources, or the error of the
/// first source whose entry cannot be made.
pub open spec fn entries_for(
    working_dir: Seq<char>,
    compiler: Seq<char>,
    flags: Seq<Seq<char>>,
    output: Option<Seq<char>>,
    sources: Seq<Seq<char>>,
) -> Result<Seq<EntryView>, ConversionError>
    decreases sources.len(),
{
    if sources.len() == 0 {
        Ok(Seq::empty())
    } else {
        match entries_for(working_dir, compiler, flags, output, sources.drop_last()) {
            Err(e) => Err(e),
            Ok(before) => match entry_for(working_dir, compiler, flags, output, sources.last()) {
                Err(e) => Err(e),
                Ok(entry) => Ok(before.push(entry)),
            },
        }
    }
}

/// The entries that a compiler call stands for. Only a compile call has any.
pub open spec fn expansion(call: CompilerCallView) -> Result<Seq<EntryView>, ConversionError> {
    match call {
        CompilerCallView::Compile { working_dir, compiler, flags, sources, output } => entries_for(
            working_dir,
            compiler,
            flags,
            output,
            sources,
        ),
        _ => Ok(Seq::empty()),
    }
}

/// The views of an expansion's outcome.
pub open spec fn expansion_view(r: Result<Vec<Entry>, ConversionError>) -> Result<
    Seq<EntryView>,
    ConversionError,
> {
    match r {
        Ok(entries) => Ok(entry_views(entries@)),
        Err(e) => Err(e),
    }
}

/// The view of one entry's outcome.
pub open spec fn entry_result_view(r: Result<Entry, ConversionError>) -> Result<
    EntryView,
    ConversionError,
> {
    match r {
        Ok(entry) => Ok(entry@),
        Err(e) => Err(e),
    }
}

/// Builds the entry for one source of a compile call.
pub fn make_entry(
    working_dir: &String,
    compiler: &String,
    flags: &Vec<String>,
    output: &Option<String>,
    source: &String,
) -> (r: Result<Entry, ConversionError>)
    ensures
        entry_result_view(r) == entry_for(
            working_dir@,
            compiler@,
            texts(flags@),
            opt_text(*output),
            source@,
        ),
        r matches Ok(entry) ==> has_absolute_paths(entry@),
{
    let mut arguments: Vec<String> = Vec::new();
    arguments.push(compiler.clone());
    append_copies(&mut arguments, flags);
    match output {
        Some(o) => {
            arguments.push(String::from_str("-o"));
            arguments.push(o.clone());
        },
        None => {},
    }
    arguments.push(source.clone());
    assert(texts(arguments@) =~= entry_arguments(
        compiler@,
        texts(flags@),
        opt_text(*output),
        source@,
    ));
    let file = match into_abspath(source.clone(), working_dir.as_str()) {
        Ok(file) => file,
        Err(e) => {
            return Err(e);
        },
    };
    let out = match into_abspath_opt(copy_of_opt(output), working_dir.as_str()) {
        Ok(out) => out,
        Err(e) => {
            return Err(e);
        },
    };
    Ok(Entry { file, arguments, directory: working_dir.clone(), output: out })
}

impl CompilerCall {
    /// Converts the call into the entries of the compilation database that
    /// it stands for: none for a query or a preprocessing call, one for each
    /// source of a compile call, in the order of the sources.
    pub fn into_entries(&self) -> (r: Result<Vec<Entry>, ConversionError>)
        ensures
            expansion_view(r) == expansion(self@),
            r matches Ok(entries) ==> forall|i: int|
                0 <= i < entries@.len() ==> has_absolute_paths(#[trigger] entries@[i]@),
    {
        match self {
            CompilerCall::Compile { working_dir, compiler, flags, sources, output } => {
                let ghost all = texts(sources@);
                let mut entries: Vec<Entry> = Vec::new();
                let mut i: usize = 0;
                assert(entry_views(entries@) =~= Seq::empty());
                while i < sources.len()
                    invariant
                        i <= sources.len(),
                        all == texts(sources@),
                        expansion(self@) == entries_for(
                            working_dir@,
                            compiler@,
                            texts(flags@),
                            opt_text(*output),
                            all,
                        ),
                        entries_for(
                            working_dir@,
                            compiler@,
                            texts(flags@),
                            opt_text(*output),
                            all.take(i as int),
                        ) == Ok::<Seq<EntryView>, ConversionError>(entry_views(entries@)),
                        forall|k: int|
                            0 <= k < entries@.len() ==> has_absolute_paths(
                                #[trigger] entries@[k]@,
                            ),
                    decreases sources.len() - i,
                {
                    assert(all.take(i + 1).drop_last() =~= all.take(i as int));
                    assert(all.take(i + 1).last() == sources@[i as int]@);
                    match make_entry(working_dir, compiler, flags, output, &sources[i]) {
                        Ok(entry) => {
                            assert(entry_views(entries@.push(entry)) =~= entry_views(
                                entries@,
                            ).push(entry@));
                            entries.push(entry);
                        },
                        Err(e) => {
                            proof {
                                lemma_failure_stays(
                                    working_dir@,
                                    compiler@,
                                    texts(flags@),
                                    opt_text(*output),
                                    all,
                                    i + 1,
                                );
                            }
                            return Err(e);
                        },
                    }
                    i = i + 1;
                }
                assert(all.take(sources.len() as int) =~= all);
                Ok(entries)
            },
            _ => {
                let entries: Vec<Entry> = Vec::new();
                assert(entry_views(entries@) =~= Seq::empty());
                Ok(entries)
            },
        }
    }
}

impl TryFrom<CompilerCall> for Vec<Entry> {
    type Error = ConversionError;

    /// The entries that the call stands for: see `CompilerCall::into_entries`.
    fn try_from(value: CompilerCall) -> (r: Result<Vec<Entry>, ConversionError>)
        ensures
            expansion_view(r) == expansion(value@),
            r matches Ok(entries) ==> forall|i: int|
                0 <= i < entries@.len() ==> has_absolute_paths(#[trigger] entries@[i]@),
    {
        value.into_entries()
    }
}

impl vstd::std_specs::convert::TryFromSpecImpl<CompilerCall> for Vec<Entry> {
    /// The conversion is stated over the views of its argument and result,
    /// in the contract of `try_from`.
    open spec fn obeys_try_from_spec() -> bool {
        false
    }

    open spec fn try_from_spec(v: CompilerCall) -> Result<Self, Self::Error> {
        arbitrary()
    }
}

/// Once the sources up to `n` fail to expand, so do all of them, with the
/// same error.
pub proof fn lemma_failure_stays(
    working_dir: Seq<char>,
    compiler: Seq<char>,
    flags: Seq<Seq<char>>,
    output: Option<Seq<char>>,
    sources: Seq<Seq<char>>,
    n: int,
)
    requires
        0 <= n <= sources.len(),
        entries_for(working_dir, compiler, flags, output, sources.take(n)) is Err,
    ensures
        entries_for(working_dir, compiler, flags, output, sources) == entries_for(
            working_dir,
            compiler,
            flags,
            output,
            sources.take(n),
        ),
    decreases sources.len() - n,
{
    if n < sources.len() {
        assert(sources.take(n + 1).drop_last() =~= sources.take(n));
        lemma_failure_stays(working_dir, compiler, flags, output, sources, n + 1);
    } else {
        assert(sources.take(n) =~= sources);
    }
}

/// The expansion of the sources succeeds when the entry of every source can
/// be made, and then holds those entries in the order of the sources. It
/// fails with the error of the first source whose entry cannot be made.
pub proof fn lemma_entries_for(
    working_dir: Seq<char>,
    compiler: Seq<char>,
    flags: Seq<Seq<char>>,
    output: Option<Seq<char>>,
    sources: Seq<Seq<char>>,
)
    ensures
        match entries_for(working_dir, compiler, flags, output, sources) {
            Ok(entries) => {
                &&& entries.len() == sources.len()
                &&& forall|i: int|
                    0 <= i < sources.len() ==> entry_for(
                        working_dir,
                        compiler,
                        flags,
                        output,
                        sources[i],
                    ) == Ok::<EntryView, ConversionError>(#[trigger] entries[i])
            },
            Err(e) => exists|i: int|
                {
                    &&& 0 <= i < sources.len()
                    &&& #[trigger] entry_for(working_dir, compiler, flags, output, sources[i])
                        == Err::<EntryView, ConversionError>(e)
                    &&& forall|j: int|
                        0 <= j < i ==> (#[trigger] entry_for(
                            working_dir,
                            compiler,
                            flags,
                            output,
                            sources[j],
                        )) is Ok
                },
        },
    decreases sources.len(),
{
    if sources.len() > 0 {
        let front = sources.drop_last();
        let n = sources.len() - 1;
        lemma_entries_for(working_dir, compiler, flags, output, front);
        match entries_for(working_dir, compiler, flags, output, front) {
            Ok(before) => {
                assert forall|j: int| 0 <= j < n implies (#[trigger] entry_for(
                    working_dir,
                    compiler,
                    flags,
                    output,
                    sources[j],
                )) is Ok by {
                    assert(front[j] == sources[j]);
                    assert(entry_for(working_dir, compiler, flags, output, front[j]) == Ok::<
                        EntryView,
                        ConversionError,
                    >(before[j]));
                }
                match entry_for(working_dir, compiler, flags, output, sources[n]) {
                    Ok(entry) => {
                        let entries = before.push(entry);
                        assert forall|i: int| 0 <= i < sources.len() implies entry_for(
                            working_dir,
                            compiler,
                            flags,
                            output,
                            sources[i],
                        ) == Ok::<EntryView, ConversionError>(#[trigger] entries[i]) by {
                            if i < n {
                                assert(front[i] == sources[i]);
                                assert(entries[i] == before[i]);
                            }
                        }
                    },
                    Err(e) => {},
                }
            },
            Err(e) => {
                let i = choose|i: int|
                    {
                        &&& 0 <= i < front.len()
                        &&& #[trigger] entry_for(working_dir, compiler, flags, output, front[i])
                            == Err::<EntryView, ConversionError>(e)
                        &&& forall|j: int|
                            0 <= j < i ==> (#[trigger] entry_for(
                                working_dir,
                                compiler,
                                flags,
                                output,
                                front[j],
                            )) is Ok
                    };
                assert(front[i] == sources[i]);
                assert forall|j: int| 0 <= j < i implies (#[trigger] entry_for(
                    working_dir,
                    compiler,
                    flags,
                    output,
                    sources[j],
                )) is Ok by {
                    assert(front[j] == sources[j]);
                }
            },
        }
    }
}

/// A compile call that expands has one entry for each of its sources, in
/// their order. Every entry has the working directory of the call as its
/// directory and the resolved output of the call as its output; its
/// arguments are those of the call, the same for every entry, followed by
/// the source as the call wrote it; its file is that source resolved. Where
/// no two sources resolve to the same path, no two entries have the same file.
pub proof fn lemma_expansion_fans_out(
    working_dir: Seq<char>,
    compiler: Seq<char>,
    flags: Seq<Seq<char>>,
    output: Option<Seq<char>>,
    sources: Seq<Seq<char>>,
)
    requires
        entries_for(working_dir, compiler, flags, output, sources) is Ok,
    ensures
        ({
            let entries = entries_for(working_dir, compiler, flags, output, sources)->Ok_0;
            &&& entries.len() == sources.len()
            &&& forall|i: int|
                0 <= i < entries.len() ==> {
                    &&& (#[trigger] entries[i]).directory == working_dir
                    &&& Ok::<Option<Seq<char>>, ConversionError>(entries[i].output)
                        == resolved_opt(output, working_dir)
                    &&& entries[i].arguments == argument_prefix(compiler, flags, output).push(
                        sources[i],
                    )
                    &&& Ok::<Seq<char>, ConversionError>(entries[i].file) == resolved(
                        sources[i],
                        working_dir,
                    )
                }
            &&& forall|i: int, j: int|
                0 <= i < j < entries.len() && resolved(sources[i], working_dir) != resolved(
                    sources[j],
                    working_dir,
                ) ==> (#[trigger] entries[i]).file != (#[trigger] entries[j]).file
        }),
{
    lemma_entries_for(working_dir, compiler, flags, output, sources);
    let entries = entries_for(working_dir, compiler, flags, output, sources)->Ok_0;
    assert forall|i: int| 0 <= i < entries.len() implies {
        &&& (#[trigger] entries[i]).directory == working_dir
        &&& Ok::<Option<Seq<char>>, ConversionError>(entries[i].output) == resolved_opt(
            output,
            working_dir,
        )
        &&& entries[i].arguments == argument_prefix(compiler, flags, output).push(sources[i])
        &&& Ok::<Seq<char>, ConversionError>(entries[i].file) == resolved(
            sources[i],
            working_dir,
        )
    } by {
        assert(entry_for(working_dir, compiler, flags, output, sources[i]) == Ok::<
            EntryView,
            ConversionError,
        >(entries[i]));
    }
}

/// A query and a preprocessing call expand to no entry.
pub proof fn lemma_only_compile_has_entries(call: CompilerCallView)
    requires
        !(call is Compile),
    ensures
        expansion(call) == Ok::<Seq<EntryView>, ConversionError>(Seq::empty()),
{
}

} // verus!
