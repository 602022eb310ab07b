//! The filter on the stream of entries: which files may pass, and which
//! entries repeat one that has passed.

use std::collections::hash_map::DefaultHasher;
use std::collections::HashSet;
use std::hash::Hasher;
use vstd::prelude::*;
use vstd::std_specs::hash::*;
use vstd::string::StringSliceAdditionalSpecFns;
use vstd::utf8::encode_utf8;
use crate::configuration::{Configuration, Content, DuplicateFilterFields};
use crate::paths::{is_under_any, path_is_under_any};
use crate::semantic::{entry_views, Entry, EntryView};
use crate::text::{copy_of, opt_text, texts};

verus! {

/// What the hasher is fed for one text: its bytes, then a byte that ends it
/// and that occurs in no text.
pub open spec fn text_writes(text: Seq<char>) -> Seq<Seq<u8>> {
    seq![encode_utf8(text), seq![0xffu8]]
}

/// What the hasher is fed for a list of texts.
pub open spec fn texts_writes(list: Seq<Seq<char>>) -> Seq<Seq<u8>>
    decreases list.len(),
{
    if list.len() == 0 {
        Seq::empty()
    } else {
        texts_writes(list.drop_last()) + text_writes(list.last())
    }
}

/// What the hasher is fed for an output: a byte that tells whether there is
/// one, then the output.
pub open spec fn output_writes(output: Option<Seq<char>>) -> Seq<Seq<u8>> {
    match output {
        Some(o) => seq![seq![1u8]] + text_writes(o),
        None => seq![seq![0u8]],
    }
}

/// What the hasher is fed for an entry: the fields by which a duplicate is told.
pub open spec fn key_writes(fields: DuplicateFilterFields, entry: EntryView) -> Seq<Seq<u8>> {
    match fields {
        DuplicateFilterFields::FileOnly => text_writes(entry.file),
        DuplicateFilterFields::FileAndOutputOnly => text_writes(entry.file) + output_writes(
            entry.output,
        ),
        DuplicateFilterFields::All => text_writes(entry.file) + text_writes(entry.directory)
            + texts_writes(entry.arguments),
    }
}

/// The key by which an entry is told from others: the hash of the fields
/// that the policy names.
pub open spec fn duplicate_key(fields: DuplicateFilterFields, entry: EntryView) -> u64 {
    DefaultHasher::spec_finish(key_writes(fields, entry))
}

/// Whether two entries agree in the fields that the policy names.
pub open spec fn same_by(fields: DuplicateFilterFields, a: EntryView, b: EntryView) -> bool {
    match fields {
        DuplicateFilterFields::FileOnly => a.file == b.file,
        DuplicateFilterFields::FileAndOutputOnly => a.file == b.file && a.output == b.output,
        DuplicateFilterFields::All => a.file == b.file && a.directory == b.directory
            && a.arguments == b.arguments,
    }
}

fn write_marker(hasher: &mut DefaultHasher, marker: u8)
    ensures
        final(hasher)@ == old(hasher)@.push(seq![marker]),
{
    let mut bytes: Vec<u8> = Vec::new();
    bytes.push(marker);
    assert(bytes@ =~= seq![marker]);
    hasher.write(bytes.as_slice());
}

fn write_text(hasher: &mut DefaultHasher, text: &str)
    ensures
        final(hasher)@ == old(hasher)@ + text_writes(text@),
{
    hasher.write(text.as_bytes());
    write_marker(hasher, 0xff);
    assert(hasher@ =~= old(hasher)@ + text_writes(text@));
}

fn write_texts(hasher: &mut DefaultHasher, list: &Vec<String>)
    ensures
        final(hasher)@ == old(hasher)@ + texts_writes(texts(list@)),
{
    let mut i: usize = 0;
    assert(hasher@ =~= old(hasher)@ + texts_writes(texts(list@).take(0)));
    while i < list.len()
        invariant
            i <= list.len(),
            hasher@ == old(hasher)@ + texts_writes(texts(list@).take(i as int)),
        decreases list.len() - i,
    {
        let ghost before = hasher@;
        write_text(hasher, list[i].as_str());
        proof {
            let upto = texts(list@).take(i + 1);
            assert(upto.drop_last() =~= texts(list@).take(i as int));
            assert(upto.last() == list@[i as int]@);
            assert(hasher@ =~= old(hasher)@ + texts_writes(upto));
        }
        i = i + 1;
    }
    assert(texts(list@).take(list.len() as int) =~= texts(list@));
}

fn write_output(hasher: &mut DefaultHasher, output: &Option<String>)
    ensures
        final(hasher)@ == old(hasher)@ + output_writes(opt_text(*output)),
{
    match output {
        Some(o) => {
            write_marker(hasher, 1);
            write_text(hasher, o.as_str());
            assert(hasher@ =~= old(hasher)@ + output_writes(opt_text(*output)));
        },
        None => {
            write_marker(hasher, 0);
            assert(hasher@ =~= old(hasher)@ + output_writes(opt_text(*output)));
        },
    }
}

impl DuplicateFilterFields {
    /// The key of an entry under this policy.
    pub fn hash(&self, entry: &Entry) -> (key: u64)
        ensures
            key == duplicate_key(*self, entry@),
    {
        let mut hasher = DefaultHasher::new();
        write_text(&mut hasher, entry.file.as_str());
        match self {
            DuplicateFilterFields::FileOnly => {},
            DuplicateFilterFields::FileAndOutputOnly => {
                write_output(&mut hasher, &entry.output);
            },
            DuplicateFilterFields::All => {
                write_text(&mut hasher, entry.directory.as_str());
                write_texts(&mut hasher, &entry.arguments);
            },
        }
        assert(hasher@ =~= key_writes(*self, entry@));
        hasher.finish()
    }
}

/// Lets each key pass once.
pub struct DuplicateFilter {
    pub fields: DuplicateFilterFields,
    pub seen: HashSet<u64>,
}

impl DuplicateFilter {
    /// A filter that has seen nothing.
    pub fn new(fields: DuplicateFilterFields) -> (filter: DuplicateFilter)
        ensures
            filter.fields == fields,
            filter.seen@ == Set::<u64>::empty(),
    {
        DuplicateFilter { fields, seen: HashSet::new() }
    }

    /// Lets `key` pass if it has not been seen, and from then on has seen it.
    pub fn check_key(&mut self, key: u64) -> (fresh: bool)
        ensures
            fresh == !old(self).seen@.contains(key),
            final(self).seen@ == old(self).seen@.insert(key),
            final(self).fields == old(self).fields,
    {
        broadcast use group_hash_axioms;

        self.seen.insert(key)
    }

    /// Lets the entry pass if none with its key has been seen, and from then
    /// on has seen its key.
    pub fn check(&mut self, entry: &Entry) -> (fresh: bool)
        ensures
            fresh == !old(self).seen@.contains(duplicate_key(old(self).fields, entry@)),
            final(self).seen@ == old(self).seen@.insert(
                duplicate_key(old(self).fields, entry@),
            ),
            final(self).fields == old(self).fields,
    {
        let key = self.fields.hash(entry);
        self.check_key(key)
    }
}

/// Whether the entry at `i` of a run passes a filter that had seen `seen`
/// before the run: its key was not seen then, and no earlier entry of the run
/// has it.
pub open spec fn passes_at(
    fields: DuplicateFilterFields,
    seen: Set<u64>,
    run: Seq<EntryView>,
    i: int,
) -> bool {
    &&& !seen.contains(duplicate_key(fields, run[i]))
    &&& forall|j: int|
        0 <= j < i ==> duplicate_key(fields, #[trigger] run[j]) != duplicate_key(fields, run[i])
}

/// The keys that a filter has seen after a run.
pub open spec fn seen_after(
    fields: DuplicateFilterFields,
    seen: Set<u64>,
    run: Seq<EntryView>,
) -> Set<u64> {
    Set::new(
        |key: u64|
            seen.contains(key) || exists|j: int|
                0 <= j < run.len() && duplicate_key(fields, #[trigger] run[j]) == key,
    )
}

/// The entry at `n` of a run passes when its key is not among those seen
/// after the entries before it, and its key is seen after it.
pub proof fn lemma_seen_after_next(
    fields: DuplicateFilterFields,
    seen: Set<u64>,
    run: Seq<EntryView>,
    n: int,
)
    requires
        0 <= n < run.len(),
    ensures
        passes_at(fields, seen, run, n) == !seen_after(fields, seen, run.take(n)).contains(
            duplicate_key(fields, run[n]),
        ),
        seen_after(fields, seen, run.take(n + 1)) == seen_after(fields, seen, run.take(n)).insert(
            duplicate_key(fields, run[n]),
        ),
{
    let key = duplicate_key(fields, run[n]);
    let before = seen_after(fields, seen, run.take(n));
    let after = seen_after(fields, seen, run.take(n + 1));
    if before.contains(key) && !seen.contains(key) {
        let j = choose|j: int|
            0 <= j < run.take(n).len() && duplicate_key(fields, #[trigger] run.take(n)[j]) == key;
        assert(run[j] == run.take(n)[j]);
    }
    if !before.contains(key) {
        assert forall|j: int| 0 <= j < n implies duplicate_key(fields, #[trigger] run[j])
            != key by {
            assert(run.take(n)[j] == run[j]);
        }
    }
    assert forall|k: u64| after.contains(k) == before.insert(key).contains(k) by {
        if before.contains(k) && !seen.contains(k) {
            let j = choose|j: int|
                0 <= j < run.take(n).len() && duplicate_key(fields, #[trigger] run.take(n)[j])
                    == k;
            assert(run.take(n + 1)[j] == run.take(n)[j]);
        }
        if k == key {
            assert(run.take(n + 1)[n] == run[n]);
        }
        if after.contains(k) && !seen.contains(k) {
            let j = choose|j: int|
                0 <= j < run.take(n + 1).len() && duplicate_key(
                    fields,
                    #[trigger] run.take(n + 1)[j],
                ) == k;
            if j < n {
                assert(run.take(n)[j] == run.take(n + 1)[j]);
            }
        }
    }
    assert(after =~= before.insert(key));
}

impl DuplicateFilter {
    /// Feeds the entries to the filter in their order, and says of each
    /// whether it passed.
    pub fn check_all(&mut self, entries: &Vec<Entry>) -> (passed: Vec<bool>)
        ensures
            passed@.len() == entries@.len(),
            forall|i: int|
                0 <= i < entries@.len() ==> #[trigger] passed@[i] == passes_at(
                    old(self).fields,
                    old(self).seen@,
                    entry_views(entries@),
                    i,
                ),
            final(self).seen@ == seen_after(
                old(self).fields,
                old(self).seen@,
                entry_views(entries@),
            ),
            final(self).fields == old(self).fields,
    {
        let ghost run = entry_views(entries@);
        let ghost fields = self.fields;
        let mut passed: Vec<bool> = Vec::new();
        let mut i: usize = 0;
        assert(self.seen@ =~= seen_after(fields, old(self).seen@, run.take(0)));
        while i < entries.len()
            invariant
                i <= entries.len(),
                run == entry_views(entries@),
                self.fields == fields,
                fields == old(self).fields,
                passed@.len() == i,
                forall|k: int|
                    0 <= k < i ==> #[trigger] passed@[k] == passes_at(
                        fields,
                        old(self).seen@,
                        run,
                        k,
                    ),
                self.seen@ == seen_after(fields, old(self).seen@, run.take(i as int)),
            decreases entries.len() - i,
        {
            proof {
                assert(run[i as int] == entries@[i as int]@);
                lemma_seen_after_next(fields, old(self).seen@, run, i as int);
            }
            let fresh = self.check(&entries[i]);
            passed.push(fresh);
            i = i + 1;
        }
        assert(run.take(entries.len() as int) =~= run);
        passed
    }
}

/// Entries that agree in the fields of the policy have the same key.
pub proof fn lemma_same_fields_same_key(fields: DuplicateFilterFields, a: EntryView, b: EntryView)
    requires
        same_by(fields, a, b),
    ensures
        duplicate_key(fields, a) == duplicate_key(fields, b),
{
}

/// Of the entries of one run that agree in the fields of the policy, only the
/// first can pass: a later one is dropped, however the entries differ in
/// their other fields.
pub proof fn lemma_repeated_entry_is_dropped(
    fields: DuplicateFilterFields,
    seen: Set<u64>,
    run: Seq<EntryView>,
    i: int,
    j: int,
)
    requires
        0 <= i < j < run.len(),
        same_by(fields, run[i], run[j]),
    ensures
        !passes_at(fields, seen, run, j),
{
}

/// An entry fed twice to a filter that has not seen its key passes once: the
/// first time, and not the second.
pub proof fn lemma_fed_twice_passes_once(
    fields: DuplicateFilterFields,
    seen: Set<u64>,
    first: EntryView,
    second: EntryView,
)
    requires
        same_by(fields, first, second),
        !seen.contains(duplicate_key(fields, first)),
    ensures
        passes_at(fields, seen, seq![first, second], 0),
        !passes_at(fields, seen, seq![first, second], 1),
{
    let run = seq![first, second];
    assert(run[0] == first && run[1] == second);
}

/// In one run exactly one entry passes for each key that the filter had not
/// seen: for every entry of such a key there is an entry of the run with the
/// same key that passes, and no two entries that pass have the same key.
pub proof fn lemma_one_entry_per_key(
    fields: DuplicateFilterFields,
    seen: Set<u64>,
    run: Seq<EntryView>,
)
    ensures
        forall|i: int|
            0 <= i < run.len() && !seen.contains(duplicate_key(fields, #[trigger] run[i]))
                ==> exists|k: int|
                0 <= k <= i && duplicate_key(fields, run[k]) == duplicate_key(fields, run[i])
                    && #[trigger] passes_at(fields, seen, run, k),
        forall|i: int, j: int|
            0 <= i < j < run.len() && #[trigger] passes_at(fields, seen, run, i)
                && #[trigger] passes_at(fields, seen, run, j) ==> duplicate_key(fields, run[i])
                != duplicate_key(fields, run[j]),
{
    assert forall|i: int|
        0 <= i < run.len() && !seen.contains(
            duplicate_key(fields, #[trigger] run[i]),
        ) implies exists|k: int|
        0 <= k <= i && duplicate_key(fields, run[k]) == duplicate_key(fields, run[i])
            && #[trigger] passes_at(fields, seen, run, k) by {
        lemma_first_of_key_passes(fields, seen, run, i);
    }
}

/// Before any entry whose key the filter had not seen, or at it, stands an
/// entry with that key that passes.
pub proof fn lemma_first_of_key_passes(
    fields: DuplicateFilterFields,
    seen: Set<u64>,
    run: Seq<EntryView>,
    i: int,
)
    requires
        0 <= i < run.len(),
        !seen.contains(duplicate_key(fields, run[i])),
    ensures
        exists|k: int|
            0 <= k <= i && duplicate_key(fields, run[k]) == duplicate_key(fields, run[i])
                && #[trigger] passes_at(fields, seen, run, k),
    decreases i,
{
    if passes_at(fields, seen, run, i) {
    } else {
        let j = choose|j: int|
            0 <= j < i && duplicate_key(fields, #[trigger] run[j]) == duplicate_key(
                fields,
                run[i],
            );
        lemma_first_of_key_passes(fields, seen, run, j);
    }
}

/// The policy that holds where the configuration names none: a duplicate is
/// told by file and output.
pub open spec fn fields_or_default(fields: Option<DuplicateFilterFields>) -> DuplicateFilterFields {
    match fields {
        Some(f) => f,
        None => DuplicateFilterFields::FileAndOutputOnly,
    }
}

/// Whether a file may pass by its path: under one of the paths to be kept
/// where any are named, under none of the paths to be left out, and existing
/// where only existing sources are asked for.
pub open spec fn path_passes(
    file: Seq<char>,
    paths_to_include: Seq<Seq<char>>,
    paths_to_exclude: Seq<Seq<char>>,
    only_existing: bool,
    file_exists: bool,
) -> bool {
    &&& paths_to_include.len() == 0 || is_under_any(file, paths_to_include)
    &&& !is_under_any(file, paths_to_exclude)
    &&& !only_existing || file_exists
}

/// The filter on the entries of one run: the paths that may pass, and the
/// keys of the entries that have passed.
pub struct ContentFilter {
    pub only_existing: bool,
    pub paths_to_include: Vec<String>,
    pub paths_to_exclude: Vec<String>,
    pub duplicates: DuplicateFilter,
}

impl ContentFilter {
    /// The filter that the configuration asks for, before any entry.
    pub fn new(content: &Content) -> (filter: ContentFilter)
        ensures
            filter.only_existing == (content.include_only_existing_source == Some(true)),
            filter.paths_to_include@ == content.paths_to_include@,
            filter.paths_to_exclude@ == content.paths_to_exclude@,
            filter.duplicates.fields == fields_or_default(content.duplicate_filter_fields),
            filter.duplicates.seen@ == Set::<u64>::empty(),
    {
        let only_existing = match content.include_only_existing_source {
            Some(only) => only,
            None => false,
        };
        let fields = match content.duplicate_filter_fields {
            Some(f) => f,
            None => DuplicateFilterFields::FileAndOutputOnly,
        };
        ContentFilter {
            only_existing,
            paths_to_include: copy_of(&content.paths_to_include),
            paths_to_exclude: copy_of(&content.paths_to_exclude),
            duplicates: DuplicateFilter::new(fields),
        }
    }

    /// The filter of a whole configuration, before any entry. Where it says
    /// nothing of the content of the output, every path passes.
    pub fn of(configuration: &Configuration) -> (filter: ContentFilter)
        ensures
            filter.duplicates.seen@ == Set::<u64>::empty(),
            match configuration.content() {
                Some(content) => {
                    &&& filter.only_existing == (content.include_only_existing_source == Some(
                        true,
                    ))
                    &&& filter.paths_to_include@ == content.paths_to_include@
                    &&& filter.paths_to_exclude@ == content.paths_to_exclude@
                    &&& filter.duplicates.fields == fields_or_default(
                        content.duplicate_filter_fields,
                    )
                },
                None => {
                    &&& !filter.only_existing
                    &&& filter.paths_to_include@ == Seq::<String>::empty()
                    &&& filter.paths_to_exclude@ == Seq::<String>::empty()
                    &&& filter.duplicates.fields == DuplicateFilterFields::FileAndOutputOnly
                },
            },
    {
        match &configuration.output {
            Some(output) => match &output.content {
                Some(content) => ContentFilter::new(content),
                None => ContentFilter::new(&Content::default()),
            },
            None => ContentFilter::new(&Content::default()),
        }
    }

    /// Whether `check` reads its `file_exists` argument at all.
    pub fn needs_existence(&self) -> (needed: bool)
        ensures
            needed == self.only_existing,
    {
        self.only_existing
    }

    /// Whether the entry passes by its path in this filter.
    pub open spec fn admits(&self, entry: EntryView, file_exists: bool) -> bool {
        path_passes(
            entry.file,
            texts(self.paths_to_include@),
            texts(self.paths_to_exclude@),
            self.only_existing,
            file_exists,
        )
    }

    /// Decides whether the entry reaches the output. `file_exists` says
    /// whether the file of the entry is on disk now.
    ///
    /// An entry passes when its path passes and no entry with its key has
    /// passed before. The key of an entry that passes is seen from then on;
    /// an entry that does not pass leaves the filter as it was.
    pub fn check(&mut self, entry: &Entry, file_exists: bool) -> (pass: bool)
        ensures
            pass == (old(self).admits(entry@, file_exists) && !old(
                self,
            ).duplicates.seen@.contains(duplicate_key(old(self).duplicates.fields, entry@))),
            final(self).duplicates.seen@ == if pass {
                old(self).duplicates.seen@.insert(
                    duplicate_key(old(self).duplicates.fields, entry@),
                )
            } else {
                old(self).duplicates.seen@
            },
            final(self).duplicates.fields == old(self).duplicates.fields,
            final(self).only_existing == old(self).only_existing,
            final(self).paths_to_include == old(self).paths_to_include,
            final(self).paths_to_exclude == old(self).paths_to_exclude,
    {
        let file = entry.file.as_str();
        if self.paths_to_include.len() > 0 && !path_is_under_any(file, &self.paths_to_include) {
            return false;
        }
        if path_is_under_any(file, &self.paths_to_exclude) {
            return false;
        }
        if self.only_existing && !file_exists {
            return false;
        }
        let fresh = self.duplicates.check(entry);
        proof {
            if !fresh {
                assert(self.duplicates.seen@ =~= old(self).duplicates.seen@);
            }
        }
        fresh
    }
}

} // verus!
