//! Counting what a walk gathers.
//!
//! A finished walk in which every file gave a document is described by what
//! was found in each directory: files, each with the identifier and the
//! document it was given, and subdirectories, each with what was found in it.
//! `gathered` says which result set the walk ends with, by the two steps that
//! `Harvest::apply` takes: a file's document is inserted, a subdirectory's
//! result set is merged. The laws below say that these are the steps of the
//! harvest, and how many documents the walk ends with.

use vstd::prelude::*;
use vstd::seq_lib::*;
use crate::document::DocumentView;
use crate::ident::is_document_id;
use crate::outside::epub_resources;
use crate::walker::{
    bytes_of,
    epub_handled,
    file_settled,
    format_of,
    pdf_handled,
    stepped,
    Event,
    Failure,
    Format,
    Halt,
    Harvest,
    HarvestView,
};

verus! {

/// One directory entry of a finished walk.
pub ghost enum Found {
    /// A file, with the identifier and the document it was given.
    File { id: Seq<char>, document: DocumentView },
    /// A subdirectory, with what was found in it.
    Directory { entries: Seq<Found> },
}

/// The result set after the first `upto` entries of a directory.
pub open spec fn gathered(entries: Seq<Found>, upto: int) -> Map<Seq<char>, DocumentView>
    decreases entries, upto,
{
    if upto <= 0 || upto > entries.len() {
        Map::empty()
    } else {
        let before = gathered(entries, upto - 1);
        match entries[upto - 1] {
            Found::File { id, document } => before.insert(id, document),
            Found::Directory { entries: inner } => before.union_prefer_right(
                gathered(inner, inner.len() as int),
            ),
        }
    }
}

/// The result set `before` after one more entry: with the document of a file
/// put in, or with the result set of a subdirectory merged.
pub open spec fn taken_in(
    before: Map<Seq<char>, DocumentView>,
    found: Found,
) -> Map<Seq<char>, DocumentView> {
    match found {
        Found::File { id, document } => before.insert(id, document),
        Found::Directory { entries } => before.union_prefer_right(
            gathered(entries, entries.len() as int),
        ),
    }
}

/// Whether the event is a file that gave a document: a file of a known
/// format whose text could be had, taken in with success.
pub open spec fn gave_document(event: Event, out: Result<(), Halt>) -> bool {
    &&& out is Ok
    &&& match event {
        Event::Pdf { file_name, outcome, .. } => format_of(file_name@) == Some(Format::Pdf)
            && outcome is Text,
        Event::Epub { file_name, read, .. } => format_of(file_name@) == Some(Format::Epub)
            && match read {
            Ok(data) => epub_resources(data@) is Some,
            Err(_) => false,
        },
        _ => false,
    }
}

/// The identifiers given to the files among the first `upto` entries of a
/// directory and in their subdirectories, at any depth.
pub open spec fn identifiers(entries: Seq<Found>, upto: int) -> Seq<Seq<char>>
    decreases entries, upto,
{
    if upto <= 0 || upto > entries.len() {
        Seq::empty()
    } else {
        let before = identifiers(entries, upto - 1);
        match entries[upto - 1] {
            Found::File { id, .. } => before.push(id),
            Found::Directory { entries: inner } => before + identifiers(
                inner,
                inner.len() as int,
            ),
        }
    }
}

/// How many files there are among the first `upto` entries of a directory and
/// in their subdirectories, at any depth.
pub open spec fn file_count(entries: Seq<Found>, upto: int) -> nat
    decreases entries, upto,
{
    if upto <= 0 || upto > entries.len() {
        0
    } else {
        let before = file_count(entries, upto - 1);
        match entries[upto - 1] {
            Found::File { .. } => before + 1,
            Found::Directory { entries: inner } => before + file_count(inner, inner.len() as int),
        }
    }
}

/// `gathered` goes from entry to entry by `taken_in`.
pub proof fn lemma_gathered_step(entries: Seq<Found>, upto: int)
    requires
        0 < upto <= entries.len(),
    ensures
        gathered(entries, upto) == taken_in(gathered(entries, upto - 1), entries[upto - 1]),
{
}

/// A step of the harvest on a file that gave a document is a step of
/// `gathered` on a file: the document went in under an identifier.
pub proof fn lemma_file_step_is_taken_in(
    before: HarvestView,
    after: HarvestView,
    event: Event,
    out: Result<(), Halt>,
)
    requires
        stepped(before, after, event, out),
        gave_document(event, out),
    ensures
        after.errors == before.errors,
        exists|id: Seq<char>, document: DocumentView|
            is_document_id(id) && after.documents == #[trigger] taken_in(
                before.documents,
                Found::File { id, document },
            ),
{
    match event {
        Event::Pdf { file_name, outcome, exclusion_table } => {
            let handled = choose|handled: Result<(), Failure>|
                {
                    &&& #[trigger] pdf_handled(
                        before.documents,
                        after.documents,
                        file_name@,
                        outcome,
                        bytes_of(exclusion_table),
                        handled,
                    )
                    &&& file_settled(before, after, handled, out)
                };
            assert(handled is Ok);
        },
        Event::Epub { file_name, read, exclusion_table } => {
            let handled = choose|handled: Result<(), Failure>|
                {
                    &&& #[trigger] epub_handled(
                        before.documents,
                        after.documents,
                        file_name@,
                        read,
                        bytes_of(exclusion_table),
                        handled,
                    )
                    &&& file_settled(before, after, handled, out)
                };
            assert(handled is Ok);
        },
        _ => {},
    }
    let (id, document) = choose|id: Seq<char>, document: DocumentView|
        is_document_id(id) && after.documents == #[trigger] before.documents.insert(id, document);
    assert(after.documents == taken_in(before.documents, Found::File { id, document }));
}

/// A step of the harvest on a subdirectory that was walked is a step of
/// `gathered` on a directory, where the subdirectory's own result set is what
/// `gathered` says of its entries.
pub proof fn lemma_merge_step_is_taken_in(
    before: HarvestView,
    after: HarvestView,
    harvest: Harvest,
    out: Result<(), Halt>,
    entries: Seq<Found>,
)
    requires
        stepped(before, after, Event::Subdirectory(Ok(harvest)), out),
        harvest@.documents == gathered(entries, entries.len() as int),
    ensures
        out is Ok,
        after.documents == taken_in(before.documents, Found::Directory { entries }),
{
}

/// Each file was given one identifier.
pub proof fn lemma_one_identifier_per_file(entries: Seq<Found>, upto: int)
    ensures
        identifiers(entries, upto).len() == file_count(entries, upto),
    decreases entries, upto,
{
    if 0 < upto <= entries.len() {
        lemma_one_identifier_per_file(entries, upto - 1);
        match entries[upto - 1] {
            Found::File { .. } => {},
            Found::Directory { entries: inner } => {
                lemma_one_identifier_per_file(inner, inner.len() as int);
            },
        }
    }
}

/// The result set holds a document under each identifier that was given, and
/// under no other, however the files lie in the directories.
pub proof fn lemma_gathered_identifiers(entries: Seq<Found>, upto: int)
    ensures
        gathered(entries, upto).dom() == identifiers(entries, upto).to_set(),
    decreases entries, upto,
{
    if 0 < upto <= entries.len() {
        lemma_gathered_identifiers(entries, upto - 1);
        let before = identifiers(entries, upto - 1);
        match entries[upto - 1] {
            Found::File { id, .. } => {
                assert forall|key: Seq<char>| #[trigger]
                    before.push(id).to_set().contains(key) <==> before.to_set().insert(
                        id,
                    ).contains(key) by {
                    if before.push(id).contains(key) {
                        let i = choose|i: int|
                            0 <= i < before.push(id).len() && before.push(id)[i] == key;
                        if i < before.len() {
                            assert(before[i] == key);
                        }
                    }
                    if before.contains(key) {
                        let i = choose|i: int| 0 <= i < before.len() && before[i] == key;
                        assert(before.push(id)[i] == key);
                    }
                    if key == id {
                        assert(before.push(id)[before.len() as int] == key);
                    }
                }
                assert(gathered(entries, upto).dom() =~= identifiers(entries, upto).to_set());
            },
            Found::Directory { entries: inner } => {
                lemma_gathered_identifiers(inner, inner.len() as int);
                let below = identifiers(inner, inner.len() as int);
                assert forall|key: Seq<char>| #[trigger]
                    (before + below).to_set().contains(key) <==> before.to_set().union(
                        below.to_set(),
                    ).contains(key) by {
                    if (before + below).contains(key) {
                        let i = choose|i: int|
                            0 <= i < (before + below).len() && (before + below)[i] == key;
                        if i < before.len() {
                            assert(before[i] == key);
                        } else {
                            assert(below[i - before.len()] == key);
                        }
                    }
                    if before.contains(key) {
                        let i = choose|i: int| 0 <= i < before.len() && before[i] == key;
                        assert((before + below)[i] == key);
                    }
                    if below.contains(key) {
                        let i = choose|i: int| 0 <= i < below.len() && below[i] == key;
                        assert((before + below)[before.len() + i] == key);
                    }
                }
                assert(gathered(entries, upto).dom() =~= identifiers(entries, upto).to_set());
            },
        }
    } else {
        assert(gathered(entries, upto).dom() =~= identifiers(entries, upto).to_set());
    }
}

/// A walk over directories that hold N files in all, at whatever depth, ends
/// with exactly N documents, provided that every file gave a document and
/// that no identifier was given twice.
pub proof fn lemma_walk_gathers_every_file(entries: Seq<Found>)
    requires
        identifiers(entries, entries.len() as int).no_duplicates(),
    ensures
        gathered(entries, entries.len() as int).dom().finite(),
        gathered(entries, entries.len() as int).dom().len() == file_count(
            entries,
            entries.len() as int,
        ),
{
    let ids = identifiers(entries, entries.len() as int);
    lemma_gathered_identifiers(entries, entries.len() as int);
    lemma_one_identifier_per_file(entries, entries.len() as int);
    ids.unique_seq_to_set();
    seq_to_set_is_finite(ids);
}

} // verus!
