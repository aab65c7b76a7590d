//! The bookkeeping of a directory walk.
//!
//! Reading directories and files is left to the caller. For each directory
//! entry the caller asks `plan_entry` what has to be fetched, fetches it, and
//! hands what came of it to `Harvest::apply` as an event. The harvest gathers
//! the documents and the error log. A file that cannot be read or decoded
//! costs one line in the log and nothing else; only exclusion terms that make
//! no valid pattern, or a clock that gives no time, stop the walk.

use vstd::prelude::*;
use crate::document::{
    generate_meta,
    is_meta_of,
    loaded_exclusions,
    table_view,
    DocumentView,
};
use crate::exclusion::{exclusion_pattern, FilterConfigError};
use crate::extract::{collect_resources_into_string, resources_text};
use crate::ident::{generate_id, is_document_id};
use crate::outside::{epub_resources, regex_compiles};
use crate::results::ResultSet;
use crate::text::{ends_with, join4};

verus! {

/// The formats that text can be taken from.
#[derive(Debug, Clone, Copy, PartialEq, Eq, Structural)]
pub enum Format {
    Pdf,
    Epub,
}

/// What has to be fetched for one directory entry.
#[derive(Debug, Clone, Copy, PartialEq, Eq, Structural)]
pub struct Plan {
    /// The file is to be read, as a document of this format.
    pub extract: Option<Format>,
    /// The entry is a directory to walk in turn.
    pub descend: bool,
}

/// What came of reading a PDF file and decoding it.
#[derive(Debug, Clone, PartialEq, Eq)]
pub enum PdfOutcome {
    /// The file could not be read; the cause.
    Unreadable(String),
    /// The file was read but is no sound PDF; the cause.
    Undecodable(String),
    /// The text of the file.
    Text(String),
}

/// Why a file gave no document.
#[derive(Debug, Clone, PartialEq, Eq)]
pub enum Failure {
    /// The file could not be read or decoded. The message belongs in the
    /// error log; the walk goes on.
    Recorded(String),
    /// The exclusion terms make no valid pattern. No file can be processed.
    Config(FilterConfigError),
    /// The clock reads earlier than the Unix epoch: no identifier can be made.
    Clock,
}

/// Why a walk cannot go on.
#[derive(Debug, Clone, PartialEq, Eq)]
pub enum Halt {
    /// The exclusion terms make no valid pattern.
    Config(FilterConfigError),
    /// The clock reads earlier than the Unix epoch.
    Clock,
}

/// What a walk has gathered: the documents, and one line for each failure.
#[derive(Debug, Clone, PartialEq, Eq)]
pub struct Harvest {
    pub documents: ResultSet,
    pub errors: Vec<String>,
}

/// A harvest as plain values.
pub ghost struct HarvestView {
    pub documents: Map<Seq<char>, DocumentView>,
    pub errors: Seq<Seq<char>>,
}

/// What the caller found for one directory entry.
#[derive(Debug)]
pub enum Event {
    /// The entry itself could not be read; the cause.
    EntryUnreadable(String),
    /// The entry's name is no valid text.
    NameInvalid,
    /// A PDF file, with what came of reading and decoding it and the bytes of
    /// the exclusion table as they were when the file was processed (`None`
    /// where the table could not be read). The event counts only where the
    /// name ends in `.pdf`.
    Pdf { file_name: String, outcome: PdfOutcome, exclusion_table: Option<Vec<u8>> },
    /// An EPUB file, with its bytes or the cause for which it could not be
    /// read, and the exclusion table as for a PDF file. The event counts only
    /// where the name ends in `.epub`.
    Epub { file_name: String, read: Result<Vec<u8>, String>, exclusion_table: Option<Vec<u8>> },
    /// A directory that was walked in turn, with its harvest or the cause for
    /// which it could not be read.
    Subdirectory(Result<Harvest, String>),
}

/// The format that a file name stands for.
pub open spec fn format_of(file_name: Seq<char>) -> Option<Format> {
    if ".pdf"@.is_suffix_of(file_name) {
        Some(Format::Pdf)
    } else if ".epub"@.is_suffix_of(file_name) {
        Some(Format::Epub)
    } else {
        None
    }
}

pub open spec fn pdf_read_message(file_name: Seq<char>, cause: Seq<char>) -> Seq<char> {
    "Error reading PDF file "@ + file_name + ": "@ + cause
}

pub open spec fn pdf_extract_message(file_name: Seq<char>, cause: Seq<char>) -> Seq<char> {
    "Error extracting text from PDF "@ + file_name + ": "@ + cause
}

pub open spec fn epub_message(file_name: Seq<char>, cause: Seq<char>) -> Seq<char> {
    "Error collecting resources from EPUB "@ + file_name + ": "@ + cause
}

pub open spec fn entry_message(cause: Seq<char>) -> Seq<char> {
    "Error reading directory entry: "@ + cause
}

pub open spec fn invalid_name_message() -> Seq<char> {
    "Invalid file name"@
}

/// `after` is `before` with one document more: under a new-made identifier,
/// a document for the file `file_name` with the text `text`, computed under
/// the exclusion terms `exclusions`.
pub open spec fn added_document(
    before: Map<Seq<char>, DocumentView>,
    after: Map<Seq<char>, DocumentView>,
    file_name: Seq<char>,
    text: Seq<char>,
    exclusions: Seq<Seq<char>>,
) -> bool {
    exists|id: Seq<char>, document: DocumentView|
        is_document_id(id) && is_meta_of(document, file_name, text, exclusions) && after
            == #[trigger] before.insert(id, document)
}

/// The outcome `out` of processing the text `text` of the file `file_name`,
/// with the result set going from `before` to `after`.
pub open spec fn text_indexed(
    before: Map<Seq<char>, DocumentView>,
    after: Map<Seq<char>, DocumentView>,
    file_name: Seq<char>,
    text: Seq<char>,
    exclusion_table: Option<Seq<u8>>,
    out: Result<(), Failure>,
) -> bool {
    let exclusions = loaded_exclusions(exclusion_table);
    let pattern = exclusion_pattern(exclusions);
    match out {
        Ok(_) => regex_compiles(pattern) && added_document(
            before,
            after,
            file_name,
            text,
            exclusions,
        ),
        Err(Failure::Config(error)) => !regex_compiles(pattern) && error.pattern@ == pattern
            && after == before,
        Err(Failure::Clock) => regex_compiles(pattern) && after == before,
        Err(Failure::Recorded(_)) => false,
    }
}

/// The outcome `out` of a file that gave no text: nothing is added, and the
/// message is handed back for the error log.
pub open spec fn file_failed(
    before: Map<Seq<char>, DocumentView>,
    after: Map<Seq<char>, DocumentView>,
    message: Seq<char>,
    out: Result<(), Failure>,
) -> bool {
    &&& after == before
    &&& out matches Err(Failure::Recorded(text))
    &&& text@ == message
}

/// What `handle_pdf_file` does.
pub open spec fn pdf_handled(
    before: Map<Seq<char>, DocumentView>,
    after: Map<Seq<char>, DocumentView>,
    file_name: Seq<char>,
    outcome: PdfOutcome,
    exclusion_table: Option<Seq<u8>>,
    out: Result<(), Failure>,
) -> bool {
    match outcome {
        PdfOutcome::Unreadable(cause) => file_failed(
            before,
            after,
            pdf_read_message(file_name, cause@),
            out,
        ),
        PdfOutcome::Undecodable(cause) => file_failed(
            before,
            after,
            pdf_extract_message(file_name, cause@),
            out,
        ),
        PdfOutcome::Text(text) => text_indexed(
            before,
            after,
            file_name,
            text@,
            exclusion_table,
            out,
        ),
    }
}

/// What `handle_epub_file` does. The text that is processed is the text of
/// the archive's resources. Of the cause that the archive reader gives for
/// bytes it cannot open, nothing is known but that it ends the message.
pub open spec fn epub_handled(
    before: Map<Seq<char>, DocumentView>,
    after: Map<Seq<char>, DocumentView>,
    file_name: Seq<char>,
    read: Result<Vec<u8>, String>,
    exclusion_table: Option<Seq<u8>>,
    out: Result<(), Failure>,
) -> bool {
    match read {
        Err(cause) => file_failed(before, after, epub_message(file_name, cause@), out),
        Ok(data) => match epub_resources(data@) {
            None => exists|cause: Seq<char>| #[trigger]
                file_failed(before, after, epub_message(file_name, cause), out),
            Some(resources) => text_indexed(
                before,
                after,
                file_name,
                resources_text(resources),
                exclusion_table,
                out,
            ),
        },
    }
}

/// A name that stands for a format is not empty, and stands for one format
/// only.
pub proof fn lemma_format_of(file_name: Seq<char>)
    ensures
        format_of(file_name) is Some ==> file_name.len() > 0,
        !(".pdf"@.is_suffix_of(file_name) && ".epub"@.is_suffix_of(file_name)),
{
    reveal_strlit(".pdf");
    reveal_strlit(".epub");
    if ".pdf"@.is_suffix_of(file_name) && ".epub"@.is_suffix_of(file_name) {
        let n = file_name.len() as int;
        assert(file_name.subrange(n - 4, n)[0] == '.');
        assert(file_name.subrange(n - 5, n)[1] == 'e');
    }
}

/// What is to be fetched for the directory entry `file_name`: the file, where
/// its name ends in `.pdf` or `.epub`; the directory, where it is one and the
/// walk is recursive.
pub fn plan_entry(file_name: &str, is_dir: bool, recursive: bool) -> (out: Plan)
    ensures
        out.extract == format_of(file_name@),
        out.descend == (recursive && is_dir),
{
    let extract = if ends_with(file_name, ".pdf") {
        Some(Format::Pdf)
    } else if ends_with(file_name, ".epub") {
        Some(Format::Epub)
    } else {
        None
    };
    Plan { extract, descend: recursive && is_dir }
}

/// Computes the keywords of a text, makes an identifier and puts the document
/// into the result set. The set is touched only on success.
pub fn index_text(
    documents: &mut ResultSet,
    file_name: &str,
    text: &str,
    exclusion_table: Option<&[u8]>,
) -> (out: Result<(), Failure>)
    requires
        old(documents).wf(),
        file_name@.len() > 0,
    ensures
        final(documents).wf(),
        text_indexed(
            old(documents)@,
            final(documents)@,
            file_name@,
            text@,
            table_view(exclusion_table),
            out,
        ),
{
    match generate_meta(file_name, text, exclusion_table) {
        Ok(document) => match generate_id() {
            Some(id) => {
                documents.insert(id, document);
                Ok(())
            },
            None => Err(Failure::Clock),
        },
        Err(error) => Err(Failure::Config(error)),
    }
}

/// Takes in one PDF file, given what came of reading and decoding it.
pub fn handle_pdf_file(
    documents: &mut ResultSet,
    file_name: &str,
    outcome: PdfOutcome,
    exclusion_table: Option<&[u8]>,
) -> (out: Result<(), Failure>)
    requires
        old(documents).wf(),
        file_name@.len() > 0,
    ensures
        final(documents).wf(),
        pdf_handled(
            old(documents)@,
            final(documents)@,
            file_name@,
            outcome,
            table_view(exclusion_table),
            out,
        ),
{
    match outcome {
        PdfOutcome::Unreadable(cause) => Err(
            Failure::Recorded(join4("Error reading PDF file ", file_name, ": ", cause.as_str())),
        ),
        PdfOutcome::Undecodable(cause) => Err(
            Failure::Recorded(
                join4("Error extracting text from PDF ", file_name, ": ", cause.as_str()),
            ),
        ),
        PdfOutcome::Text(text) => index_text(documents, file_name, text.as_str(), exclusion_table),
    }
}

/// Takes in one EPUB file, given its bytes or the cause for which it could
/// not be read.
pub fn handle_epub_file(
    documents: &mut ResultSet,
    file_name: &str,
    read: Result<Vec<u8>, String>,
    exclusion_table: Option<&[u8]>,
) -> (out: Result<(), Failure>)
    requires
        old(documents).wf(),
        file_name@.len() > 0,
    ensures
        final(documents).wf(),
        epub_handled(
            old(documents)@,
            final(documents)@,
            file_name@,
            read,
            table_view(exclusion_table),
            out,
        ),
{
    match read {
        Err(cause) => Err(
            Failure::Recorded(
                join4("Error collecting resources from EPUB ", file_name, ": ", cause.as_str()),
            ),
        ),
        Ok(data) => match collect_resources_into_string(file_name, data.as_slice()) {
            Ok(text) => index_text(documents, file_name, text.as_str(), exclusion_table),
            Err(error) => {
                let message = join4(
                    "Error collecting resources from EPUB ",
                    file_name,
                    ": ",
                    error.cause.as_str(),
                );
                let out = Err(Failure::Recorded(message));
                assert(file_failed(
                    old(documents)@,
                    documents@,
                    epub_message(file_name@, error.cause@),
                    out,
                ));
                out
            },
        },
    }
}

/// Takes in what a walk of a subdirectory gave: its documents and its error
/// lines are added to those at hand. Where the subdirectory could not be
/// read, nothing is added and the cause is handed back for the error log.
pub fn process_subdirectory(
    documents: &mut ResultSet,
    errors: &mut Vec<String>,
    outcome: Result<Harvest, String>,
) -> (out: Result<(), String>)
    requires
        old(documents).wf(),
        outcome matches Ok(harvest) ==> harvest.documents.wf(),
    ensures
        final(documents).wf(),
        match outcome {
            Ok(harvest) => {
                &&& out is Ok
                &&& final(documents)@ == old(documents)@.union_prefer_right(harvest.documents@)
                &&& final(errors).deep_view() == old(errors).deep_view()
                    + harvest.errors.deep_view()
            },
            Err(cause) => {
                &&& out matches Err(message)
                &&& message@ == cause@
                &&& final(documents)@ == old(documents)@
                &&& final(errors).deep_view() == old(errors).deep_view()
            },
        },
{
    match outcome {
        Ok(harvest) => {
            let Harvest { documents: found, errors: lines } = harvest;
            let mut lines = lines;
            documents.extend(found);
            errors.append(&mut lines);
            Ok(())
        },
        Err(cause) => Err(cause),
    }
}

impl View for Harvest {
    type V = HarvestView;

    open spec fn view(&self) -> HarvestView {
        HarvestView { documents: self.documents@, errors: self.errors.deep_view() }
    }
}

impl Event {
    /// The harvest that the event brings, if any, is well formed.
    pub open spec fn wf(&self) -> bool {
        self matches Event::Subdirectory(Ok(harvest)) ==> harvest.wf()
    }
}

/// `after` is `before` with one more line in the error log.
pub open spec fn logged(before: HarvestView, after: HarvestView, line: Seq<char>) -> bool {
    &&& after.documents == before.documents
    &&& after.errors == before.errors.push(line)
}

/// What the harvest makes of the outcome of one file: a line in the log for a
/// file that failed, and nothing but the outcome handed on otherwise.
pub open spec fn file_settled(
    before: HarvestView,
    after: HarvestView,
    handled: Result<(), Failure>,
    out: Result<(), Halt>,
) -> bool {
    match handled {
        Ok(_) => out is Ok && after.errors == before.errors,
        Err(Failure::Recorded(message)) => out is Ok && after.errors == before.errors.push(
            message@,
        ),
        Err(Failure::Config(error)) => out == Err::<(), Halt>(Halt::Config(error)) && after.errors
            == before.errors,
        Err(Failure::Clock) => out == Err::<(), Halt>(Halt::Clock) && after.errors
            == before.errors,
    }
}

/// What `Harvest::apply` does: the harvest goes from `before` to `after` on
/// `event`, and `out` says whether the walk can go on.
pub open spec fn stepped(
    before: HarvestView,
    after: HarvestView,
    event: Event,
    out: Result<(), Halt>,
) -> bool {
    match event {
        Event::EntryUnreadable(cause) => out is Ok && logged(
            before,
            after,
            entry_message(cause@),
        ),
        Event::NameInvalid => out is Ok && logged(before, after, invalid_name_message()),
        Event::Pdf { file_name, outcome, exclusion_table } => if format_of(file_name@) != Some(
            Format::Pdf,
        ) {
            out is Ok && after == before
        } else {
            exists|handled: Result<(), Failure>|
                {
                    &&& #[trigger] pdf_handled(
                        before.documents,
                        after.documents,
                        file_name@,
                        outcome,
                        bytes_of(exclusion_table),
                        handled,
                    )
                    &&& file_settled(before, after, handled, out)
                }
        },
        Event::Epub { file_name, read, exclusion_table } => if format_of(file_name@) != Some(
            Format::Epub,
        ) {
            out is Ok && after == before
        } else {
            exists|handled: Result<(), Failure>|
                {
                    &&& #[trigger] epub_handled(
                        before.documents,
                        after.documents,
                        file_name@,
                        read,
                        bytes_of(exclusion_table),
                        handled,
                    )
                    &&& file_settled(before, after, handled, out)
                }
        },
        Event::Subdirectory(Ok(harvest)) => {
            &&& out is Ok
            &&& after.documents == before.documents.union_prefer_right(harvest@.documents)
            &&& after.errors == before.errors + harvest@.errors
        },
        Event::Subdirectory(Err(cause)) => out is Ok && logged(before, after, cause@),
    }
}

/// The bytes of an exclusion table held by an event.
pub open spec fn bytes_of(table: Option<Vec<u8>>) -> Option<Seq<u8>> {
    match table {
        Some(bytes) => Some(bytes@),
        None => None,
    }
}

fn borrow_table(table: &Option<Vec<u8>>) -> (out: Option<&[u8]>)
    ensures
        table_view(out) == bytes_of(*table),
{
    match table {
        Some(bytes) => Some(bytes.as_slice()),
        None => None,
    }
}

impl Harvest {
    /// The documents are a well-formed result set.
    pub open spec fn wf(&self) -> bool {
        self.documents.wf()
    }

    /// A harvest with nothing in it.
    pub fn new() -> (out: Self)
        ensures
            out.wf(),
            out@.documents == Map::<Seq<char>, DocumentView>::empty(),
            out@.errors == Seq::<Seq<char>>::empty(),
    {
        let out = Harvest { documents: ResultSet::new(), errors: Vec::new() };
        out
    }

    fn log(&mut self, line: String)
        ensures
            final(self).documents == old(self).documents,
            final(self).errors.deep_view() == old(self).errors.deep_view().push(line@),
    {
        self.errors.push(line);
    }

    fn settle(&mut self, handled: Result<(), Failure>) -> (out: Result<(), Halt>)
        ensures
            final(self).documents == old(self).documents,
            file_settled(old(self)@, final(self)@, handled, out),
    {
        match handled {
            Ok(()) => Ok(()),
            Err(Failure::Recorded(message)) => {
                self.log(message);
                Ok(())
            },
            Err(Failure::Config(error)) => Err(Halt::Config(error)),
            Err(Failure::Clock) => Err(Halt::Clock),
        }
    }

    /// Takes in one event of the walk. `Ok` means that the walk goes on with
    /// the next entry; that is so after every failure that concerns one file,
    /// one entry or one subdirectory only.
    pub fn apply(&mut self, event: Event) -> (out: Result<(), Halt>)
        requires
            old(self).wf(),
            event.wf(),
        ensures
            final(self).wf(),
            stepped(old(self)@, final(self)@, event, out),
    {
        match event {
            Event::EntryUnreadable(cause) => {
                let mut line = "Error reading directory entry: ".to_owned();
                line.append(cause.as_str());
                self.log(line);
                Ok(())
            },
            Event::NameInvalid => {
                self.log("Invalid file name".to_owned());
                Ok(())
            },
            Event::Pdf { file_name, outcome, exclusion_table } => {
                if !ends_with(file_name.as_str(), ".pdf") {
                    return Ok(());
                }
                proof {
                    lemma_format_of(file_name@);
                }
                let ghost before = self@;
                let ghost shown = outcome;
                let handled = handle_pdf_file(
                    &mut self.documents,
                    file_name.as_str(),
                    outcome,
                    borrow_table(&exclusion_table),
                );
                let ghost verdict = handled;
                let out = self.settle(handled);
                proof {
                    assert(pdf_handled(
                        before.documents,
                        self@.documents,
                        file_name@,
                        shown,
                        bytes_of(exclusion_table),
                        verdict,
                    ));
                }
                out
            },
            Event::Epub { file_name, read, exclusion_table } => {
                if !ends_with(file_name.as_str(), ".epub") {
                    return Ok(());
                }
                proof {
                    lemma_format_of(file_name@);
                }
                let ghost before = self@;
                let ghost shown = read;
                let handled = handle_epub_file(
                    &mut self.documents,
                    file_name.as_str(),
                    read,
                    borrow_table(&exclusion_table),
                );
                let ghost verdict = handled;
                let out = self.settle(handled);
                proof {
                    assert(epub_handled(
                        before.documents,
                        self@.documents,
                        file_name@,
                        shown,
                        bytes_of(exclusion_table),
                        verdict,
                    ));
                }
                out
            },
            Event::Subdirectory(outcome) => {
                match process_subdirectory(&mut self.documents, &mut self.errors, outcome) {
                    Ok(()) => Ok(()),
                    Err(message) => {
                        self.log(message);
                        Ok(())
                    },
                }
            },
        }
    }
}

/// Whether the event is a file that could not be read or decoded.
pub open spec fn is_failed_file(event: Event) -> bool {
    match event {
        Event::Pdf { file_name, outcome, .. } => format_of(file_name@) == Some(Format::Pdf) && !(
        outcome is Text),
        Event::Epub { file_name, read, .. } => format_of(file_name@) == Some(Format::Epub)
            && match read {
            Ok(data) => epub_resources(data@) is None,
            Err(_) => true,
        },
        _ => false,
    }
}

/// A file that cannot be read or decoded, whatever its format, costs one line
/// in the error log. It gives no document, takes none away, and the walk goes
/// on: the entries that follow meet the result set as if the file had not
/// been there.
pub proof fn lemma_failed_file_costs_one_line(
    before: HarvestView,
    after: HarvestView,
    event: Event,
    out: Result<(), Halt>,
)
    requires
        stepped(before, after, event, out),
        is_failed_file(event),
    ensures
        out is Ok,
        after.documents == before.documents,
        after.errors.len() == before.errors.len() + 1,
        after.errors.drop_last() == before.errors,
{
    match event {
        Event::Pdf { file_name, outcome, exclusion_table } => {
            let handled = choose|handled: Result<(), Failure>|
                {
                    &&& #[trigger] pdf_handled(
                        before.documents,
                        after.documents,
                        file_name@,
                        outcome,
                        bytes_of(exclusion_table),
                        handled,
                    )
                    &&& file_settled(before, after, handled, out)
                };
        },
        Event::Epub { file_name, read, exclusion_table } => {
            let handled = choose|handled: Result<(), Failure>|
                {
                    &&& #[trigger] epub_handled(
                        before.documents,
                        after.documents,
                        file_name@,
                        read,
                        bytes_of(exclusion_table),
                        handled,
                    )
                    &&& file_settled(before, after, handled, out)
                };
        },
        _ => {},
    }
}

/// Nothing that was gathered is lost: whatever the event and however it ends,
/// the error log only grows at its end, and every identifier that stood for
/// a document still stands for one.
pub proof fn lemma_step_is_additive(
    before: HarvestView,
    after: HarvestView,
    event: Event,
    out: Result<(), Halt>,
)
    requires
        stepped(before, after, event, out),
    ensures
        before.errors.is_prefix_of(after.errors),
        before.documents.dom().subset_of(after.documents.dom()),
{
    match event {
        Event::Pdf { file_name, outcome, exclusion_table } => {
            if format_of(file_name@) == Some(Format::Pdf) {
                let handled = choose|handled: Result<(), Failure>|
                    {
                        &&& #[trigger] pdf_handled(
                            before.documents,
                            after.documents,
                            file_name@,
                            outcome,
                            bytes_of(exclusion_table),
                            handled,
                        )
                        &&& file_settled(before, after, handled, out)
                    };
            }
        },
        Event::Epub { file_name, read, exclusion_table } => {
            if format_of(file_name@) == Some(Format::Epub) {
                let handled = choose|handled: Result<(), Failure>|
                    {
                        &&& #[trigger] epub_handled(
                            before.documents,
                            after.documents,
                            file_name@,
                            read,
                            bytes_of(exclusion_table),
                            handled,
                        )
                        &&& file_settled(before, after, handled, out)
                    };
            }
        },
        _ => {},
    }
}

} // verus!
