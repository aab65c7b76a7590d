//! Keywords for a collection of documents.
//!
//! The text of a document is scrubbed of an exclusion vocabulary, its terms
//! are ranked, and the best of them are normalised into the document's
//! keyword list. Documents are gathered under new-made identifiers while a
//! directory tree is walked; a file that fails costs a line in an error log
//! and does not stop the walk.
//!
//! - `markup`: removal of markup tags.
//! - `numeric`: which terms read as numbers.
//! - `exclusion`: the exclusion vocabulary and the filter made of it.
//! - `keywords`: from ranked terms to keywords.
//! - `document`: a document and the computing of its keywords.
//! - `extract`: plain text out of an EPUB archive.
//! - `ident`: document identifiers.
//! - `results`: the result set, documents by identifier.
//! - `walker`: the bookkeeping of a directory walk.
//! - `tally`: how many documents a walk gathers.
//! - `text`: character-level helpers.
//! - `outside`: the calls into other crates, taken on trust.
//!
//! Reading files and directories is left to the caller, and so is the
//! decoding of PDF files.

pub mod document;
pub mod exclusion;
pub mod extract;
pub mod ident;
pub mod keywords;
pub mod markup;
pub mod numeric;
pub mod outside;
pub mod results;
pub mod tally;
pub mod text;
pub mod walker;
