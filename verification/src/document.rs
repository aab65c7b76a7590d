//! A document and its keywords: filtering the text, ranking its terms and
//! normalising what the ranking gives.

use vstd::prelude::*;
use crate::exclusion::{
    exclude_tags,
    exclusion_pattern,
    filtered,
    first_fields,
    load_tag_exclusions,
    FilterConfigError,
};
use crate::keywords::{lemma_post_processed_len, post_proc_keywords, post_processed};
use crate::outside::{
    csv_records,
    english_stop_words,
    is_ranking_of,
    rank_terms,
    regex_compiles,
    scored_terms,
};

verus! {

/// How many ranked terms are taken from a text at most.
pub const TOP_K: usize = 50;

/// A processed file: its name and its keywords, the most important first.
#[derive(Debug, Clone, PartialEq, Eq)]
pub struct Document {
    pub filename: String,
    pub keywords: Vec<String>,
}

/// A document as plain text.
pub ghost struct DocumentView {
    pub filename: Seq<char>,
    pub keywords: Seq<Seq<char>>,
}

impl DocumentView {
    /// What holds of every document of a result set: it has a name, and at
    /// most `TOP_K` keywords.
    pub open spec fn wf(self) -> bool {
        &&& self.filename.len() > 0
        &&& self.keywords.len() <= TOP_K
    }
}

impl View for Document {
    type V = DocumentView;

    open spec fn view(&self) -> DocumentView {
        DocumentView { filename: self.filename@, keywords: self.keywords.deep_view() }
    }
}

impl Document {
    pub fn new(filename: String, keywords: Vec<String>) -> (out: Self)
        ensures
            out@ == (DocumentView { filename: filename@, keywords: keywords.deep_view() }),
            out.filename == filename,
            out.keywords == keywords,
    {
        Document { filename, keywords }
    }
}

/// The punctuation marks that the ranking leaves out.
pub open spec fn punctuation() -> Seq<Seq<char>> {
    seq![
        "."@,
        ","@,
        ":"@,
        ";"@,
        "!"@,
        "?"@,
        "("@,
        ")"@,
        "["@,
        "]"@,
        "{"@,
        "}"@,
        "\""@,
        "'"@,
        "-"@,
        "\u{2019}"@,
        "\u{2018}"@,
        "\u{2013}"@,
    ]
}

/// The bytes of a table that was read, `None` where it could not be read.
pub open spec fn table_view(table: Option<&[u8]>) -> Option<Seq<u8>> {
    match table {
        Some(bytes) => Some(bytes@),
        None => None,
    }
}

/// The exclusion terms that a table gives. A table that could not be read, or
/// that is malformed, gives none: nothing is excluded then.
pub open spec fn loaded_exclusions(table: Option<Seq<u8>>) -> Seq<Seq<char>> {
    match table {
        Some(bytes) => match csv_records(bytes, false) {
            Some(rows) => first_fields(rows),
            None => Seq::empty(),
        },
        None => Seq::empty(),
    }
}

/// Whether `document` can be what the file `file_name` with the text
/// `content` gives under the exclusion terms `exclusions`: the name as it
/// stands, and for keywords what post-processing makes of a ranking of the
/// terms that are scored in the filtered text. The ranking holds the `TOP_K`
/// best of these terms, or all of them where there are fewer; which come
/// first is the ranker's to say. So is the list of stop words.
pub open spec fn is_meta_of(
    document: DocumentView,
    file_name: Seq<char>,
    content: Seq<char>,
    exclusions: Seq<Seq<char>>,
) -> bool {
    &&& document.filename == file_name
    &&& document.keywords.len() <= TOP_K
    &&& exists|stops: Seq<Seq<char>>, ranked: Seq<Seq<char>>|
        #[trigger] is_ranking_of(
            ranked,
            scored_terms(filtered(content, exclusions), stops, punctuation()),
            TOP_K as nat,
        ) && document.keywords == post_processed(ranked)
}

/// The punctuation marks that the ranking leaves out.
pub fn punctuation_marks() -> (out: Vec<String>)
    ensures
        out.deep_view() == punctuation(),
{
    let mut out: Vec<String> = Vec::new();
    out.push(".".to_owned());
    out.push(",".to_owned());
    out.push(":".to_owned());
    out.push(";".to_owned());
    out.push("!".to_owned());
    out.push("?".to_owned());
    out.push("(".to_owned());
    out.push(")".to_owned());
    out.push("[".to_owned());
    out.push("]".to_owned());
    out.push("{".to_owned());
    out.push("}".to_owned());
    out.push("\"".to_owned());
    out.push("'".to_owned());
    out.push("-".to_owned());
    out.push("\u{2019}".to_owned());
    out.push("\u{2018}".to_owned());
    out.push("\u{2013}".to_owned());
    out
}

/// The exclusion terms to work with, given the bytes of the exclusion table
/// or `None` where the table could not be read. Never fails: where no terms
/// can be had, nothing is excluded.
pub fn exclusions_or_empty(table: Option<&[u8]>) -> (out: Vec<String>)
    ensures
        out.deep_view() == loaded_exclusions(table_view(table)),
{
    let empty: Vec<String> = Vec::new();
    match table {
        Some(bytes) => match load_tag_exclusions(bytes) {
            Ok(terms) => terms,
            Err(_) => empty,
        },
        None => empty,
    }
}

/// The document that a file name and the ranked terms of its text give.
pub fn document_from_ranked(file_name: &str, ranked: Vec<String>) -> (out: Document)
    ensures
        out@.filename == file_name@,
        out@.keywords == post_processed(ranked.deep_view()),
{
    let keywords = post_proc_keywords(ranked);
    Document::new(file_name.to_owned(), keywords)
}

/// Computes the keywords of one file from its text: the exclusion terms are
/// scrubbed from the text, the terms of what is left are ranked, and the
/// `TOP_K` best are normalised. The file's text is ranked on its own: the
/// keywords come of the terms of the filtered text and of nothing else, so
/// that no term that the filter removed is among them.
///
/// Fails exactly when the exclusion terms do not make a valid pattern.
pub fn generate_meta(file_name: &str, content: &str, exclusion_table: Option<&[u8]>) -> (out:
    Result<Document, FilterConfigError>)
    ensures
        ({
            let exclusions = loaded_exclusions(table_view(exclusion_table));
            match out {
                Ok(document) => regex_compiles(exclusion_pattern(exclusions)) && is_meta_of(
                    document@,
                    file_name@,
                    content@,
                    exclusions,
                ),
                Err(error) => !regex_compiles(exclusion_pattern(exclusions)) && error.pattern@
                    == exclusion_pattern(exclusions),
            }
        }),
{
    let stop_words = english_stop_words();
    let marks = punctuation_marks();
    let exclusions = exclusions_or_empty(exclusion_table);
    match exclude_tags(content.to_owned(), exclusions.as_slice()) {
        Ok(filtered) => {
            let ranked = rank_terms(filtered.as_str(), &stop_words, &marks, TOP_K);
            let ghost terms = ranked.deep_view();
            proof {
                lemma_post_processed_len(terms);
            }
            let document = document_from_ranked(file_name, ranked);
            assert(is_ranking_of(
                terms,
                scored_terms(filtered@, stop_words.deep_view(), punctuation()),
                TOP_K as nat,
            ));
            Ok(document)
        },
        Err(error) => Err(error),
    }
}

} // verus!
