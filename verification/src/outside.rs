//! Calls into other crates, and into parts of the standard library that come
//! without a specification.
//!
//! Nothing in this file is proved. Each function below wraps one outside operation
//! and its contract is what the rest of the library takes on trust about that
//! call. Where the outcome of a call is too long to write out, it is given a
//! name: a specification function without a body that stands for "what the
//! call returns on these arguments".

use vstd::prelude::*;

verus! {

/// `str::to_lowercase` applied to the text `s`.
pub uninterp spec fn lowercase(s: Seq<char>) -> Seq<char>;

/// `str::to_uppercase` applied to the text `s`.
pub uninterp spec fn uppercase(s: Seq<char>) -> Seq<char>;

/// The user-perceived characters (extended grapheme clusters) of `s`, in
/// order, as `unicode_segmentation` cuts them.
pub uninterp spec fn grapheme_clusters(s: Seq<char>) -> Seq<Seq<char>>;

/// Whether `regex::Regex::new` accepts `pattern`.
pub uninterp spec fn regex_compiles(pattern: Seq<char>) -> bool;

/// `text` after `regex::Regex::replace_all` has put `replacement` in place of
/// every match of `pattern`. Meaningful where `regex_compiles(pattern)`.
pub uninterp spec fn regex_replaced(
    pattern: Seq<char>,
    text: Seq<char>,
    replacement: Seq<char>,
) -> Seq<char>;

/// The records that the `csv` crate reads from `data`, each as the list of
/// its fields; `None` where it reports an error for some record. With
/// `header` the first line is taken for a header row and is no record;
/// without it every line is a record. The other settings are the crate's
/// defaults.
pub uninterp spec fn csv_records(data: Seq<u8>, header: bool) -> Option<Seq<Seq<Seq<char>>>>;

/// The terms to which `keyword_extraction` gives a score when it is handed
/// `text` as a single unprocessed document with these stop words and
/// punctuation marks: the keys of its score table.
pub uninterp spec fn scored_terms(
    text: Seq<char>,
    stop_words: Seq<Seq<char>>,
    punctuation: Seq<Seq<char>>,
) -> Set<Seq<char>>;

/// Whether `c` is white space to `str::trim`: whether it has the Unicode
/// property `White_Space`. These are the tab, the line feed, the vertical
/// tab, the form feed, the carriage return and the space; the next-line
/// control and the no-break space; the Ogham space mark; the spaces from the
/// en quad to the hair space; the line and the paragraph separator; the
/// narrow no-break space, the medium mathematical space and the ideographic
/// space.
pub open spec fn is_whitespace(c: char) -> bool {
    ||| '\u{0009}' <= c <= '\u{000D}'
    ||| c == '\u{0020}'
    ||| c == '\u{0085}'
    ||| c == '\u{00A0}'
    ||| c == '\u{1680}'
    ||| '\u{2000}' <= c <= '\u{200A}'
    ||| c == '\u{2028}'
    ||| c == '\u{2029}'
    ||| c == '\u{202F}'
    ||| c == '\u{205F}'
    ||| c == '\u{3000}'
}

/// The resources of the EPUB archive held in `data`, in the order of the
/// archive's directory: the text of each resource that can be read and is
/// valid UTF-8, `None` for each other. `None` as a whole where `data` cannot
/// be opened as an archive.
pub uninterp spec fn epub_resources(data: Seq<u8>) -> Option<Seq<Option<Seq<char>>>>;

/// Whether `ranked` can be the `limit` best of the scored terms `terms`, in
/// whatever order the scores put them: it holds terms of the set only and
/// none twice, and it holds `limit` of them, or all where there are fewer.
pub open spec fn is_ranking_of(ranked: Seq<Seq<char>>, terms: Set<Seq<char>>, limit: nat) -> bool {
    &&& terms.finite()
    &&& ranked.no_duplicates()
    &&& forall|i: int| 0 <= i < ranked.len() ==> terms.contains(#[trigger] ranked[i])
    &&& ranked.len() <= limit
    &&& ranked.len() <= terms.len()
    &&& (ranked.len() == limit || ranked.len() == terms.len())
}

/// `s` without its leading and trailing white space.
pub open spec fn trimmed(s: Seq<char>) -> Seq<char>
    decreases s.len(),
{
    if s.len() > 0 && is_whitespace(s.first()) {
        trimmed(s.drop_first())
    } else if s.len() > 0 && is_whitespace(s.last()) {
        trimmed(s.drop_last())
    } else {
        s
    }
}

#[verifier::external_type_specification]
#[verifier::external_body]
pub struct ExRegexError(regex::Error);

#[verifier::external_type_specification]
#[verifier::external_body]
pub struct ExCsvError(csv::Error);

#[verifier::external_type_specification]
#[verifier::external_body]
pub struct ExArchiveError(epub::archive::ArchiveError);

/// `str::to_lowercase`. The contract only names the outcome.
#[verifier::external_body]
pub(crate) fn to_lowercase(s: &str) -> (out: String)
    ensures
        out@ == lowercase(s@),
{
    s.to_lowercase()
}

/// `str::to_uppercase`. The contract only names the outcome.
#[verifier::external_body]
pub(crate) fn to_uppercase(s: &str) -> (out: String)
    ensures
        out@ == uppercase(s@),
{
    s.to_uppercase()
}

/// `str::trim`. Claimed: the outcome is the input without the white space at
/// its two ends, white space being the characters that `is_whitespace` lists.
#[verifier::external_body]
pub(crate) fn trim(s: &str) -> (out: &str)
    ensures
        out@ == trimmed(s@),
{
    s.trim()
}

/// Collecting characters into a `String` (`FromIterator<&char>`). Claimed:
/// the string holds exactly these characters, in this order.
#[verifier::external_body]
pub(crate) fn string_from_chars(chars: &Vec<char>) -> (out: String)
    ensures
        out@ == chars@,
{
    chars.iter().collect()
}

/// `unicode_segmentation::UnicodeSegmentation::graphemes` with extended
/// clusters. Claimed: the outcome depends on the text alone; the clusters are
/// consecutive pieces of the text, so that joined they give it back; and no
/// cluster is empty.
#[verifier::external_body]
pub(crate) fn graphemes(s: &str) -> (out: Vec<String>)
    ensures
        out.deep_view() == grapheme_clusters(s@),
        out.deep_view().flatten() == s@,
        forall|i: int| 0 <= i < out.deep_view().len() ==> (#[trigger] out.deep_view()[i]).len() > 0,
{
    unicode_segmentation::UnicodeSegmentation::graphemes(s, true).map(String::from).collect()
}

/// `regex::Regex::new` followed by `regex::Regex::replace_all`. Claimed:
/// whether the pattern is accepted depends on the pattern alone, and the text
/// that comes back on the three arguments alone.
#[verifier::external_body]
pub(crate) fn regex_replace_all(pattern: &str, text: &str, replacement: &str) -> (out: Result<
    String,
    regex::Error,
>)
    ensures
        out is Ok <==> regex_compiles(pattern@),
        out matches Ok(s) ==> s@ == regex_replaced(pattern@, text@, replacement@),
{
    let compiled = regex::Regex::new(pattern)?;
    Ok(compiled.replace_all(text, replacement).into_owned())
}

/// `csv::ReaderBuilder::new().has_headers(..).from_reader(..)` and the
/// reader's `records()`. Claimed: the records read, or the fact that one of
/// them is in error, depend on the bytes and on the header setting alone.
#[verifier::external_body]
pub(crate) fn read_csv_records(data: &[u8], header: bool) -> (out: Result<
    Vec<Vec<String>>,
    csv::Error,
>)
    ensures
        match out {
            Ok(rows) => csv_records(data@, header) == Some(rows.deep_view()),
            Err(_) => csv_records(data@, header) is None,
        },
{
    let mut reader = csv::ReaderBuilder::new().has_headers(header).from_reader(data);
    let mut rows = Vec::new();
    for record in reader.records() {
        rows.push(record?.iter().map(String::from).collect());
    }
    Ok(rows)
}

/// `epub::archive::EpubArchive::from_reader` on an in-memory reader, then
/// `get_entry_as_str` for each name in the archive's `files`, an entry that
/// fails to read as text giving `None`. Claimed: what is read depends on the
/// bytes alone.
#[verifier::external_body]
pub(crate) fn read_epub_resources(data: &[u8]) -> (out: Result<
    Vec<Option<String>>,
    epub::archive::ArchiveError,
>)
    ensures
        match out {
            Ok(resources) => epub_resources(data@) == Some(resources.deep_view()),
            Err(_) => epub_resources(data@) is None,
        },
{
    let mut archive = epub::archive::EpubArchive::from_reader(std::io::Cursor::new(data))?;
    let names = archive.files.clone();
    Ok(names.iter().map(|name| archive.get_entry_as_str(name).ok()).collect())
}

/// The message of an `epub::archive::ArchiveError`, as its `Display` gives it.
/// Nothing is claimed of the text.
#[verifier::external_body]
pub(crate) fn archive_error_text(error: &epub::archive::ArchiveError) -> String {
    format!("{}", error)
}

/// `keyword_extraction::tf_idf::TfIdf` over a single unprocessed document,
/// then `get_ranked_words(limit)`. The scores are floating-point sums taken in
/// the order of a hash table, so the order of what comes back is given no
/// name. Claimed is what holds of every outcome: the score table's keys are a
/// finite set that depends on the three arguments alone; the table is sorted
/// and its first `limit` keys come back, all of them where there are fewer;
/// so no word comes back twice.
#[verifier::external_body]
pub(crate) fn rank_terms(
    text: &str,
    stop_words: &Vec<String>,
    punctuation: &Vec<String>,
    limit: usize,
) -> (out: Vec<String>)
    ensures
        is_ranking_of(
            out.deep_view(),
            scored_terms(text@, stop_words.deep_view(), punctuation.deep_view()),
            limit as nat,
        ),
{
    let documents = [text.to_string()];
    let params = keyword_extraction::tf_idf::TfIdfParams::UnprocessedDocuments(
        &documents,
        stop_words,
        Some(punctuation),
    );
    keyword_extraction::tf_idf::TfIdf::new(params).get_ranked_words(limit)
}

/// `stop_words::get` for English, whose list the crate's default features
/// compile in. Nothing is claimed of the list.
#[verifier::external_body]
pub(crate) fn english_stop_words() -> Vec<String> {
    stop_words::get(stop_words::Language::English).iter().map(|word| word.to_string()).collect()
}

/// `std::time::SystemTime::now`, as whole microseconds since the Unix epoch;
/// `None` where the clock reads earlier than the epoch. Nothing is claimed of
/// the number.
#[verifier::external_body]
pub(crate) fn micros_since_epoch() -> Option<u128> {
    std::time::SystemTime::now().duration_since(std::time::UNIX_EPOCH).ok().map(|d| d.as_micros())
}

/// `rand::random::<u64>`. Nothing is claimed of the number. The call panics
/// only where the operating system cannot seed the generator.
#[verifier::external_body]
pub(crate) fn random_u64() -> u64 {
    rand::random()
}

} // verus!
