//! The exclusion vocabulary: reading the list of terms and scrubbing them,
//! with their plain plurals, from a text before it is ranked.

use vstd::prelude::*;
use crate::outside::{
    csv_records,
    lowercase,
    read_csv_records,
    regex_compiles,
    regex_replace_all,
    regex_replaced,
    to_lowercase,
    trim,
    trimmed,
};

verus! {

/// The exclusion table could not be read as rows of fields.
#[derive(Debug, Clone, PartialEq, Eq)]
pub enum LoadError {
    /// Some row of the table is malformed.
    Malformed,
}

/// The exclusion terms do not make a valid pattern. The run cannot go on with
/// them, since every document is filtered by the same terms.
#[derive(Debug, Clone, PartialEq, Eq)]
pub struct FilterConfigError {
    /// The pattern that was refused.
    pub pattern: String,
}

impl FilterConfigError {
    /// The error in words.
    pub fn message(&self) -> (out: String)
        ensures
            out@ == "Invalid regex pattern: "@ + self.pattern@,
    {
        let mut out = "Invalid regex pattern: ".to_owned();
        out.append(self.pattern.as_str());
        out
    }
}

/// The first field of every row that has one, in the order of the rows.
pub open spec fn first_fields(rows: Seq<Seq<Seq<char>>>) -> Seq<Seq<char>>
    decreases rows.len(),
{
    if rows.len() == 0 {
        Seq::empty()
    } else {
        let head = first_fields(rows.drop_last());
        if rows.last().len() > 0 {
            head.push(rows.last()[0])
        } else {
            head
        }
    }
}

/// What the pattern looks for, two entries for each exclusion term: the term
/// itself, and the term with an `s` put behind it, each trimmed and in lower
/// case.
pub open spec fn alternatives(exclusions: Seq<Seq<char>>) -> Seq<Seq<char>>
    decreases exclusions.len(),
{
    if exclusions.len() == 0 {
        Seq::empty()
    } else {
        let term = exclusions.last();
        alternatives(exclusions.drop_last()).push(lowercase(trimmed(term))).push(
            lowercase(trimmed(term + "s"@)),
        )
    }
}

/// The parts put end to end with the separator between each two.
pub open spec fn joined(parts: Seq<Seq<char>>, separator: Seq<char>) -> Seq<char>
    decreases parts.len(),
{
    if parts.len() == 0 {
        Seq::empty()
    } else if parts.len() == 1 {
        parts[0]
    } else {
        joined(parts.drop_last(), separator) + separator + parts.last()
    }
}

/// The pattern that matches any of the alternatives as a whole word.
pub open spec fn exclusion_pattern(exclusions: Seq<Seq<char>>) -> Seq<char> {
    "\\b(?:"@ + joined(alternatives(exclusions), "|"@) + ")\\b"@
}

/// `content` in lower case with every match of the exclusion pattern removed.
/// Meaningful where the pattern compiles.
pub open spec fn filtered(content: Seq<char>, exclusions: Seq<Seq<char>>) -> Seq<char> {
    regex_replaced(exclusion_pattern(exclusions), lowercase(content), ""@)
}

/// Terms that are the same once trimmed and put in lower case, and whose
/// plurals are, make the same alternatives.
pub proof fn lemma_alternatives_ignore_case(e1: Seq<Seq<char>>, e2: Seq<Seq<char>>)
    requires
        e1.len() == e2.len(),
        forall|i: int|
            0 <= i < e1.len() ==> lowercase(trimmed(#[trigger] e1[i])) == lowercase(
                trimmed(e2[i]),
            ),
        forall|i: int|
            0 <= i < e1.len() ==> lowercase(trimmed(#[trigger] e1[i] + "s"@)) == lowercase(
                trimmed(e2[i] + "s"@),
            ),
    ensures
        alternatives(e1) == alternatives(e2),
    decreases e1.len(),
{
    if e1.len() > 0 {
        let h1 = e1.drop_last();
        let h2 = e2.drop_last();
        assert forall|i: int| 0 <= i < h1.len() implies lowercase(trimmed(#[trigger] h1[i]))
            == lowercase(trimmed(h2[i])) by {
            assert(h1[i] == e1[i] && h2[i] == e2[i]);
        }
        assert forall|i: int| 0 <= i < h1.len() implies lowercase(
            trimmed(#[trigger] h1[i] + "s"@),
        ) == lowercase(trimmed(h2[i] + "s"@)) by {
            assert(h1[i] == e1[i] && h2[i] == e2[i]);
        }
        lemma_alternatives_ignore_case(h1, h2);
        assert(e1.last() == e1[e1.len() - 1] && e2.last() == e2[e2.len() - 1]);
    }
}

/// What is removed depends on the text in lower case and on the terms
/// trimmed and in lower case, and on nothing else: neither the letter case
/// of the text nor that of a term changes the pattern or the outcome.
pub proof fn lemma_filter_ignores_case(
    c1: Seq<char>,
    c2: Seq<char>,
    e1: Seq<Seq<char>>,
    e2: Seq<Seq<char>>,
)
    requires
        lowercase(c1) == lowercase(c2),
        e1.len() == e2.len(),
        forall|i: int|
            0 <= i < e1.len() ==> lowercase(trimmed(#[trigger] e1[i])) == lowercase(
                trimmed(e2[i]),
            ),
        forall|i: int|
            0 <= i < e1.len() ==> lowercase(trimmed(#[trigger] e1[i] + "s"@)) == lowercase(
                trimmed(e2[i] + "s"@),
            ),
    ensures
        exclusion_pattern(e1) == exclusion_pattern(e2),
        filtered(c1, e1) == filtered(c2, e2),
{
    lemma_alternatives_ignore_case(e1, e2);
}

/// The first field of every row that has one.
pub fn first_column(rows: &Vec<Vec<String>>) -> (out: Vec<String>)
    ensures
        out.deep_view() == first_fields(rows.deep_view()),
{
    let mut out: Vec<String> = Vec::new();
    let ghost all = rows.deep_view();
    let mut i: usize = 0;
    while i < rows.len()
        invariant
            i <= rows.len(),
            all == rows.deep_view(),
            out.deep_view() == first_fields(all.take(i as int)),
        decreases rows.len() - i,
    {
        proof {
            let upto = all.take(i as int + 1);
            assert(upto.drop_last() =~= all.take(i as int));
        }
        let row = &rows[i];
        if row.len() > 0 {
            out.push(row[0].clone());
        }
        i += 1;
    }
    assert(all.take(i as int) =~= all);
    out
}

/// Reads the exclusion terms from a table: one term per row, in the first
/// column. The table has no header row: its first line gives a term like
/// every other.
pub fn load_tag_exclusions(table: &[u8]) -> (out: Result<Vec<String>, LoadError>)
    ensures
        match out {
            Ok(terms) => csv_records(table@, false) matches Some(rows) && terms.deep_view()
                == first_fields(rows),
            Err(_) => csv_records(table@, false) is None,
        },
{
    match read_csv_records(table, false) {
        Ok(rows) => Ok(first_column(&rows)),
        Err(_) => Err(LoadError::Malformed),
    }
}

/// The alternatives that the exclusion pattern is made of.
pub fn exclusion_alternatives(exclusions: &[String]) -> (out: Vec<String>)
    ensures
        out.deep_view() == alternatives(exclusions.deep_view()),
{
    let mut out: Vec<String> = Vec::new();
    let ghost all = exclusions.deep_view();
    let mut i: usize = 0;
    while i < exclusions.len()
        invariant
            i <= exclusions.len(),
            all == exclusions.deep_view(),
            out.deep_view() == alternatives(all.take(i as int)),
        decreases exclusions.len() - i,
    {
        proof {
            let upto = all.take(i as int + 1);
            assert(upto.drop_last() =~= all.take(i as int));
        }
        let term = &exclusions[i];
        let mut plural = term.clone();
        plural.append("s");
        let single = to_lowercase(trim(term.as_str()));
        let double = to_lowercase(trim(plural.as_str()));
        out.push(single);
        out.push(double);
        i += 1;
    }
    assert(all.take(i as int) =~= all);
    out
}

/// The parts put end to end with the separator between each two.
pub fn join(parts: &Vec<String>, separator: &str) -> (out: String)
    ensures
        out@ == joined(parts.deep_view(), separator@),
{
    let mut out = String::new();
    let ghost all = parts.deep_view();
    let mut i: usize = 0;
    while i < parts.len()
        invariant
            i <= parts.len(),
            all == parts.deep_view(),
            out@ == joined(all.take(i as int), separator@),
        decreases parts.len() - i,
    {
        proof {
            let upto = all.take(i as int + 1);
            assert(upto.drop_last() =~= all.take(i as int));
        }
        if i > 0 {
            out.append(separator);
        }
        out.append(parts[i].as_str());
        i += 1;
    }
    assert(all.take(i as int) =~= all);
    out
}

/// The pattern that matches any exclusion term, or the term with an `s`
/// behind it, as a whole word.
pub fn build_exclusion_pattern(exclusions: &[String]) -> (out: String)
    ensures
        out@ == exclusion_pattern(exclusions.deep_view()),
{
    let parts = exclusion_alternatives(exclusions);
    let body = join(&parts, "|");
    let mut out = "\\b(?:".to_owned();
    out.append(body.as_str());
    out.append(")\\b");
    out
}

/// Puts `content` in lower case and removes every whole-word match of an
/// exclusion term or its plain plural. Fails, whatever the content, exactly
/// when the terms do not make a valid pattern.
pub fn exclude_tags(content: String, exclusions: &[String]) -> (out: Result<
    String,
    FilterConfigError,
>)
    ensures
        match out {
            Ok(text) => regex_compiles(exclusion_pattern(exclusions.deep_view())) && text@
                == filtered(content@, exclusions.deep_view()),
            Err(error) => !regex_compiles(exclusion_pattern(exclusions.deep_view()))
                && error.pattern@ == exclusion_pattern(exclusions.deep_view()),
        },
{
    let lower_content = to_lowercase(content.as_str());
    let pattern = build_exclusion_pattern(exclusions);
    match regex_replace_all(pattern.as_str(), lower_content.as_str(), "") {
        Ok(text) => Ok(text),
        Err(_) => Err(FilterConfigError { pattern }),
    }
}

} // verus!
