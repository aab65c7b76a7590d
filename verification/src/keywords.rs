//! Turning ranked terms into the final keyword list.
//!
//! Each term is trimmed and then judged on its own: a numeric term is kept
//! only if it is four characters long (a year), any other term only if it has
//! at least three user-perceived characters, and then with its first one in
//! upper case. Terms are neither reordered nor deduplicated.

use vstd::prelude::*;
use crate::numeric::{is_numeric, parses_as_number};
use crate::outside::{
    grapheme_clusters,
    graphemes,
    to_uppercase,
    trim,
    trimmed,
    uppercase,
};

verus! {

/// `s` with its first user-perceived character in upper case and the rest as
/// it stands.
pub open spec fn capitalized(s: Seq<char>) -> Seq<char> {
    let clusters = grapheme_clusters(s);
    if clusters.len() == 0 {
        s
    } else {
        uppercase(clusters[0]) + s.skip(clusters[0].len() as int)
    }
}

/// The keyword that a ranked term gives, if it gives one.
pub open spec fn keyword_of(term: Seq<char>) -> Option<Seq<char>> {
    let t = trimmed(term);
    if is_numeric(t) {
        if t.len() == 4 {
            Some(t)
        } else {
            None
        }
    } else if grapheme_clusters(t).len() >= 3 {
        Some(capitalized(t))
    } else {
        None
    }
}

/// The keywords that a list of ranked terms gives: those of each term, in the
/// order of the terms.
pub open spec fn post_processed(terms: Seq<Seq<char>>) -> Seq<Seq<char>>
    decreases terms.len(),
{
    if terms.len() == 0 {
        Seq::empty()
    } else {
        let head = post_processed(terms.drop_last());
        match keyword_of(terms.last()) {
            Some(keyword) => head.push(keyword),
            None => head,
        }
    }
}

/// Whether `clusters` cuts `s` into pieces: put end to end the pieces give
/// `s`, and none is empty.
pub open spec fn cuts(clusters: Seq<Seq<char>>, s: Seq<char>) -> bool {
    &&& clusters.flatten() == s
    &&& forall|i: int| 0 <= i < clusters.len() ==> (#[trigger] clusters[i]).len() > 0
}

/// Uppercases the first grapheme cluster of `input` and keeps the rest. The
/// clusters cut the text into pieces, so empty text, which has no cluster,
/// comes back as it is.
pub fn capitalize_first_letter(input: &str) -> (out: String)
    ensures
        out@ == capitalized(input@),
        cuts(grapheme_clusters(input@), input@),
        input@.len() == 0 ==> out@.len() == 0,
{
    let clusters = graphemes(input);
    if clusters.len() == 0 {
        return input.to_owned();
    }
    let ghost parts = clusters.deep_view();
    let mut out = to_uppercase(clusters[0].as_str());
    let mut i: usize = 1;
    while i < clusters.len()
        invariant
            1 <= i <= clusters.len(),
            parts == clusters.deep_view(),
            out@ + parts.skip(i as int).flatten() == uppercase(parts[0]) + parts.skip(1).flatten(),
        decreases clusters.len() - i,
    {
        proof {
            let rest = parts.skip(i as int);
            assert(rest.drop_first() =~= parts.skip(i as int + 1));
        }
        out.append(clusters[i].as_str());
        i += 1;
    }
    out
}

/// Normalises ranked terms into keywords, keeping their order.
pub fn post_proc_keywords(input: Vec<String>) -> (out: Vec<String>)
    ensures
        out.deep_view() == post_processed(input.deep_view()),
{
    let mut out: Vec<String> = Vec::new();
    let ghost terms = input.deep_view();
    let mut i: usize = 0;
    while i < input.len()
        invariant
            i <= input.len(),
            terms == input.deep_view(),
            out.deep_view() == post_processed(terms.take(i as int)),
        decreases input.len() - i,
    {
        let t = trim(input[i].as_str());
        proof {
            let upto = terms.take(i as int + 1);
            assert(upto.drop_last() =~= terms.take(i as int));
        }
        if parses_as_number(t) {
            if t.unicode_len() == 4 {
                out.push(t.to_owned());
            }
        } else if graphemes(t).len() >= 3 {
            out.push(capitalize_first_letter(t));
        }
        i += 1;
    }
    assert(terms.take(i as int) =~= terms);
    out
}

/// Every term is judged on its own and the keywords keep the order of the
/// terms: the keywords of two lists put end to end are the keywords of the
/// first followed by those of the second.
pub proof fn lemma_post_processed_concat(a: Seq<Seq<char>>, b: Seq<Seq<char>>)
    ensures
        post_processed(a + b) == post_processed(a) + post_processed(b),
    decreases b.len(),
{
    if b.len() > 0 {
        lemma_post_processed_concat(a, b.drop_last());
        assert((a + b).drop_last() =~= a + b.drop_last());
    }
}

/// There are never more keywords than terms.
pub proof fn lemma_post_processed_len(terms: Seq<Seq<char>>)
    ensures
        post_processed(terms).len() <= terms.len(),
    decreases terms.len(),
{
    if terms.len() > 0 {
        lemma_post_processed_len(terms.drop_last());
    }
}

/// The keywords of a single term.
pub proof fn lemma_post_processed_single(term: Seq<char>)
    ensures
        post_processed(seq![term]) == match keyword_of(term) {
            Some(keyword) => seq![keyword],
            None => Seq::empty(),
        },
{
    let one = seq![term];
    assert(post_processed(one.drop_last()) =~= Seq::<Seq<char>>::empty());
}

/// A term that is numeric once trimmed and is not four characters long leaves
/// no trace: the keywords are those of the list without it.
pub proof fn lemma_numeric_term_discarded(
    before: Seq<Seq<char>>,
    term: Seq<char>,
    after: Seq<Seq<char>>,
)
    requires
        is_numeric(trimmed(term)),
        trimmed(term).len() != 4,
    ensures
        post_processed(before + seq![term] + after) == post_processed(before + after),
{
    lemma_post_processed_single(term);
    lemma_post_processed_concat(before, seq![term]);
    lemma_post_processed_concat(before + seq![term], after);
    lemma_post_processed_concat(before, after);
}

/// A term that is numeric once trimmed and is four characters long is kept,
/// trimmed and otherwise as it stands, at its place.
pub proof fn lemma_numeric_year_kept(
    before: Seq<Seq<char>>,
    term: Seq<char>,
    after: Seq<Seq<char>>,
)
    requires
        is_numeric(trimmed(term)),
        trimmed(term).len() == 4,
    ensures
        post_processed(before + seq![term] + after) == post_processed(before).push(trimmed(term))
            + post_processed(after),
{
    lemma_post_processed_single(term);
    lemma_post_processed_concat(before, seq![term]);
    lemma_post_processed_concat(before + seq![term], after);
}

/// A term that is not numeric and has fewer than three user-perceived
/// characters once trimmed leaves no trace.
pub proof fn lemma_short_term_discarded(
    before: Seq<Seq<char>>,
    term: Seq<char>,
    after: Seq<Seq<char>>,
)
    requires
        !is_numeric(trimmed(term)),
        grapheme_clusters(trimmed(term)).len() < 3,
    ensures
        post_processed(before + seq![term] + after) == post_processed(before + after),
{
    lemma_post_processed_single(term);
    lemma_post_processed_concat(before, seq![term]);
    lemma_post_processed_concat(before + seq![term], after);
    lemma_post_processed_concat(before, after);
}

/// A term that is not numeric and has at least three user-perceived
/// characters once trimmed is kept, capitalised, at its place.
pub proof fn lemma_word_kept_capitalized(
    before: Seq<Seq<char>>,
    term: Seq<char>,
    after: Seq<Seq<char>>,
)
    requires
        !is_numeric(trimmed(term)),
        grapheme_clusters(trimmed(term)).len() >= 3,
    ensures
        post_processed(before + seq![term] + after) == post_processed(before).push(
            capitalized(trimmed(term)),
        ) + post_processed(after),
{
    lemma_post_processed_single(term);
    lemma_post_processed_concat(before, seq![term]);
    lemma_post_processed_concat(before + seq![term], after);
}

} // verus!
