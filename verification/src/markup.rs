//! Removal of markup tags from text.
//!
//! A tag is a `<`, then one or more characters other than `>`, then a `>`.
//! Tags are found from left to right and do not overlap; everything else is
//! kept as it stands. The two characters `<>` are no tag.

use vstd::prelude::*;
use crate::outside::string_from_chars;
use crate::text::chars_of;

verus! {

/// The position of the first `>` at or after `from`, or the length of `s`
/// where there is none.
pub open spec fn closing_at(s: Seq<char>, from: int) -> int
    decreases s.len() - from,
{
    if 0 <= from < s.len() && s[from] != '>' {
        closing_at(s, from + 1)
    } else {
        from
    }
}

/// Whether a tag starts at position `at` of `s`.
pub open spec fn tag_starts_at(s: Seq<char>, at: int) -> bool {
    &&& 0 <= at
    &&& at + 1 < s.len()
    &&& s[at] == '<'
    &&& s[at + 1] != '>'
    &&& closing_at(s, at + 1) < s.len()
}

/// What is left of `s` from position `from` on when its tags are taken out.
pub open spec fn without_tags_from(s: Seq<char>, from: int) -> Seq<char>
    decreases s.len() - from,
    via without_tags_from_decreases
{
    if from < 0 || from >= s.len() {
        Seq::empty()
    } else if tag_starts_at(s, from) {
        without_tags_from(s, closing_at(s, from + 1) + 1)
    } else {
        seq![s[from]] + without_tags_from(s, from + 1)
    }
}

#[via_fn]
proof fn without_tags_from_decreases(s: Seq<char>, from: int) {
    if 0 <= from < s.len() && tag_starts_at(s, from) {
        lemma_closing_at(s, from + 1);
    }
}

/// `s` without its tags.
pub open spec fn without_tags(s: Seq<char>) -> Seq<char> {
    without_tags_from(s, 0)
}

/// `closing_at(s, from)` lies between `from` and the end of `s`; no `>` stands
/// before it, and where it is inside `s` a `>` stands at it.
pub proof fn lemma_closing_at(s: Seq<char>, from: int)
    requires
        0 <= from <= s.len(),
    ensures
        from <= closing_at(s, from) <= s.len(),
        forall|i: int| from <= i < closing_at(s, from) ==> #[trigger] s[i] != '>',
        closing_at(s, from) < s.len() ==> s[closing_at(s, from)] == '>',
    decreases s.len() - from,
{
    if from < s.len() && s[from] != '>' {
        lemma_closing_at(s, from + 1);
    }
}

/// Once no `>` follows a position, none follows any later position.
proof fn lemma_no_closing_later(s: Seq<char>, from: int, later: int)
    requires
        0 <= from <= later <= s.len(),
        closing_at(s, from) == s.len(),
    ensures
        closing_at(s, later) == s.len(),
{
    lemma_closing_at(s, from);
    lemma_closing_at(s, later);
}

fn find_closing(s: &Vec<char>, from: usize) -> (out: usize)
    requires
        from <= s.len(),
    ensures
        out == closing_at(s@, from as int),
        from <= out <= s.len(),
{
    let mut i: usize = from;
    while i < s.len() && s[i] != '>'
        invariant
            from <= i <= s.len(),
            closing_at(s@, from as int) == closing_at(s@, i as int),
        decreases s.len() - i,
    {
        i += 1;
    }
    i
}

/// `input` with every tag removed.
pub fn strip_xml_tags(input: &str) -> (out: String)
    ensures
        out@ == without_tags(input@),
{
    let s = chars_of(input);
    let mut kept: Vec<char> = Vec::new();
    let mut i: usize = 0;
    // Set once a search for `>` has run to the end: no tag can follow.
    let mut exhausted = false;
    while i < s.len()
        invariant
            i <= s.len(),
            s@ == input@,
            exhausted ==> closing_at(s@, i as int) == s.len(),
            kept@ + without_tags_from(s@, i as int) == without_tags(s@),
        decreases s.len() - i,
    {
        let opens = !exhausted && s[i] == '<' && i + 1 < s.len() && s[i + 1] != '>';
        let close = if opens {
            find_closing(&s, i + 1)
        } else {
            s.len()
        };
        if close < s.len() {
            i = close + 1;
        } else {
            proof {
                if exhausted {
                    lemma_no_closing_later(s@, i as int, i as int + 1);
                }
            }
            exhausted = exhausted || opens;
            kept.push(s[i]);
            i += 1;
        }
    }
    string_from_chars(&kept)
}

} // verus!
