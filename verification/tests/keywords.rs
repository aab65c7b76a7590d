use keyword_index::keywords::{capitalize_first_letter, post_proc_keywords};

fn strings(items: &[&str]) -> Vec<String> {
    items.iter().map(|s| s.to_string()).collect()
}

#[test]
fn capitalizes_first_letter() {
    assert_eq!(capitalize_first_letter("cat"), "Cat");
    assert_eq!(capitalize_first_letter("hello world"), "Hello world");
    assert_eq!(capitalize_first_letter("Already"), "Already");
}

#[test]
fn capitalize_keeps_empty_text() {
    assert_eq!(capitalize_first_letter(""), "");
}

#[test]
fn capitalize_leaves_the_rest_unchanged() {
    assert_eq!(capitalize_first_letter("cAT"), "CAT");
    assert_eq!(capitalize_first_letter("mcDonald"), "McDonald");
    assert_eq!(capitalize_first_letter("1abc"), "1abc");
}

#[test]
fn capitalize_handles_wide_characters() {
    assert_eq!(capitalize_first_letter("\u{00e9}cole"), "\u{00c9}cole");
    assert_eq!(capitalize_first_letter("\u{00df}eta"), "SSeta");
    // "e" followed by a combining acute accent is one user-perceived character.
    assert_eq!(capitalize_first_letter("e\u{0301}te"), "E\u{0301}te");
    assert_eq!(capitalize_first_letter("\u{4f60}\u{597d}\u{5417}"), "\u{4f60}\u{597d}\u{5417}");
}

#[test]
fn numeric_terms_are_kept_only_as_years() {
    assert_eq!(post_proc_keywords(strings(&["42"])), strings(&[]));
    assert_eq!(post_proc_keywords(strings(&["1999"])), strings(&["1999"]));
    assert_eq!(post_proc_keywords(strings(&["12345"])), strings(&[]));
    assert_eq!(post_proc_keywords(strings(&["3.14"])), strings(&["3.14"]));
    assert_eq!(post_proc_keywords(strings(&["1e10"])), strings(&["1e10"]));
    assert_eq!(post_proc_keywords(strings(&["inf"])), strings(&[]));
    assert_eq!(post_proc_keywords(strings(&["nan"])), strings(&[]));
    assert_eq!(post_proc_keywords(strings(&["-inf"])), strings(&["-inf"]));
}

#[test]
fn short_terms_are_discarded() {
    assert_eq!(post_proc_keywords(strings(&["ab"])), strings(&[]));
    assert_eq!(post_proc_keywords(strings(&["a"])), strings(&[]));
    assert_eq!(post_proc_keywords(strings(&[""])), strings(&[]));
    assert_eq!(post_proc_keywords(strings(&["   "])), strings(&[]));
    assert_eq!(post_proc_keywords(strings(&["cat"])), strings(&["Cat"]));
}

#[test]
fn length_is_counted_in_user_perceived_characters() {
    // Two clusters, though three code points and five bytes.
    assert_eq!(post_proc_keywords(strings(&["e\u{0301}t"])), strings(&[]));
    // Three clusters of three bytes each.
    assert_eq!(
        post_proc_keywords(strings(&["\u{4f60}\u{597d}\u{5417}"])),
        strings(&["\u{4f60}\u{597d}\u{5417}"])
    );
    assert_eq!(post_proc_keywords(strings(&["\u{4f60}\u{597d}"])), strings(&[]));
}

#[test]
fn capitalizing_may_give_a_word_that_reads_as_a_number() {
    // A dotless i is no ASCII letter, so the term is no number; its upper case is "I".
    assert_eq!(post_proc_keywords(strings(&["\u{0131}nf"])), strings(&["Inf"]));
}

fn listed_as_white_space(c: char) -> bool {
    matches!(
        c,
        '\u{0009}'..='\u{000D}'
            | '\u{0020}'
            | '\u{0085}'
            | '\u{00A0}'
            | '\u{1680}'
            | '\u{2000}'..='\u{200A}'
            | '\u{2028}'
            | '\u{2029}'
            | '\u{202F}'
            | '\u{205F}'
            | '\u{3000}'
    )
}

#[test]
fn trimming_takes_exactly_the_white_space_characters() {
    let year = strings(&["1999"]);
    let mut code: u32 = 0;
    while code <= 0x10ffff {
        if let Some(c) = char::from_u32(code) {
            let in_front = post_proc_keywords(vec![format!("{}1999", c)]) == year;
            let behind = post_proc_keywords(vec![format!("1999{}", c)]) == year;
            assert_eq!(in_front, listed_as_white_space(c), "in front: U+{:04X}", code);
            assert_eq!(behind, listed_as_white_space(c), "behind: U+{:04X}", code);
        }
        // Every character of the first planes, a sample of the others.
        code += if code < 0x3100 { 1 } else { 61 };
    }
}

#[test]
fn empty_text_capitalized_is_empty() {
    assert_eq!(capitalize_first_letter(""), "");
}

#[test]
fn terms_are_trimmed_first() {
    assert_eq!(post_proc_keywords(strings(&["  1999 "])), strings(&["1999"]));
    assert_eq!(post_proc_keywords(strings(&[" 42\t"])), strings(&[]));
    assert_eq!(post_proc_keywords(strings(&["\n cat \u{00a0}"])), strings(&["Cat"]));
    assert_eq!(post_proc_keywords(strings(&[" ab "])), strings(&[]));
}

#[test]
fn order_and_duplicates_are_kept() {
    let input = strings(&["zebra", "42", "apple", "zebra", "1999", "ab", "apple", "1999"]);
    assert_eq!(
        post_proc_keywords(input),
        strings(&["Zebra", "Apple", "Zebra", "1999", "Apple", "1999"])
    );
}

#[test]
fn no_terms_give_no_keywords() {
    assert_eq!(post_proc_keywords(Vec::new()), Vec::<String>::new());
}

#[test]
fn keywords_of_two_lists_put_end_to_end() {
    let a = strings(&["cat", "7", "2001"]);
    let b = strings(&["xy", "dog", " 2002"]);
    let mut both = a.clone();
    both.extend(b.clone());
    let mut expected = post_proc_keywords(a);
    expected.extend(post_proc_keywords(b));
    assert_eq!(post_proc_keywords(both), expected);
}

#[test]
fn never_more_keywords_than_terms() {
    let input = strings(&["one", "two", "3", "four", "55555", "six"]);
    let count = input.len();
    assert!(post_proc_keywords(input).len() <= count);
}
