use keyword_index::markup::strip_xml_tags;

#[test]
fn strips_simple_tags() {
    assert_eq!(strip_xml_tags("<p>Hello</p>"), "Hello");
    assert_eq!(strip_xml_tags("a<b>c</b>d"), "acd");
    assert_eq!(strip_xml_tags("<a href=\"x\">link</a>"), "link");
}

#[test]
fn text_without_tags_is_unchanged() {
    assert_eq!(strip_xml_tags(""), "");
    assert_eq!(strip_xml_tags("plain text"), "plain text");
    assert_eq!(strip_xml_tags("a > b"), "a > b");
    assert_eq!(strip_xml_tags("a < b"), "a < b");
}

#[test]
fn empty_angle_brackets_are_no_tag() {
    assert_eq!(strip_xml_tags("<>"), "<>");
    assert_eq!(strip_xml_tags("a<>b"), "a<>b");
    assert_eq!(strip_xml_tags("<><b>"), "<>");
}

#[test]
fn unclosed_tag_is_kept() {
    assert_eq!(strip_xml_tags("a <b"), "a <b");
    assert_eq!(strip_xml_tags("<p>x</p> <tail"), "x <tail");
    assert_eq!(strip_xml_tags("<<<<"), "<<<<");
}

#[test]
fn tag_may_hold_opening_brackets_and_newlines() {
    assert_eq!(strip_xml_tags("x<a<b>y"), "xy");
    assert_eq!(strip_xml_tags("x<a\nb>y"), "xy");
    assert_eq!(strip_xml_tags("<<>"), "");
    assert_eq!(strip_xml_tags("<>>"), "<>>");
    assert_eq!(strip_xml_tags("<a>>"), ">");
}

#[test]
fn tags_with_wide_characters() {
    assert_eq!(strip_xml_tags("<\u{00e9}>caf\u{00e9}</\u{00e9}>"), "caf\u{00e9}");
    assert_eq!(strip_xml_tags("\u{4f60}<b>\u{597d}</b>"), "\u{4f60}\u{597d}");
}

#[test]
fn stripping_agrees_with_the_tag_pattern() {
    let pattern = regex::Regex::new(r"<[^>]+>").unwrap();
    let samples = [
        "", "<", ">", "<>", "><", "<a>", "<a", "a>", "<<a>>", "<a><b>", "<a>x<b>", "x<a>y<b>z",
        "<a b=\"c\">", "1 < 2 and 3 > 2", "<>a<>", "<><>", "<<", ">>", "<a<", "<a\n>", "<\n>",
        "<a>\n<b>", "a<b>c<d", "a<b>c<d>", "<!-- c -->", "<?xml version=\"1.0\"?><r/>",
        "<p>caf\u{00e9}</p>", "<\u{00e9}>", "\u{4f60}<\u{597d}>\u{4f60}", "< >", "<  ", " <x> ",
        "<x></x><y></y>", "text<br/>more<br/>", "<<<>>>", "<a>>b<", "<><a", "<>>a<b>",
    ];
    for sample in samples {
        assert_eq!(
            strip_xml_tags(sample),
            pattern.replace_all(sample, "").into_owned(),
            "disagreement on {:?}",
            sample
        );
    }
}
