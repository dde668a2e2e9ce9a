use fastgpt::citations::{display_output, strip_citations};

#[test]
fn markers_are_removed() {
    assert_eq!(
        strip_citations("Hello\u{3010}1\u{3011} world\u{3010}23\u{3011}."),
        "Hello world."
    );
}

#[test]
fn text_without_markers_is_unchanged() {
    assert_eq!(strip_citations("plain text, no markers"), "plain text, no markers");
    assert_eq!(strip_citations(""), "");
}

#[test]
fn only_whole_markers_are_removed() {
    // empty brackets, letters inside, or an unclosed bracket stay
    assert_eq!(strip_citations("a\u{3010}\u{3011}b"), "a\u{3010}\u{3011}b");
    assert_eq!(strip_citations("a\u{3010}12x\u{3011}b"), "a\u{3010}12x\u{3011}b");
    assert_eq!(strip_citations("a\u{3010}12"), "a\u{3010}12");
}

#[test]
fn a_second_opening_bracket_restarts_the_scan() {
    assert_eq!(strip_citations("\u{3010}12\u{3010}3\u{3011}"), "\u{3010}12");
}

#[test]
fn marker_alone_strips_to_nothing() {
    assert_eq!(strip_citations("\u{3010}7\u{3011}"), "");
}

#[test]
fn display_output_strips_only_when_references_are_hidden() {
    let text = "result\u{3010}4\u{3011}";
    assert_eq!(display_output(text, true), text);
    assert_eq!(display_output(text, false), "result");
}
