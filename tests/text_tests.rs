use llm_gateway::text_cleanup::{
    is_whitespace, join_trimmed_lines, keep_non_blank_lines, strip_markdown,
};

#[test]
fn blank_lines_dropped_and_trimmed() {
    assert_eq!(keep_non_blank_lines("  a \n\n\t b\r\n  \n"), "a\nb");
    assert_eq!(keep_non_blank_lines(""), "");
    assert_eq!(keep_non_blank_lines("\n\n"), "");
    assert_eq!(keep_non_blank_lines("\u{3000}x\u{a0}"), "x");
}

#[test]
fn trailing_space_cut_then_whole_trimmed() {
    assert_eq!(join_trimmed_lines("x  \n y\t\n\n"), "x\n y");
    assert_eq!(join_trimmed_lines("\n\n  a\n"), "a");
    assert_eq!(join_trimmed_lines("a\r\nb"), "a\nb");
    assert_eq!(join_trimmed_lines(""), "");
}

#[test]
fn markdown_to_plain_text() {
    let md = "# Title\n![img](a.png)\n**bold** text\n- item\n1. first\n__x__\n\n   \n3.14 is pi\n* star";
    assert_eq!(strip_markdown(md), "Title\nbold text\nitem\nfirst\nx\n3.14 is pi\n star\n");
    assert_eq!(strip_markdown(""), "");
    assert_eq!(strip_markdown("### \n"), "");
    assert_eq!(strip_markdown("10. ten. eleven"), "ten. eleven\n");
}

#[test]
fn whitespace_matches_std() {
    for c in ['\t', '\n', '\u{b}', '\u{c}', '\r', ' ', '\u{85}', '\u{a0}', '\u{1680}', '\u{2000}',
              '\u{200a}', '\u{2028}', '\u{2029}', '\u{202f}', '\u{205f}', '\u{3000}', 'a', '\u{200b}', '_'] {
        assert_eq!(is_whitespace(c), c.is_whitespace(), "{:?}", c);
    }
}
