use content_pipeline::post::inline::{scan, weave_text};
use content_pipeline::text::{chars_of, join3, remove_all, same_text, space, string_of, trim};

#[test]
fn chars_and_back() {
    let chars = chars_of("a\u{e9}\u{2603}z");
    assert_eq!(chars, vec!['a', '\u{e9}', '\u{2603}', 'z']);
    assert_eq!(string_of(&chars, 1, 3), "\u{e9}\u{2603}");
    assert_eq!(string_of(&chars, 0, 4), "a\u{e9}\u{2603}z");
    assert_eq!(string_of(&chars, 2, 2), "");
}

#[test]
fn same_text_compares_characters() {
    assert!(same_text("katex", "katex"));
    assert!(!same_text("katex", "kate"));
    assert!(!same_text("kate", "katex"));
    assert!(!same_text("katex", "kateX"));
    assert!(same_text("", ""));
}

#[test]
fn trim_takes_white_space_from_both_ends() {
    assert_eq!(trim("  a b \t\r\n"), "a b");
    assert_eq!(trim("\u{a0}\u{2003}x\u{3000}\u{85}"), "x");
    assert_eq!(trim(" \n "), "");
    assert_eq!(trim(""), "");
    assert_eq!(trim("x"), "x");
    assert_eq!(trim("\u{200b}x"), "\u{200b}x");
}

#[test]
fn space_is_the_unicode_property() {
    for c in ['\t', '\n', '\u{b}', '\u{c}', '\r', ' ', '\u{85}', '\u{a0}', '\u{1680}', '\u{2000}',
        '\u{200a}', '\u{2028}', '\u{2029}', '\u{202f}', '\u{205f}', '\u{3000}']
    {
        assert!(space(c));
        assert!(c.is_whitespace());
    }
    for c in ['a', '\u{8}', '\u{e}', '\u{1f}', '\u{200b}', '\u{feff}', '\u{180e}'] {
        assert!(!space(c));
        assert!(!c.is_whitespace());
    }
}

#[test]
fn remove_all_goes_from_left_to_right() {
    assert_eq!(remove_all("aXbXc", "X"), "abc");
    assert_eq!(remove_all("aaa", "aa"), "a");
    assert_eq!(remove_all("abab", "ab"), "");
    assert_eq!(remove_all("abc", ""), "abc");
    assert_eq!(remove_all("abc", "abcd"), "abc");
    assert_eq!(remove_all("", "a"), "");
    assert_eq!("aaa".replace("aa", ""), "a");
}

#[test]
fn join3_concatenates() {
    assert_eq!(join3("/posts/", "slug", "/"), "/posts/slug/");
    assert_eq!(join3("", "", ""), "");
}

#[test]
fn scan_cuts_text_at_inline_mathematics() {
    let cut = scan("a $x$ b \\(y z\\) c");
    assert_eq!(cut.gaps, vec!["a ", " b ", " c"]);
    assert_eq!(cut.spans.len(), 2);
    assert_eq!(cut.spans[0].whole, "$x$");
    assert_eq!(cut.spans[0].inner, "x");
    assert_eq!(cut.spans[1].whole, "\\(y z\\)");
    assert_eq!(cut.spans[1].inner, "y z");
}

#[test]
fn scan_takes_the_shortest_match() {
    let cut = scan("$a$b$c$");
    assert_eq!(cut.gaps, vec!["", "b", ""]);
    assert_eq!(cut.spans[0].whole, "$a$");
    assert_eq!(cut.spans[1].whole, "$c$");
    let mixed = scan("\\(a$ and $$");
    assert_eq!(mixed.spans.len(), 2);
    assert_eq!(mixed.spans[0].whole, "\\(a$");
    assert_eq!(mixed.spans[0].inner, "a");
    assert_eq!(mixed.spans[1].whole, "$$");
    assert_eq!(mixed.spans[1].inner, "");
}

#[test]
fn scan_without_mathematics_is_one_gap() {
    let cut = scan("no math here, only 5$");
    assert_eq!(cut.gaps, vec!["no math here, only 5$"]);
    assert!(cut.spans.is_empty());
    let empty = scan("");
    assert_eq!(empty.gaps, vec![""]);
    assert!(empty.spans.is_empty());
}

#[test]
fn weaving_the_spans_back_gives_the_text() {
    let text = "a $x$ b \\(y\\)$z$";
    let cut = scan(text);
    let written: Vec<String> = cut.spans.iter().map(|s| s.whole.clone()).collect();
    assert_eq!(weave_text(&cut.gaps, &written), text);
}

#[test]
fn weave_sets_fills_between_gaps() {
    let gaps = vec!["a".to_string(), "b".to_string(), "c".to_string()];
    let fills = vec!["1".to_string(), "2".to_string()];
    assert_eq!(weave_text(&gaps, &fills), "a1b2c");
    assert_eq!(weave_text(&gaps, &Vec::new()), "a");
    assert_eq!(weave_text(&Vec::new(), &Vec::new()), "");
    assert_eq!(weave_text(&vec!["a".to_string()], &fills), "a12");
}
