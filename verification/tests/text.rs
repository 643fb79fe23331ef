use file_scanner::text::{contains_text, prefixed, text_eq};

#[test]
fn contains_text_finds_a_part_anywhere() {
    assert!(contains_text("file is locked", "locked"));
    assert!(contains_text("locked file", "locked"));
    assert!(contains_text("a locked file", "locked"));
    assert!(contains_text("locked", "locked"));
    assert!(!contains_text("locke", "locked"));
    assert!(!contains_text("lock ed", "locked"));
    assert!(!contains_text("", "locked"));
    assert!(!contains_text("LOCKED", "locked"));
    assert!(contains_text("resource in use", "in use"));
    assert!(!contains_text("inuse", "in use"));
}

#[test]
fn contains_text_agrees_with_the_standard_search() {
    let texts = ["", "a", "ab", "aab", "abab", "ababab", "b\u{e9}b\u{e9}", "\u{e9}", "xyz"];
    for h in texts {
        for n in texts {
            assert_eq!(contains_text(h, n), h.contains(n), "{:?} in {:?}", n, h);
        }
    }
}

#[test]
fn the_empty_text_is_part_of_every_text() {
    assert!(contains_text("", ""));
    assert!(contains_text("abc", ""));
}

#[test]
fn text_eq_compares_whole_texts() {
    assert!(text_eq("", ""));
    assert!(text_eq("pdf", "pdf"));
    assert!(!text_eq("pdf", "pdF"));
    assert!(!text_eq("pdf", "pd"));
    assert!(!text_eq("pd", "pdf"));
    assert!(text_eq("\u{e4}\u{f6}", "\u{e4}\u{f6}"));
    assert!(!text_eq("\u{e4}", "a"));
}

#[test]
fn prefixed_joins_beginning_and_text() {
    assert_eq!(prefixed("Path not found: ", "/x"), "Path not found: /x");
    assert_eq!(prefixed("", "x"), "x");
    assert_eq!(prefixed("x", ""), "x");
}
