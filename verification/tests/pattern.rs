use bookfetch::assets::{IMG_PATTERN, SHADE_PATTERN};
use bookfetch::crawl::BOOK_PATTERN;
use bookfetch::errors::ParseError;
use bookfetch::metadata::{META_PATTERN, PAGE_PATTERN};
use bookfetch::navigate::{ACTION_PATTERN, INPUT_PATTERN};
use bookfetch::pattern::{group, group_str, search};

fn some(texts: &[Option<&str>]) -> Vec<Option<String>> {
    texts.iter().map(|t| t.map(|s| s.to_string())).collect()
}

#[test]
fn search_lists_matches_leftmost_first() {
    let found = search(r"(\d+)-(\d+)", "1-2, 30-40 and 5-6").unwrap();
    assert_eq!(
        found,
        vec![
            some(&[Some("1-2"), Some("1"), Some("2")]),
            some(&[Some("30-40"), Some("30"), Some("40")]),
            some(&[Some("5-6"), Some("5"), Some("6")]),
        ]
    );
}

#[test]
fn search_does_not_hand_back_the_haystack() {
    let found = search("b", "abc").unwrap();
    assert_eq!(found, vec![some(&[Some("b")])]);
    assert_eq!(search("x", "abc"), Ok(Vec::new()));
    assert_eq!(search("x", ""), Ok(Vec::new()));
}

#[test]
fn matches_do_not_overlap() {
    let found = search("aa", "aaaaa").unwrap();
    assert_eq!(found.len(), 2);
}

#[test]
fn a_group_that_takes_no_part_is_none() {
    let found = search("a(b)?(c)?", "ab ac a").unwrap();
    assert_eq!(
        found,
        vec![
            some(&[Some("ab"), Some("b"), None]),
            some(&[Some("ac"), None, Some("c")]),
            some(&[Some("a"), None, None]),
        ]
    );
    assert_eq!(group(&found[0], 1), "b");
    assert_eq!(group(&found[0], 2), "");
    assert_eq!(group(&found[0], 3), "");
    assert_eq!(group_str(&found[1], 0), "ac");
    assert_eq!(group_str(&found[1], 1), "");
    assert_eq!(group_str(&found[1], 2), "c");
}

#[test]
fn a_pattern_that_does_not_compile_is_refused() {
    assert_eq!(search("(", "abc"), Err(ParseError::BadPattern));
    assert_eq!(search(r"\", ""), Err(ParseError::BadPattern));
    assert_eq!(search("a{2,1}", "aa"), Err(ParseError::BadPattern));
}

#[test]
fn the_library_patterns_compile() {
    for pattern in [
        IMG_PATTERN,
        SHADE_PATTERN,
        BOOK_PATTERN,
        META_PATTERN,
        PAGE_PATTERN,
        ACTION_PATTERN,
        INPUT_PATTERN,
    ] {
        assert!(search(pattern, "").is_ok());
    }
}
