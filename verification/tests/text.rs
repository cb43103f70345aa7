use wiki_rewriter::text::{contains, find, is_white_space, starts_with, str_eq, substr, trim};

#[test]
fn substr_cuts_between_byte_offsets() {
    assert_eq!(substr("hello world", 6, 11), Some("world"));
    assert_eq!(substr("hello world", 0, 0), Some(""));
    assert_eq!(substr("hello world", 11, 11), Some(""));
    assert_eq!(substr("héllo", 1, 3), Some("é"));
}

#[test]
fn substr_refuses_what_is_no_span() {
    assert_eq!(substr("hello", 3, 2), None);
    assert_eq!(substr("hello", 0, 6), None);
    assert_eq!(substr("hello", 6, 6), None);
    assert_eq!(substr("héllo", 0, 2), None);
    assert_eq!(substr("héllo", 2, 4), None);
}

#[test]
fn str_eq_compares_characters() {
    assert!(str_eq("", ""));
    assert!(str_eq("clr", "clr"));
    assert!(!str_eq("clr", "color"));
    assert!(!str_eq("clr", "clR"));
    assert!(!str_eq("clr", "cl"));
    assert!(str_eq("naïve", "naïve"));
}

#[test]
fn find_gives_the_first_occurrence() {
    assert_eq!(find("abcabc", "bc"), Some(1));
    assert_eq!(find("abcabc", "abc"), Some(0));
    assert_eq!(find("abcabc", "c"), Some(2));
    assert_eq!(find("abcabc", "cab"), Some(2));
    assert_eq!(find("abcabc", "abcabc"), Some(0));
    assert_eq!(find("héllo wörld", "wö"), Some(7));
}

#[test]
fn find_gives_nothing_where_the_pattern_is_missing() {
    assert_eq!(find("abcabc", "d"), None);
    assert_eq!(find("abcabc", "abcabca"), None);
    assert_eq!(find("", "a"), None);
    assert_eq!(find("abc", "ca"), None);
}

#[test]
fn find_meets_the_empty_pattern_at_the_start() {
    assert_eq!(find("abc", ""), Some(0));
    assert_eq!(find("", ""), Some(0));
}

#[test]
fn find_agrees_with_std() {
    let hay = "aaabaaabaaaab ab  aab";
    for needle in ["a", "ab", "aab", "aaab", "aaaab", "b ", "  ", "ba", "x", "baaaab ab  aab"] {
        assert_eq!(find(hay, needle), hay.find(needle));
        assert_eq!(contains(hay, needle), hay.contains(needle));
    }
}

#[test]
fn contains_says_whether_the_pattern_occurs() {
    assert!(contains("some FOO here", "FOO"));
    assert!(!contains("some foo here", "FOO"));
    assert!(contains("anything", ""));
}

#[test]
fn starts_with_looks_at_the_beginning_only() {
    assert!(starts_with("GGST/Sol", "GGST/"));
    assert!(!starts_with("XGGST/Sol", "GGST/"));
    assert!(!starts_with("GGS", "GGST/"));
    assert!(starts_with("GGST/", "GGST/"));
    assert!(starts_with("abc", ""));
}

#[test]
fn trim_takes_the_white_space_around_a_text_away() {
    assert_eq!(trim("  Some description.\n"), "Some description.");
    assert_eq!(trim("a"), "a");
    assert_eq!(trim(" a b "), "a b");
    assert_eq!(trim("\t\r\n x \u{a0}\u{3000}"), "x");
    assert_eq!(trim("no space"), "no space");
}

#[test]
fn trim_of_white_space_is_empty() {
    assert_eq!(trim(""), "");
    assert_eq!(trim(" "), "");
    assert_eq!(trim(" \n\t "), "");
}

#[test]
fn trim_agrees_with_std() {
    for s in ["", " ", "a", " a", "a ", "  é  ", "\n|combo = x\n", " a  b  c ", "\u{2003}x"] {
        assert_eq!(trim(s), s.trim());
    }
}

#[test]
fn white_space_is_what_std_takes_for_it() {
    for code in 0..=0x10ffff_u32 {
        if let Some(c) = char::from_u32(code) {
            assert_eq!(is_white_space(c), c.is_whitespace(), "{:x}", code);
        }
    }
}

#[test]
fn white_space_by_name() {
    for c in [' ', '\t', '\n', '\r', '\u{b}', '\u{c}', '\u{85}', '\u{a0}', '\u{2003}', '\u{3000}'] {
        assert!(is_white_space(c));
    }
    for c in ['a', '0', '_', '\u{0}', '\u{200b}', '\u{feff}', '\u{8}', '\u{e}'] {
        assert!(!is_white_space(c));
    }
}
