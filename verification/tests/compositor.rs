use wiki_rewriter::edit::{apply_edits, Edit};
use wiki_rewriter::error::RewriteError;

fn edit(replacement: &str, start: usize, end: usize) -> Edit {
    Edit::new(replacement.to_string(), start, end)
}

#[test]
fn no_edits_give_the_text_back() {
    assert_eq!(apply_edits("", &vec![]), Ok(String::new()));
    assert_eq!(apply_edits("plain text", &vec![]), Ok("plain text".to_string()));
    assert_eq!(apply_edits("héllo → wörld\n", &vec![]), Ok("héllo → wörld\n".to_string()));
}

#[test]
fn one_edit_replaces_its_range_only() {
    let edits = vec![edit("XY", 2, 4)];
    assert_eq!(apply_edits("abcdef", &edits), Ok("abXYef".to_string()));
}

#[test]
fn overlapping_edits_are_refused() {
    let edits = vec![edit("X", 0, 5), edit("Y", 3, 8)];
    assert_eq!(apply_edits("0123456789", &edits), Err(RewriteError::OverlappingEdits));
    let edits = vec![edit("Y", 3, 8), edit("X", 0, 5)];
    assert_eq!(apply_edits("0123456789", &edits), Err(RewriteError::OverlappingEdits));
    let nested = vec![edit("X", 1, 9), edit("Y", 3, 4)];
    assert_eq!(apply_edits("0123456789", &nested), Err(RewriteError::OverlappingEdits));
}

#[test]
fn edits_that_touch_are_joined_without_a_gap() {
    let edits = vec![edit("X", 1, 3), edit("YY", 3, 5)];
    assert_eq!(apply_edits("abcdefg", &edits), Ok("aXYYfg".to_string()));
    let edits = vec![edit("YY", 3, 5), edit("X", 1, 3)];
    assert_eq!(apply_edits("abcdefg", &edits), Ok("aXYYfg".to_string()));
    let chain = vec![edit("3", 4, 6), edit("1", 0, 2), edit("2", 2, 4)];
    assert_eq!(apply_edits("aabbcc", &chain), Ok("123".to_string()));
}

#[test]
fn edits_with_a_byte_between_them_are_accepted() {
    let edits = vec![edit("X", 1, 3), edit("Y", 4, 5)];
    assert_eq!(apply_edits("abcdef", &edits), Ok("aXdYf".to_string()));
    let edits = vec![edit("Y", 4, 5), edit("X", 1, 3)];
    assert_eq!(apply_edits("abcdef", &edits), Ok("aXdYf".to_string()));
}

#[test]
fn the_order_of_the_edits_does_not_matter() {
    let text = ":one two three four five";
    let sorted = vec![edit("1", 1, 4), edit("2", 5, 8), edit("3", 9, 14), edit("5", 20, 24)];
    let shuffled = vec![edit("3", 9, 14), edit("5", 20, 24), edit("1", 1, 4), edit("2", 5, 8)];
    let reversed = vec![edit("5", 20, 24), edit("3", 9, 14), edit("2", 5, 8), edit("1", 1, 4)];
    let expected = Ok(":1 2 3 four 5".to_string());
    assert_eq!(apply_edits(text, &sorted), expected);
    assert_eq!(apply_edits(text, &shuffled), expected);
    assert_eq!(apply_edits(text, &reversed), expected);
}

#[test]
fn an_edit_may_start_where_the_text_starts() {
    assert_eq!(apply_edits("abcdefg", &vec![edit("Z", 0, 2)]), Ok("Zcdefg".to_string()));
    assert_eq!(apply_edits("abc", &vec![edit("X", 0, 1)]), Ok("Xbc".to_string()));
    assert_eq!(apply_edits("abc", &vec![edit("", 0, 3)]), Ok(String::new()));
    assert_eq!(apply_edits("abc", &vec![edit("X", 0, 0)]), Ok("Xabc".to_string()));
    let edits = vec![edit("Y", 2, 3), edit("X", 0, 1)];
    assert_eq!(apply_edits("abc", &edits), Ok("XbY".to_string()));
}

#[test]
fn an_edit_may_reach_the_end_of_the_text() {
    assert_eq!(apply_edits("abc", &vec![edit("X", 2, 3)]), Ok("abX".to_string()));
    assert_eq!(apply_edits("abc", &vec![edit("", 1, 3)]), Ok("a".to_string()));
}

#[test]
fn an_empty_range_inserts() {
    assert_eq!(apply_edits("abc", &vec![edit("-", 1, 1)]), Ok("a-bc".to_string()));
    assert_eq!(apply_edits("abc", &vec![edit("-", 3, 3)]), Ok("abc-".to_string()));
    let edits = vec![edit("-", 1, 1), edit("+", 2, 2)];
    assert_eq!(apply_edits("abc", &edits), Ok("a-b+c".to_string()));
}

#[test]
fn two_edits_with_the_same_range_are_refused() {
    let same = vec![edit("X", 2, 4), edit("X", 2, 4)];
    assert_eq!(apply_edits("abcdef", &same), Err(RewriteError::OverlappingEdits));
    let inserts = vec![edit("X", 2, 2), edit("Y", 2, 2)];
    assert_eq!(apply_edits("abcdef", &inserts), Err(RewriteError::OverlappingEdits));
    let inserts = vec![edit("Y", 2, 2), edit("Z", 1, 2), edit("X", 2, 2)];
    assert_eq!(apply_edits("abcdef", &inserts), Err(RewriteError::OverlappingEdits));
}

#[test]
fn an_empty_range_may_stand_where_another_range_starts() {
    let expected = Ok("abXYef".to_string());
    assert_eq!(apply_edits("abcdef", &vec![edit("X", 2, 2), edit("Y", 2, 4)]), expected);
    assert_eq!(apply_edits("abcdef", &vec![edit("Y", 2, 4), edit("X", 2, 2)]), expected);
    let expected = Ok("abYXef".to_string());
    assert_eq!(apply_edits("abcdef", &vec![edit("X", 4, 4), edit("Y", 2, 4)]), expected);
    assert_eq!(apply_edits("abcdef", &vec![edit("Y", 2, 4), edit("X", 4, 4)]), expected);
}

#[test]
fn two_edits_with_the_same_start_overlap_unless_one_is_empty() {
    let edits = vec![edit("X", 2, 3), edit("Y", 2, 4)];
    assert_eq!(apply_edits("abcdef", &edits), Err(RewriteError::OverlappingEdits));
}

#[test]
fn a_range_outside_the_text_is_refused() {
    assert_eq!(apply_edits("abc", &vec![edit("X", 2, 4)]), Err(RewriteError::BadSpan));
    assert_eq!(apply_edits("abc", &vec![edit("X", 4, 4)]), Err(RewriteError::BadSpan));
    assert_eq!(apply_edits("abc", &vec![edit("X", 2, 1)]), Err(RewriteError::BadSpan));
    assert_eq!(apply_edits("", &vec![edit("X", 0, 1)]), Err(RewriteError::BadSpan));
}

#[test]
fn a_range_that_cuts_a_character_is_refused() {
    // 'é' takes the bytes 1 and 2
    assert_eq!(apply_edits("héllo", &vec![edit("e", 1, 3)]), Ok("hello".to_string()));
    assert_eq!(apply_edits("héllo", &vec![edit("e", 1, 2)]), Err(RewriteError::BadSpan));
    assert_eq!(apply_edits("héllo", &vec![edit("e", 2, 3)]), Err(RewriteError::BadSpan));
}

#[test]
fn a_bad_range_counts_before_an_overlap() {
    let edits = vec![edit("X", 0, 2), edit("Y", 1, 9)];
    assert_eq!(apply_edits("abc", &edits), Err(RewriteError::BadSpan));
}

#[test]
fn bytes_outside_the_ranges_stay_as_they_are() {
    let text = "α{{clr|1|5P}}β and γ{{clr|2|2K}}δ";
    let first = text.find("1").unwrap();
    let second = text.find("|2|").unwrap() + 1;
    let edits = vec![edit("K", second, second + 1), edit("P", first, first + 1)];
    let out = apply_edits(text, &edits).unwrap();
    assert_eq!(out, "α{{clr|P|5P}}β and γ{{clr|K|2K}}δ");
    assert_eq!(out.as_bytes()[..first], text.as_bytes()[..first]);
    assert_eq!(out.as_bytes()[first + 1..second], text.as_bytes()[first + 1..second]);
    assert_eq!(out.as_bytes()[second + 1..], text.as_bytes()[second + 1..]);
}

#[test]
fn a_replacement_may_be_longer_than_its_range() {
    let edits = vec![edit("a much longer text", 4, 5), edit("", 1, 2)];
    assert_eq!(apply_edits("ab, c.", &edits), Ok("a, a much longer text.".to_string()));
}
