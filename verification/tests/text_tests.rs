use everlong::text::contains_str;
use everlong::text::find_str;
use everlong::text::replace_all_str;

#[test]
fn finds_first_occurrence() {
    assert_eq!(find_str("abcabc", "ca"), Some(2));
    assert_eq!(find_str("abcabc", "abc"), Some(0));
    assert_eq!(find_str("abcabc", "x"), None);
}

#[test]
fn pattern_longer_than_text_is_absent() {
    assert_eq!(find_str("ab", "abc"), None);
    assert!(!contains_str("", "a"));
}

#[test]
fn contains_reports_any_occurrence() {
    assert!(contains_str("hooks.slack.com", "slack.com"));
    assert!(!contains_str("discord.com", "slack.com"));
}

#[test]
fn replaces_left_to_right_without_overlap() {
    assert_eq!(replace_all_str("aaa", "aa", "b"), "ba");
}

#[test]
fn replaces_all_disjoint_occurrences() {
    assert_eq!(replace_all_str("x.y.z", ".", "--"), "x--y--z");
}

#[test]
fn replacement_may_shrink_or_erase() {
    assert_eq!(replace_all_str("remove: $X$X", "$X", ""), "remove: ");
}

#[test]
fn absent_pattern_leaves_text_unchanged() {
    assert_eq!(replace_all_str("unchanged", "$CMD", "zzz"), "unchanged");
}

#[test]
fn multibyte_characters_are_preserved() {
    assert_eq!(replace_all_str("héllo $CMD ○", "$CMD", "wörld"), "héllo wörld ○");
}
