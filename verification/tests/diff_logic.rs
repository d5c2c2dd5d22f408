use text_diff::diff_logic::{
    find_first_deviation, find_last_deviation, get_diff, get_longest_str_len,
    string_from_diff_result, DiffResult,
};

#[test]
fn test_string_from_diff_result_1() {
    let old_text = "abcdef";
    let position_to_start_from = 0;
    let amount = 1;
    let result = string_from_diff_result(old_text, position_to_start_from, amount);

    assert_eq!(result, "a");
}

#[test]
fn test_string_from_diff_result_2() {
    let old_text = "abcdef";
    let position_to_start_from = 3;
    let amount = 3;
    let result = string_from_diff_result(old_text, position_to_start_from, amount);

    assert_eq!(result, "def");
}

#[test]
fn test_find_first_deviation() {
    let old_text = "fruit";
    let new_text = "fruitywuity";
    let result = find_first_deviation(old_text, new_text);
    assert_eq!(result.position, 5);
}

#[test]
fn test_find_last_deviation() {
    let old_text = "fruit";
    let new_text = "fruitywuity";
    let result = find_last_deviation(old_text, new_text);
    assert_eq!(result.position, 11);
}

#[test]
fn get_diff_insert() {
    let old_text = "abcdef";
    let new_text = "abcdefgh";
    let result = get_diff(old_text, new_text);
    assert_eq!(result, DiffResult::Insert("gh".to_string(), 6));
}

#[test]
fn test_get_diff_delete() {
    let old_text = "abcdefgh";
    let new_text = "abcdef";
    let result = get_diff(old_text, new_text);
    assert_eq!(result, DiffResult::Delete("gh".to_string(), 6));
}

#[test]
fn test_get_diff_no_diff() {
    let old_text = "abcdef";
    let new_text = "abcdef";
    let result = get_diff(old_text, new_text);
    assert_eq!(result, DiffResult::NoDiff);
}

#[test]
fn test_get_longest_str_len() {
    let str1 = "abc";
    let str2 = "defgh";
    let result = get_longest_str_len(str1, str2);
    assert_eq!(result, 5);
}

#[test]
fn test_get_longest_str_len2() {
    let str1 = "defgh";
    let str2 = "blg";
    let result = get_longest_str_len(str1, str2);
    assert_eq!(result, 5);
}

#[test]
fn test_replace() {
    let before = "abc";
    let after = "zzz";
    let result = get_diff(before, after);
    let expected_result = DiffResult::Replace {
        old_text: "abc".to_string(),
        new_text: "zzz".to_string(),
        position: 0,
    };
    assert_eq!(result, expected_result);
}

// --- further cases ---

#[test]
fn identical_texts_are_reported_identical_at_zero() {
    let first = find_first_deviation("same", "same");
    assert!(first.identical_strings);
    assert_eq!(first.position, 0);
    let last = find_last_deviation("same", "same");
    assert!(last.identical_strings);
    assert_eq!(last.position, 0);
}

#[test]
fn insert_in_the_middle_is_located() {
    assert_eq!(get_diff("ab", "aXb"), DiffResult::Insert("X".to_string(), 1));
}

#[test]
fn delete_in_the_middle_is_located() {
    assert_eq!(get_diff("hello world", "helloworld"), DiffResult::Delete(" ".to_string(), 5));
}

#[test]
fn replace_in_the_middle_keeps_only_the_changed_span() {
    assert_eq!(
        get_diff("cat sat", "cut sat"),
        DiffResult::Replace { old_text: "a".to_string(), new_text: "u".to_string(), position: 1 }
    );
}

#[test]
fn positions_count_characters_not_bytes() {
    assert_eq!(get_diff("äö", "äöü"), DiffResult::Insert("ü".to_string(), 2));
    assert_eq!(find_first_deviation("日本語", "日本人").position, 2);
}

#[test]
fn window_past_the_end_is_empty_or_cut() {
    assert_eq!(string_from_diff_result("abc", 5, 2), "");
    assert_eq!(string_from_diff_result("abc", 1, 10), "bc");
    assert_eq!(string_from_diff_result("abc", 0, 0), "");
}

#[test]
fn diff_roundtrip_on_a_single_insert() {
    // prefix "ab" and suffix "cd" cover the old text exactly
    let old = "abcd";
    let new = "abXYcd";
    let d = get_diff(old, new);
    assert_eq!(d, DiffResult::Insert("XY".to_string(), 2));
    let mut rebuilt: String = old.chars().take(2).collect();
    rebuilt.push_str("XY");
    rebuilt.extend(old.chars().skip(2));
    assert_eq!(rebuilt, new);
}

#[test]
fn overlap_of_prefix_and_suffix_is_detected() {
    // "aa" -> "aaa": prefix 2 and suffix 2 overlap; the diff is not defined
    assert!(!text_diff::diff_logic::can_diff("aa", "aaa"));
    assert!(text_diff::diff_logic::can_diff("ab", "aXb"));
    assert!(text_diff::diff_logic::can_diff("same", "same"));
}
