use text_diff::typing::{
    flush, format_diff, is_deferred_edit, is_deferred_given, on_input, push_decimal,
    TimeoutAction, TypingSnapshot, WritingStatus,
};

#[test]
fn describes_inserts_deletes_and_replaces() {
    assert_eq!(format_diff("abc", "abXc", 2), "Inserted 'X' at position 2 in box 2");
    assert_eq!(format_diff("abc", "ac", 0), "Deleted 'b' at position 1 in box 0");
    assert_eq!(format_diff("cat", "cut", 13), "Replaced 'a' with 'u' at position 1 in box 13");
    assert_eq!(format_diff("same", "same", 4), "");
}

#[test]
fn repeated_letters_are_not_double_counted() {
    // the common suffix may not reach into the common prefix
    assert_eq!(format_diff("aa", "aaa", 0), "Inserted 'a' at position 2 in box 0");
    assert_eq!(format_diff("aaa", "aa", 1), "Deleted 'a' at position 2 in box 1");
}

#[test]
fn decimal_numbers() {
    let mut s = String::new();
    push_decimal(&mut s, 0);
    s.push(',');
    push_decimal(&mut s, 1203);
    s.push(',');
    push_decimal(&mut s, usize::MAX);
    assert_eq!(s, format!("0,1203,{}", usize::MAX));
}

#[test]
fn deferred_keystrokes() {
    assert!(is_deferred_edit("insertText", Some("a"), "x", "xa"));
    assert!(is_deferred_edit("insertText", Some("ß"), "x", "xß"));
    assert!(!is_deferred_edit("insertText", Some("1"), "x", "x1"));
    assert!(!is_deferred_edit("insertText", Some(" "), "x", "x "));
    assert!(!is_deferred_edit("insertText", Some("ab"), "x", "xab"));
    assert!(!is_deferred_edit("insertText", None, "x", "x"));
    assert!(is_deferred_edit("deleteContentBackward", None, "abc", "ab"));
    assert!(is_deferred_edit("deleteContentForward", None, "abc", "bc"));
    assert!(!is_deferred_edit("deleteContentBackward", None, "abc", "a"));
    assert!(!is_deferred_edit("insertFromPaste", Some("a"), "", "a"));
    assert!(is_deferred_given("insertText", Some("7"), "", "7", true));
}

#[test]
fn a_run_of_keystrokes_reports_from_its_start() {
    let idle = WritingStatus::Idle;
    let o1 = on_input(&idle, "ab", "abc", true, 3);
    assert!(o1.report.is_none());
    assert_eq!(o1.timeout, TimeoutAction::Restart);
    let o2 = on_input(&o1.status, "abc", "abcd", true, 3);
    assert_eq!(
        o2.status,
        WritingStatus::Typing(TypingSnapshot { old_value: "ab".to_string(), new_value: "abcd".to_string() })
    );
    let (status, report) = flush(&o2.status, 3);
    assert_eq!(status, WritingStatus::Idle);
    assert_eq!(report, Some("Inserted 'cd' at position 2 in box 3".to_string()));
    assert_eq!(flush(&WritingStatus::Idle, 3), (WritingStatus::Idle, None));
}

#[test]
fn an_immediate_keystroke_ends_the_run() {
    let typing = WritingStatus::Typing(TypingSnapshot {
        old_value: "ab".to_string(),
        new_value: "abc".to_string(),
    });
    let o = on_input(&typing, "abc", "abc ", false, 0);
    assert_eq!(o.status, WritingStatus::Idle);
    assert_eq!(o.timeout, TimeoutAction::Clear);
    assert_eq!(o.report, Some("Inserted 'c ' at position 2 in box 0".to_string()));
}
