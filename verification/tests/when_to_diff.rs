use std::sync::mpsc;

use text_diff::when_to_diff::{
    apply_big_delete, apply_big_insert, apply_replace, apply_single_delete, apply_single_insert,
    char_at, char_to_byte_index, insert_char, insert_str, remove_char, remove_range, TimerAction,
    WhenToDiff, WhenToDiffEvent,
};
use text_diff::when_to_diff_timer::{DiffTimer, Signal};

#[test]
fn char_helpers_count_characters() {
    assert_eq!(char_at("añb", 1), Some('ñ'));
    assert_eq!(char_at("añb", 3), None);
    assert_eq!(char_to_byte_index("añb", 0), 0);
    assert_eq!(char_to_byte_index("añb", 2), 3);
    assert_eq!(char_to_byte_index("añb", 9), 4);
    assert_eq!(char_to_byte_index("a€😀b", 3), 8);
}

#[test]
fn inserts_and_removals_by_character_position() {
    let mut s = "añb".to_string();
    insert_char(&mut s, 2, 'x');
    assert_eq!(s, "añxb");
    insert_char(&mut s, 99, '!');
    assert_eq!(s, "añxb!");
    insert_str(&mut s, 0, "€€");
    assert_eq!(s, "€€añxb!");
    remove_char(&mut s, 1);
    assert_eq!(s, "€añxb!");
    remove_char(&mut s, 42);
    assert_eq!(s, "€añxb!");
    remove_range(&mut s, 1, 3);
    assert_eq!(s, "€xb!");
    remove_range(&mut s, 2, 100);
    assert_eq!(s, "€x");
}

#[test]
fn single_edits_choose_the_timer_action() {
    let mut s = "ab".to_string();
    assert_eq!(apply_single_insert(&mut s, 1, " "), TimerAction::FireAndClear);
    assert_eq!(s, "a b");
    assert_eq!(apply_single_insert(&mut s, 3, "c"), TimerAction::Edit);
    assert_eq!(s, "a bc");
    assert_eq!(apply_single_delete(&mut s, 1), TimerAction::FireAndClear);
    assert_eq!(s, "abc");
    assert_eq!(apply_single_delete(&mut s, 0), TimerAction::Edit);
    assert_eq!(s, "bc");
    assert_eq!(apply_single_delete(&mut s, 7), TimerAction::Edit);
    assert_eq!(s, "bc");
    // an empty letter puts in a NUL character
    assert_eq!(apply_single_insert(&mut s, 0, ""), TimerAction::Edit);
    assert_eq!(s, "\0bc");
}

#[test]
fn big_edits_fire_and_reset() {
    let mut s = "hello".to_string();
    assert_eq!(apply_big_insert(&mut s, 5, " world"), TimerAction::FireAndReset);
    assert_eq!(s, "hello world");
    assert_eq!(apply_big_delete(&mut s, 0, 6), TimerAction::FireAndReset);
    assert_eq!(s, "world");
    assert_eq!(apply_replace(&mut s, 0, 1, "W"), TimerAction::FireAndReset);
    assert_eq!(s, "World");
}

fn drain(rx: &mpsc::Receiver<Signal>) -> Vec<Signal> {
    rx.try_iter().collect()
}

#[test]
fn notify_edit_applies_the_edit_and_signals_the_timer() {
    let (tx, rx) = mpsc::channel();
    let mut w = WhenToDiff::with_timer(DiffTimer::from_sender(tx), "ab".to_string());
    w.notify_edit(WhenToDiffEvent::SingleInsert { position: 2, letter: "c".to_string() });
    w.notify_edit(WhenToDiffEvent::SingleInsert { position: 3, letter: " ".to_string() });
    w.notify_edit(WhenToDiffEvent::BigInsert { position: 4, text: "xyz".to_string() });
    w.notify_edit(WhenToDiffEvent::BigDelete { start: 0, end: 1 });
    w.notify_edit(WhenToDiffEvent::Replace { start: 0, end: 2, text: "Q".to_string() });
    w.notify_edit(WhenToDiffEvent::SingleDelete { position: 1 });
    assert_eq!(
        drain(&rx),
        vec![
            Signal::Reset,
            Signal::FireAndClear,
            Signal::FireAndReset,
            Signal::FireAndReset,
            Signal::FireAndReset,
            Signal::FireAndClear,
        ]
    );
    w.shutdown();
    assert_eq!(drain(&rx), vec![Signal::Shutdown]);
}

#[test]
fn typing_then_deleting_restores_the_text() {
    let mut s = "abc".to_string();
    apply_single_insert(&mut s, 1, "x");
    apply_single_delete(&mut s, 1);
    assert_eq!(s, "abc");
    apply_big_insert(&mut s, 3, "def");
    apply_big_delete(&mut s, 3, 6);
    assert_eq!(s, "abc");
    apply_replace(&mut s, 1, 2, "b");
    assert_eq!(s, "abc");
}

#[test]
fn timer_handle_sends_each_signal() {
    let (tx, rx) = mpsc::channel();
    let mut t = DiffTimer::from_sender(tx);
    t.reset();
    t.cancel();
    t.fire_and_reset();
    t.fire_and_clear();
    assert_eq!(
        drain(&rx),
        vec![Signal::Reset, Signal::Cancel, Signal::FireAndReset, Signal::FireAndClear]
    );
}

#[test]
fn sending_after_the_loop_is_gone_does_not_panic() {
    let (tx, rx) = mpsc::channel();
    drop(rx);
    let mut t = DiffTimer::from_sender(tx);
    t.reset();
}
