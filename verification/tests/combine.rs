use text_diff::combine::{combine_getdiff_results, item_ahead_in_bounds, makes_sense_to_combine};
use text_diff::diff_logic::DiffResult;

fn ins(s: &str, pos: usize) -> DiffResult {
    DiffResult::Insert(s.to_string(), pos)
}
fn del(s: &str, pos: usize) -> DiffResult {
    DiffResult::Delete(s.to_string(), pos)
}
fn rep(old: &str, new: &str, pos: usize) -> DiffResult {
    DiffResult::Replace { old_text: old.to_string(), new_text: new.to_string(), position: pos }
}

#[test]
fn empty_list_returns_empty() {
    assert_eq!(combine_getdiff_results(vec![]), vec![]);
}

#[test]
fn three_inserts_combine() {
    assert_eq!(
        combine_getdiff_results(vec![ins("a", 0), ins("b", 1), ins("c", 2)]),
        vec![ins("abc", 0)]
    );
}

#[test]
fn three_deletes_combine() {
    assert_eq!(
        combine_getdiff_results(vec![del("a", 0), del("b", 1), del("c", 2)]),
        vec![del("abc", 0)]
    );
}

#[test]
fn insert_then_delete_do_not_combine() {
    assert_eq!(
        combine_getdiff_results(vec![ins("a", 0), del("b", 1)]),
        vec![ins("a", 0), del("b", 1)]
    );
}

#[test]
fn non_adjacent_inserts_do_not_combine() {
    assert_eq!(
        combine_getdiff_results(vec![ins("a", 5), ins("b", 99)]),
        vec![ins("a", 5), ins("b", 99)]
    );
}

#[test]
fn adjacent_inserts_combine() {
    assert_eq!(combine_getdiff_results(vec![ins("a", 5), ins("b", 6)]), vec![ins("ab", 5)]);
}

#[test]
fn insert_with_space_blocks_combine() {
    assert_eq!(
        combine_getdiff_results(vec![ins("a", 0), ins("b c", 1)]),
        vec![ins("a", 0), ins("b c", 1)]
    );
}

#[test]
fn insert_with_newline_blocks_combine() {
    assert_eq!(
        combine_getdiff_results(vec![ins("a", 0), ins("\n", 1)]),
        vec![ins("a", 0), ins("\n", 1)]
    );
}

#[test]
fn leading_space_insert_still_combines() {
    assert_eq!(combine_getdiff_results(vec![ins(" ", 0), ins("a", 1)]), vec![ins(" a", 0)]);
}

#[test]
fn deletes_have_no_whitespace_rule() {
    assert_eq!(
        combine_getdiff_results(vec![del("a", 0), del("b c", 1)]),
        vec![del("ab c", 0)]
    );
}

#[test]
fn runs_separated_by_nodiff() {
    assert_eq!(
        combine_getdiff_results(vec![
            ins("a", 0),
            ins("b", 1),
            DiffResult::NoDiff,
            ins("c", 5),
            ins("d", 6),
        ]),
        vec![ins("ab", 0), DiffResult::NoDiff, ins("cd", 5)]
    );
}

#[test]
fn replaces_do_not_combine() {
    assert_eq!(
        combine_getdiff_results(vec![rep("a", "x", 0), rep("b", "y", 1)]),
        vec![rep("a", "x", 0), rep("b", "y", 1)]
    );
}

#[test]
fn all_whitespace_inserts_never_combine() {
    assert_eq!(
        combine_getdiff_results(vec![ins(" ", 0), ins(" ", 1), ins(" ", 2)]),
        vec![ins(" ", 0), ins(" ", 1), ins(" ", 2)]
    );
}

// --- further cases ---

#[test]
fn combining_twice_changes_nothing() {
    let once = combine_getdiff_results(vec![
        ins("a", 0),
        ins("b", 1),
        ins(" ", 2),
        ins("c", 3),
        del("x", 9),
        del("y", 10),
    ]);
    assert_eq!(once, vec![ins("ab", 0), ins(" c", 2), del("xy", 9)]);
    let twice = combine_getdiff_results(once.clone_list());
    assert_eq!(twice, once);
}

trait CloneList {
    fn clone_list(&self) -> Vec<DiffResult>;
}

impl CloneList for Vec<DiffResult> {
    fn clone_list(&self) -> Vec<DiffResult> {
        self.iter()
            .map(|d| match d {
                DiffResult::Insert(t, p) => DiffResult::Insert(t.clone(), *p),
                DiffResult::Delete(t, p) => DiffResult::Delete(t.clone(), *p),
                DiffResult::Replace { old_text, new_text, position } => DiffResult::Replace {
                    old_text: old_text.clone(),
                    new_text: new_text.clone(),
                    position: *position,
                },
                DiffResult::NoDiff => DiffResult::NoDiff,
            })
            .collect()
    }
}

#[test]
fn multi_character_texts_are_measured_in_characters() {
    // "äb" is two characters long, so the next insert continues at 2
    assert_eq!(combine_getdiff_results(vec![ins("äb", 0), ins("c", 2)]), vec![ins("äbc", 0)]);
    assert!(!makes_sense_to_combine(&ins("äb", 0), &ins("c", 3)));
}

#[test]
fn position_before_the_end_does_not_combine() {
    assert!(!makes_sense_to_combine(&del("abc", 10), &del("d", 5)));
    assert!(makes_sense_to_combine(&del("abc", 10), &del("d", 13)));
}

#[test]
fn bounds_check() {
    let list = vec![ins("a", 0)];
    assert!(item_ahead_in_bounds(0, &list));
    assert!(!item_ahead_in_bounds(1, &list));
}
