use text_diff::insert_structs::create_page_contexts;
use text_diff::love_letter::{build_a_love_letter, LoveLetter, LoveLetterSketch};

#[test]
fn new_page_contexts_share_id_and_snapshot() {
    let (page, diffs) = create_page_contexts(
        "page-1".to_string(),
        vec![1, 2, 3],
        vec![9],
        true,
        "session".to_string(),
        vec![7],
    );
    assert_eq!(page.page_id, "page-1");
    assert_eq!(page.blobbed_page, vec![1, 2, 3]);
    assert_eq!(page.version, vec![9]);
    assert!(page.is_main_menu_page);
    assert_eq!(diffs.snapshot_of_edit, vec![1, 2, 3]);
    assert_eq!(diffs.love_letter_sketch, vec![7]);
    assert_eq!(diffs.session_id, "session");
    assert_eq!(diffs.target_id, "page-1");
}

#[test]
fn love_letters_carry_the_snapshot() {
    let sketch: LoveLetterSketch<u8, u8, u8> =
        LoveLetterSketch::RemoveBlock { position: 4, target_page_id: "p".to_string() };
    match build_a_love_letter(sketch, vec![5, 6]) {
        LoveLetter::RemoveBlock { position, target_page_id, snapshot_of_edit } => {
            assert_eq!(position, 4);
            assert_eq!(target_page_id, "p");
            assert_eq!(snapshot_of_edit, vec![5, 6]);
        }
        _ => panic!("variant changed"),
    }
    let sketch: LoveLetterSketch<&str, bool, u8> = LoveLetterSketch::EditBlock {
        text_edit: "edit",
        edit_target: true,
        target_page_id: "q".to_string(),
    };
    match build_a_love_letter(sketch, vec![]) {
        LoveLetter::EditBlock { text_edit, edit_target, target_page_id, snapshot_of_edit } => {
            assert_eq!(text_edit, "edit");
            assert!(edit_target);
            assert_eq!(target_page_id, "q");
            assert!(snapshot_of_edit.is_empty());
        }
        _ => panic!("variant changed"),
    }
}
