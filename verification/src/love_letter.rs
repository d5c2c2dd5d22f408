//! The love letter: how a client describes an edit so that the server knows
//! how to apply it. A sketch names the edit; the letter adds the snapshot of
//! the document after it. The edit payload types (the text edit, its target
//! and the insert position) are the document library's, and stay generic
//! here.

use vstd::prelude::*;

verus! {

/// An edit, described without the document snapshot.
pub enum LoveLetterSketch<TextEdit, EditTarget, PositionToInsert> {
    EditBlock { text_edit: TextEdit, edit_target: EditTarget, target_page_id: String },
    CreateNewBlock { position_to_insert: PositionToInsert, target_page_id: String },
    RemoveBlock { position: u32, target_page_id: String },
    DisablePage { page_id: String },
    CreateNewPage { page_id: String },
}

/// An edit together with the snapshot of the document after it.
pub enum LoveLetter<TextEdit, EditTarget, PositionToInsert> {
    EditBlock {
        text_edit: TextEdit,
        edit_target: EditTarget,
        target_page_id: String,
        snapshot_of_edit: Vec<u8>,
    },
    CreateNewBlock {
        position_to_insert: PositionToInsert,
        target_page_id: String,
        snapshot_of_edit: Vec<u8>,
    },
    RemoveBlock { position: u32, target_page_id: String, snapshot_of_edit: Vec<u8> },
    DisablePage { page_id: String, snapshot_of_edit: Vec<u8> },
    CreateNewPage { page_id: String, snapshot_of_edit: Vec<u8> },
}

/// The letter for `sketch` with `snapshot` attached: same variant, same
/// fields.
pub open spec fn letter_for<TE, ET, P>(
    sketch: LoveLetterSketch<TE, ET, P>,
    snapshot: Vec<u8>,
) -> LoveLetter<TE, ET, P> {
    match sketch {
        LoveLetterSketch::EditBlock { text_edit, edit_target, target_page_id } => LoveLetter::EditBlock {
            text_edit,
            edit_target,
            target_page_id,
            snapshot_of_edit: snapshot,
        },
        LoveLetterSketch::CreateNewBlock { position_to_insert, target_page_id } => LoveLetter::CreateNewBlock {
            position_to_insert,
            target_page_id,
            snapshot_of_edit: snapshot,
        },
        LoveLetterSketch::RemoveBlock { position, target_page_id } => LoveLetter::RemoveBlock {
            position,
            target_page_id,
            snapshot_of_edit: snapshot,
        },
        LoveLetterSketch::DisablePage { page_id } => LoveLetter::DisablePage {
            page_id,
            snapshot_of_edit: snapshot,
        },
        LoveLetterSketch::CreateNewPage { page_id } => LoveLetter::CreateNewPage {
            page_id,
            snapshot_of_edit: snapshot,
        },
    }
}

/// Attaches the snapshot of the edited document to a sketch.
pub fn build_a_love_letter<TE, ET, P>(
    love_letter: LoveLetterSketch<TE, ET, P>,
    snapshot_of_edit: Vec<u8>,
) -> (r: LoveLetter<TE, ET, P>)
    ensures
        r == letter_for(love_letter, snapshot_of_edit),
{
    match love_letter {
        LoveLetterSketch::EditBlock { text_edit, edit_target, target_page_id } => LoveLetter::EditBlock {
            text_edit,
            edit_target,
            target_page_id,
            snapshot_of_edit,
        },
        LoveLetterSketch::CreateNewBlock { position_to_insert, target_page_id } => LoveLetter::CreateNewBlock {
            position_to_insert,
            target_page_id,
            snapshot_of_edit,
        },
        LoveLetterSketch::RemoveBlock { position, target_page_id } => LoveLetter::RemoveBlock {
            position,
            target_page_id,
            snapshot_of_edit,
        },
        LoveLetterSketch::DisablePage { page_id } => LoveLetter::DisablePage {
            page_id,
            snapshot_of_edit,
        },
        LoveLetterSketch::CreateNewPage { page_id } => LoveLetter::CreateNewPage {
            page_id,
            snapshot_of_edit,
        },
    }
}

} // verus!
