//! What creating a page inserts into the `pages` and `uncommitted_diffs`
//! tables.

use vstd::prelude::*;

verus! {

/// The `pages` row of a new page.
pub struct PagesInsertCtx {
    /// The id the document library gave the page.
    pub page_id: String,
    pub blobbed_page: Vec<u8>,
    pub version: Vec<u8>,
    pub is_main_menu_page: bool,
}

/// The `uncommitted_diffs` row of a new page.
pub struct UncommitedDiffsInsertCtx {
    pub snapshot_of_edit: Vec<u8>,
    pub love_letter_sketch: Vec<u8>,
    pub session_id: String,
    pub target_id: String,
}

/// The two inserts of a new page: the page row holds the document snapshot
/// and version, and the uncommitted diff that announces the page carries the
/// same snapshot and targets the same page id.
pub fn create_page_contexts(
    page_id: String,
    snapshot_of_doc: Vec<u8>,
    version: Vec<u8>,
    is_main_menu_page: bool,
    session_id: String,
    love_letter_sketch: Vec<u8>,
) -> (r: (PagesInsertCtx, UncommitedDiffsInsertCtx))
    ensures
        r.0.page_id@ == page_id@,
        r.0.blobbed_page@ == snapshot_of_doc@,
        r.0.version@ == version@,
        r.0.is_main_menu_page == is_main_menu_page,
        r.1.snapshot_of_edit@ == snapshot_of_doc@,
        r.1.love_letter_sketch@ == love_letter_sketch@,
        r.1.session_id@ == session_id@,
        r.1.target_id@ == page_id@,
{
    let page = PagesInsertCtx {
        page_id: page_id.clone(),
        blobbed_page: snapshot_of_doc.clone(),
        is_main_menu_page,
        version,
    };
    let diffs = UncommitedDiffsInsertCtx {
        snapshot_of_edit: snapshot_of_doc,
        love_letter_sketch,
        session_id,
        target_id: page_id,
    };
    (page, diffs)
}

} // verus!
