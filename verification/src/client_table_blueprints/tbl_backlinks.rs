//! Links between pages. Table and column names, each with a getter.

use vstd::prelude::*;

use crate::client_table_blueprints::table_defs::{blob_value, fk_view, row_view, text_value, ColView, ColumnValue, ForeignKeyDef};
use crate::client_table_blueprints::tbl_pages::{PAGES, PAGE_ID};

verus! {

pub const BACKLINKS: &'static str = "backlinks";

/// The name of the table.
pub fn table_name_backlinks() -> (r: String)
    ensures
        r@ == BACKLINKS@,
{
    BACKLINKS.to_owned()
}

pub const PAGE_THAT_HOLDS_LINK_ID: &'static str = "page_that_holds_link_id";
pub const PAGE_BEING_LINKED_TO_ID: &'static str = "page_being_linked_to_id";
pub const DISABLED: &'static str = "disabled";
pub const VERSION: &'static str = "version";

/// The name of the `page_that_holds_link_id` column.
pub fn backlinks_page_that_holds_link_id() -> (r: String)
    ensures
        r@ == PAGE_THAT_HOLDS_LINK_ID@,
{
    PAGE_THAT_HOLDS_LINK_ID.to_owned()
}

/// The name of the `page_being_linked_to_id` column.
pub fn backlinks_page_being_linked_to_id() -> (r: String)
    ensures
        r@ == PAGE_BEING_LINKED_TO_ID@,
{
    PAGE_BEING_LINKED_TO_ID.to_owned()
}

/// The name of the `disabled` column.
pub fn backlinks_disabled() -> (r: String)
    ensures
        r@ == DISABLED@,
{
    DISABLED.to_owned()
}

/// The name of the `version` column.
pub fn backlinks_version() -> (r: String)
    ensures
        r@ == VERSION@,
{
    VERSION.to_owned()
}

/// A new backlink row: the two page ids as text, then the `disabled` and
/// `version` blobs (the snapshot and the synced-state bookmark of a fresh,
/// empty backlinks document).
pub fn new_backlink_row(
    page_that_holds_link_id: String,
    page_being_linked_to_id: String,
    disabled: Vec<u8>,
    version: Vec<u8>,
) -> (r: Vec<ColumnValue>)
    ensures
        row_view(r@) == seq![
            (PAGE_THAT_HOLDS_LINK_ID@, ColView::Text(page_that_holds_link_id@)),
            (PAGE_BEING_LINKED_TO_ID@, ColView::Text(page_being_linked_to_id@)),
            (DISABLED@, ColView::Blob(disabled@)),
            (VERSION@, ColView::Blob(version@)),
        ],
{
    let r = vec![
        text_value(PAGE_THAT_HOLDS_LINK_ID, page_that_holds_link_id),
        text_value(PAGE_BEING_LINKED_TO_ID, page_being_linked_to_id),
        blob_value(DISABLED, disabled),
        blob_value(VERSION, version),
    ];
    assert(row_view(r@) =~= seq![r@[0]@, r@[1]@, r@[2]@, r@[3]@]);
    r
}

/// Both page-id columns refer to `pages.page_id`.
pub fn get_foreign_def_backlinks() -> (r: Vec<ForeignKeyDef>)
    ensures
        r@.len() == 2,
        fk_view(r@[0]) == (PAGE_THAT_HOLDS_LINK_ID@, PAGES@, PAGE_ID@),
        fk_view(r@[1]) == (PAGE_BEING_LINKED_TO_ID@, PAGES@, PAGE_ID@),
{
    vec![
        ForeignKeyDef {
            column: PAGE_THAT_HOLDS_LINK_ID.to_owned(),
            referenced_table: PAGES.to_owned(),
            referenced_column: PAGE_ID.to_owned(),
        },
        ForeignKeyDef {
            column: PAGE_BEING_LINKED_TO_ID.to_owned(),
            referenced_table: PAGES.to_owned(),
            referenced_column: PAGE_ID.to_owned(),
        },
    ]
}

} // verus!
