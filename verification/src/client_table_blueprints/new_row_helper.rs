//! Rows to insert into the client's tables, column by column.

use vstd::prelude::*;

use crate::client_table_blueprints::table_defs::{blob_value, bool_text, row_view, text_value, Col, ColView, ColumnValue};

verus! {

/// A new `pages` row. `page_status` is the snapshot of a fresh, empty
/// active-pages document.
pub fn new_page_row(
    page_id: String,
    is_main_menu_page: bool,
    yrs_page_blobbed: Vec<u8>,
    version: Vec<u8>,
    page_status: Vec<u8>,
) -> (r: Vec<ColumnValue>)
    ensures
        row_view(r@) == seq![
            ("page_id"@, ColView::Text(page_id@)),
            ("blobbed_page"@, ColView::Blob(yrs_page_blobbed@)),
            ("page_status"@, ColView::Blob(page_status@)),
            ("version"@, ColView::Blob(version@)),
            ("is_main_menu_page"@, ColView::Text(if is_main_menu_page { "true"@ } else { "false"@ })),
        ],
{
    let r = vec![
        text_value("page_id", page_id),
        blob_value("blobbed_page", yrs_page_blobbed),
        blob_value("page_status", page_status),
        blob_value("version", version),
        text_value("is_main_menu_page", bool_text(is_main_menu_page)),
    ];
    assert(row_view(r@) =~= seq![r@[0]@, r@[1]@, r@[2]@, r@[3]@, r@[4]@]);
    r
}

/// A new `uncommitted_diffs` row.
pub fn new_uncommitted_diff_row(
    snapshot_of_edit: Vec<u8>,
    love_letter_sketch: Vec<u8>,
    session_id: String,
    target_id: String,
) -> (r: Vec<ColumnValue>)
    ensures
        row_view(r@) == seq![
            ("snapshot_of_edit"@, ColView::Blob(snapshot_of_edit@)),
            ("love_letter_sketch"@, ColView::Blob(love_letter_sketch@)),
            ("session_id"@, ColView::Text(session_id@)),
            ("target_id"@, ColView::Text(target_id@)),
        ],
{
    let r = vec![
        blob_value("snapshot_of_edit", snapshot_of_edit),
        blob_value("love_letter_sketch", love_letter_sketch),
        text_value("session_id", session_id),
        text_value("target_id", target_id),
    ];
    assert(row_view(r@) =~= seq![r@[0]@, r@[1]@, r@[2]@, r@[3]@]);
    r
}

/// A new `backlinks` row; `disabled` and `version` are the snapshot and the
/// synced-state bookmark of a fresh, empty backlinks document.
pub fn new_backlink_row(
    page_that_holds_link_id: String,
    page_being_linked_to_id: String,
    disabled: Vec<u8>,
    version: Vec<u8>,
) -> (r: Vec<ColumnValue>)
    ensures
        row_view(r@) == seq![
            ("page_that_holds_link_id"@, ColView::Text(page_that_holds_link_id@)),
            ("page_being_linked_to_id"@, ColView::Text(page_being_linked_to_id@)),
            ("disabled"@, ColView::Blob(disabled@)),
            ("version"@, ColView::Blob(version@)),
        ],
{
    let r = vec![
        text_value("page_that_holds_link_id", page_that_holds_link_id),
        text_value("page_being_linked_to_id", page_being_linked_to_id),
        blob_value("disabled", disabled),
        blob_value("version", version),
    ];
    assert(row_view(r@) =~= seq![r@[0]@, r@[1]@, r@[2]@, r@[3]@]);
    r
}

/// A new `key_value_storage` row.
pub fn new_key_value_item(key: String, value: String) -> (r: Vec<ColumnValue>)
    ensures
        row_view(r@) == seq![("key"@, ColView::Text(key@)), ("value"@, ColView::Text(value@))],
{
    let r = vec![text_value("key", key), text_value("value", value)];
    assert(row_view(r@) =~= seq![r@[0]@, r@[1]@]);
    r
}

fn optional_blob(v: Option<Vec<u8>>) -> (r: Col)
    ensures
        r@ == (match v {
            Some(b) => ColView::Blob(b@),
            None => ColView::Null,
        }),
{
    match v {
        Some(b) => Col::Blob(b),
        None => Col::Null,
    }
}

fn optional_text(v: Option<String>) -> (r: Col)
    ensures
        r@ == (match v {
            Some(t) => ColView::Text(t@),
            None => ColView::Null,
        }),
{
    match v {
        Some(t) => Col::Text(t),
        None => Col::Null,
    }
}

/// A new `logs` row, stamped with `timestamp` (seconds since the Unix
/// epoch); missing details are stored as null.
pub fn new_log_row(
    level: String,
    category: String,
    source: String,
    session_id: String,
    message: String,
    details: Option<Vec<u8>>,
    details_type: Option<String>,
    timestamp: i64,
) -> (r: Vec<ColumnValue>)
    ensures
        row_view(r@) == seq![
            ("timestamp"@, ColView::Integer(timestamp)),
            ("level"@, ColView::Text(level@)),
            ("category"@, ColView::Text(category@)),
            ("source"@, ColView::Text(source@)),
            ("session_id"@, ColView::Text(session_id@)),
            ("message"@, ColView::Text(message@)),
            ("details"@, match details { Some(b) => ColView::Blob(b@), None => ColView::Null }),
            ("details_type"@, match details_type { Some(t) => ColView::Text(t@), None => ColView::Null }),
        ],
{
    let r = vec![
        ColumnValue { column_name: "timestamp".to_owned(), value: Col::Integer(timestamp) },
        text_value("level", level),
        text_value("category", category),
        text_value("source", source),
        text_value("session_id", session_id),
        text_value("message", message),
        ColumnValue { column_name: "details".to_owned(), value: optional_blob(details) },
        ColumnValue { column_name: "details_type".to_owned(), value: optional_text(details_type) },
    ];
    assert(row_view(r@) =~= seq![r@[0]@, r@[1]@, r@[2]@, r@[3]@, r@[4]@, r@[5]@, r@[6]@, r@[7]@]);
    r
}

/// A new `incoming_love_letters` row, stamped with `timestamp` (seconds since
/// the Unix epoch) and not yet applied.
pub fn new_incoming_love_letter_row(
    love_letter: Vec<u8>,
    target_page_id: String,
    session_id: String,
    timestamp: i64,
) -> (r: Vec<ColumnValue>)
    ensures
        row_view(r@) == seq![
            ("love_letter"@, ColView::Blob(love_letter@)),
            ("target_page_id"@, ColView::Text(target_page_id@)),
            ("timestamp"@, ColView::Integer(timestamp)),
            ("applied"@, ColView::Text("false"@)),
            ("session_id"@, ColView::Text(session_id@)),
        ],
{
    let r = vec![
        blob_value("love_letter", love_letter),
        text_value("target_page_id", target_page_id),
        ColumnValue { column_name: "timestamp".to_owned(), value: Col::Integer(timestamp) },
        text_value("applied", "false".to_owned()),
        text_value("session_id", session_id),
    ];
    assert(row_view(r@) =~= seq![r@[0]@, r@[1]@, r@[2]@, r@[3]@, r@[4]@]);
    r
}

} // verus!
