//! Local edits not yet committed. Table and column names, each with a getter.

use vstd::prelude::*;

verus! {

pub const UNCOMMITTED_DIFFS: &'static str = "uncommitted_diffs";

/// The name of the table.
pub fn table_name_uncommitted_diffs() -> (r: String)
    ensures
        r@ == UNCOMMITTED_DIFFS@,
{
    UNCOMMITTED_DIFFS.to_owned()
}

pub const SNAPSHOT_OF_EDIT: &'static str = "snapshot_of_edit";
pub const LOVE_LETTER_SKETCH: &'static str = "love_letter_sketch";
pub const SESSION_ID: &'static str = "session_id";
pub const TARGET_ID: &'static str = "target_id";

/// The name of the `snapshot_of_edit` column.
pub fn uncommitted_diffs_snapshot_of_edit() -> (r: String)
    ensures
        r@ == SNAPSHOT_OF_EDIT@,
{
    SNAPSHOT_OF_EDIT.to_owned()
}

/// The name of the `love_letter_sketch` column.
pub fn uncommitted_diffs_love_letter_sketch() -> (r: String)
    ensures
        r@ == LOVE_LETTER_SKETCH@,
{
    LOVE_LETTER_SKETCH.to_owned()
}

/// The name of the `session_id` column.
pub fn uncommitted_diffs_session_id() -> (r: String)
    ensures
        r@ == SESSION_ID@,
{
    SESSION_ID.to_owned()
}

/// The name of the `target_id` column.
pub fn uncommitted_diffs_target_id() -> (r: String)
    ensures
        r@ == TARGET_ID@,
{
    TARGET_ID.to_owned()
}

} // verus!
