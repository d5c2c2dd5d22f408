//! Edits received from other clients. Table and column names, each with a getter.

use vstd::prelude::*;

verus! {

pub const INCOMING_LOVE_LETTERS: &'static str = "incoming_love_letters";

/// The name of the table.
pub fn table_name_incoming_love_letters() -> (r: String)
    ensures
        r@ == INCOMING_LOVE_LETTERS@,
{
    INCOMING_LOVE_LETTERS.to_owned()
}

pub const LOVE_LETTER: &'static str = "love_letter";
pub const TARGET_PAGE_ID: &'static str = "target_page_id";
pub const TIMESTAMP: &'static str = "timestamp";
pub const APPLIED: &'static str = "applied";
pub const SESSION_ID: &'static str = "session_id";

/// The name of the `love_letter` column.
pub fn incoming_love_letters_love_letter() -> (r: String)
    ensures
        r@ == LOVE_LETTER@,
{
    LOVE_LETTER.to_owned()
}

/// The name of the `target_page_id` column.
pub fn incoming_love_letters_target_page_id() -> (r: String)
    ensures
        r@ == TARGET_PAGE_ID@,
{
    TARGET_PAGE_ID.to_owned()
}

/// The name of the `timestamp` column.
pub fn incoming_love_letters_timestamp() -> (r: String)
    ensures
        r@ == TIMESTAMP@,
{
    TIMESTAMP.to_owned()
}

/// The name of the `applied` column.
pub fn incoming_love_letters_applied() -> (r: String)
    ensures
        r@ == APPLIED@,
{
    APPLIED.to_owned()
}

/// The name of the `session_id` column.
pub fn incoming_love_letters_session_id() -> (r: String)
    ensures
        r@ == SESSION_ID@,
{
    SESSION_ID.to_owned()
}

} // verus!
