//! The client log. Table and column names, each with a getter.

use vstd::prelude::*;

verus! {

pub const LOGS: &'static str = "logs";

/// The name of the table.
pub fn table_name_logs() -> (r: String)
    ensures
        r@ == LOGS@,
{
    LOGS.to_owned()
}

pub const TIMESTAMP: &'static str = "timestamp";
pub const LEVEL: &'static str = "level";
pub const CATEGORY: &'static str = "category";
pub const SOURCE: &'static str = "source";
pub const SESSION_ID: &'static str = "session_id";
pub const MESSAGE: &'static str = "message";
pub const DETAILS: &'static str = "details";
pub const DETAILS_TYPE: &'static str = "details_type";

/// The name of the `timestamp` column.
pub fn logs_timestamp() -> (r: String)
    ensures
        r@ == TIMESTAMP@,
{
    TIMESTAMP.to_owned()
}

/// The name of the `level` column.
pub fn logs_level() -> (r: String)
    ensures
        r@ == LEVEL@,
{
    LEVEL.to_owned()
}

/// The name of the `category` column.
pub fn logs_category() -> (r: String)
    ensures
        r@ == CATEGORY@,
{
    CATEGORY.to_owned()
}

/// The name of the `source` column.
pub fn logs_source() -> (r: String)
    ensures
        r@ == SOURCE@,
{
    SOURCE.to_owned()
}

/// The name of the `session_id` column.
pub fn logs_session_id() -> (r: String)
    ensures
        r@ == SESSION_ID@,
{
    SESSION_ID.to_owned()
}

/// The name of the `message` column.
pub fn logs_message() -> (r: String)
    ensures
        r@ == MESSAGE@,
{
    MESSAGE.to_owned()
}

/// The name of the `details` column.
pub fn logs_details() -> (r: String)
    ensures
        r@ == DETAILS@,
{
    DETAILS.to_owned()
}

/// The name of the `details_type` column.
pub fn logs_details_type() -> (r: String)
    ensures
        r@ == DETAILS_TYPE@,
{
    DETAILS_TYPE.to_owned()
}

} // verus!
