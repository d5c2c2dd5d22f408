//! Small key-value settings. Table and column names, each with a getter.

use vstd::prelude::*;

verus! {

pub const KEY_VALUE_STORAGE: &'static str = "key_value_storage";

/// The name of the table.
pub fn table_name_key_value_storage() -> (r: String)
    ensures
        r@ == KEY_VALUE_STORAGE@,
{
    KEY_VALUE_STORAGE.to_owned()
}

pub const KEY: &'static str = "key";
pub const VALUE: &'static str = "value";

/// The name of the `key` column.
pub fn key_value_storage_key() -> (r: String)
    ensures
        r@ == KEY@,
{
    KEY.to_owned()
}

/// The name of the `value` column.
pub fn key_value_storage_value() -> (r: String)
    ensures
        r@ == VALUE@,
{
    VALUE.to_owned()
}

} // verus!
