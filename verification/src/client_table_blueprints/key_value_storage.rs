//! The key-value table's columns, written out in full.

use vstd::prelude::*;

use crate::client_table_blueprints::table_defs::ColumnDef;

verus! {

/// A `TEXT` column that is not null and defaults to the empty string.
fn text_column(name: &str, primary_key: bool) -> (r: ColumnDef)
    ensures
        r.name@ == name@,
        r.column_type@ == "TEXT"@,
        r.primary_key == primary_key,
        r.not_null,
        !r.unique,
        r.default_value@ == ""@,
        !r.autoincrement,
{
    ColumnDef {
        name: name.to_owned(),
        column_type: "TEXT".to_owned(),
        primary_key,
        not_null: true,
        unique: false,
        default_value: "".to_owned(),
        autoincrement: false,
    }
}

/// `key` (the primary key) and `value`, both non-null text defaulting to
/// the empty string; neither unique nor autoincremented.
pub fn key_value_storage_columns() -> (r: Vec<ColumnDef>)
    ensures
        r@.len() == 2,
        r@[0].name@ == "key"@ && r@[0].primary_key,
        r@[1].name@ == "value"@ && !r@[1].primary_key,
        forall|i: int|
            0 <= i < 2 ==> (#[trigger] r@[i]).column_type@ == "TEXT"@ && r@[i].not_null
                && !r@[i].unique && r@[i].default_value@ == ""@ && !r@[i].autoincrement,
{
    vec![text_column("key", true), text_column("value", false)]
}

} // verus!
