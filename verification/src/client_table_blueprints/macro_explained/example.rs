//! A small example table. Table and column names, each with a getter.

use vstd::prelude::*;

verus! {

pub const BABLE_LADE: &'static str = "namle_tabe";

/// The name of the table.
pub fn table_name_bable_lade() -> (r: String)
    ensures
        r@ == BABLE_LADE@,
{
    BABLE_LADE.to_owned()
}

pub const COL1: &'static str = "name";
pub const COL2: &'static str = "age";

/// The name of the `name` column.
pub fn bable_lade_col1() -> (r: String)
    ensures
        r@ == COL1@,
{
    COL1.to_owned()
}

/// The name of the `age` column.
pub fn bable_lade_col2() -> (r: String)
    ensures
        r@ == COL2@,
{
    COL2.to_owned()
}

} // verus!
