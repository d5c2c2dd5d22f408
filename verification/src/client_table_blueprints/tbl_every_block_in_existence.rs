//! Every text block of every page. Table and column names, each with a getter.

use vstd::prelude::*;

use crate::client_table_blueprints::table_defs::{fk_view, ForeignKeyDef};
use crate::client_table_blueprints::tbl_pages::{PAGES, PAGE_ID};

verus! {

pub const EVERY_BLOCK_IN_EXISTENCE: &'static str = "every_block_in_existence";

/// The name of the table.
pub fn table_name_every_block_in_existence() -> (r: String)
    ensures
        r@ == EVERY_BLOCK_IN_EXISTENCE@,
{
    EVERY_BLOCK_IN_EXISTENCE.to_owned()
}

pub const IS_TITLE: &'static str = "is_title";
pub const IS_PART_OF_MAIN_MENU_PAGE: &'static str = "is_part_of_main_menu_page";
pub const CONTENT: &'static str = "content";
pub const MY_ID_AS_GIVEN_BY_YRS: &'static str = "my_id_as_given_by_yrs";
pub const ID_OF_PAGE_I_BELONG_TO: &'static str = "id_of_page_i_belong_to";
pub const POSITION: &'static str = "position";

/// The name of the `is_title` column.
pub fn every_block_in_existence_is_title() -> (r: String)
    ensures
        r@ == IS_TITLE@,
{
    IS_TITLE.to_owned()
}

/// The name of the `is_part_of_main_menu_page` column.
pub fn every_block_in_existence_is_part_of_main_menu_page() -> (r: String)
    ensures
        r@ == IS_PART_OF_MAIN_MENU_PAGE@,
{
    IS_PART_OF_MAIN_MENU_PAGE.to_owned()
}

/// The name of the `content` column.
pub fn every_block_in_existence_content() -> (r: String)
    ensures
        r@ == CONTENT@,
{
    CONTENT.to_owned()
}

/// The name of the `my_id_as_given_by_yrs` column.
pub fn every_block_in_existence_my_id_as_given_by_yrs() -> (r: String)
    ensures
        r@ == MY_ID_AS_GIVEN_BY_YRS@,
{
    MY_ID_AS_GIVEN_BY_YRS.to_owned()
}

/// The name of the `id_of_page_i_belong_to` column.
pub fn every_block_in_existence_id_of_page_i_belong_to() -> (r: String)
    ensures
        r@ == ID_OF_PAGE_I_BELONG_TO@,
{
    ID_OF_PAGE_I_BELONG_TO.to_owned()
}

/// The name of the `position` column.
pub fn every_block_in_existence_position() -> (r: String)
    ensures
        r@ == POSITION@,
{
    POSITION.to_owned()
}

/// The page a block belongs to is a `pages.page_id`.
pub fn get_foreign_def_every_block_in_existence() -> (r: Vec<ForeignKeyDef>)
    ensures
        r@.len() == 1,
        fk_view(r@[0]) == (ID_OF_PAGE_I_BELONG_TO@, PAGES@, PAGE_ID@),
{
    vec![
        ForeignKeyDef {
            column: ID_OF_PAGE_I_BELONG_TO.to_owned(),
            referenced_table: PAGES.to_owned(),
            referenced_column: PAGE_ID.to_owned(),
        },
    ]
}

} // verus!
