//! The pages. Table and column names, each with a getter.

use vstd::prelude::*;

verus! {

pub const PAGES: &'static str = "pages";

/// The name of the table.
pub fn table_name_pages() -> (r: String)
    ensures
        r@ == PAGES@,
{
    PAGES.to_owned()
}

pub const PAGE_ID: &'static str = "page_id";
pub const BLOBBED_PAGE: &'static str = "blobbed_page";
pub const PAGE_STATUS: &'static str = "page_status";
pub const VERSION: &'static str = "version";
pub const IS_MAIN_MENU_PAGE: &'static str = "is_main_menu_page";

/// The name of the `page_id` column.
pub fn pages_page_id() -> (r: String)
    ensures
        r@ == PAGE_ID@,
{
    PAGE_ID.to_owned()
}

/// The name of the `blobbed_page` column.
pub fn pages_blobbed_page() -> (r: String)
    ensures
        r@ == BLOBBED_PAGE@,
{
    BLOBBED_PAGE.to_owned()
}

/// The name of the `page_status` column.
pub fn pages_page_status() -> (r: String)
    ensures
        r@ == PAGE_STATUS@,
{
    PAGE_STATUS.to_owned()
}

/// The name of the `version` column.
pub fn pages_version() -> (r: String)
    ensures
        r@ == VERSION@,
{
    VERSION.to_owned()
}

/// The name of the `is_main_menu_page` column.
pub fn pages_is_main_menu_page() -> (r: String)
    ensures
        r@ == IS_MAIN_MENU_PAGE@,
{
    IS_MAIN_MENU_PAGE.to_owned()
}

} // verus!
