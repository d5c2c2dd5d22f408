//! Names of the client's database tables and columns, the column and foreign
//! key definitions written out by hand, and the rows that the client inserts.

pub mod key_value_storage;
pub mod macro_explained;
pub mod new_row_helper;
pub mod tbl_backlinks;
pub mod tbl_every_block_in_existence;
pub mod tbl_incoming_love_letters;
pub mod tbl_key_value_storage;
pub mod tbl_logs;
pub mod tbl_pages;
pub mod tbl_uncommitted_diffs;
pub mod table_defs;
