//! Text-diff and edit-batching logic for a block-based notes editor, with the
//! small pieces of table and row bookkeeping that travel alongside it.

pub mod chars;
pub mod diff_logic;
pub mod combine;
pub mod happy_little_timer;
pub mod when_to_diff_timer;
pub mod signal_channel;
pub mod when_to_diff;
pub mod native_timer;
pub mod batch_text_edits;
pub mod typing;
pub mod client_table_blueprints;
pub mod insert_structs;
pub mod love_letter;
pub mod fts5;
pub mod fun_drag;
pub mod dot_list;
pub mod text_blocks;
pub mod web_interface;
