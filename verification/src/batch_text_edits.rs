//! Batching text edits: which edits call for a diff right away.

use vstd::prelude::*;

verus! {

/// An atomic edit, as the editor reports it.
#[derive(Clone, Copy, Debug, PartialEq, Eq, Structural)]
pub enum Event {
    /// One character typed; whether it was a space or a newline.
    SingleInsert { character_inserted_was_space_or_newline: bool },
    SingleDelete,
    BigInsert,
    BigDelete,
    Replace,
}

/// Implemented by the caller; called whenever a diff should be run.
pub trait DiffCallback: Send + Sync {
    fn on_diff_needed(&self);
}

/// Whether `event` calls for a diff right away: a typed space or newline, a
/// big insert, a big delete and a replace do; other typing and single
/// deletes are left to the timer.
pub open spec fn needs_diff_now(event: Event) -> bool {
    match event {
        Event::SingleInsert { character_inserted_was_space_or_newline } => character_inserted_was_space_or_newline,
        Event::SingleDelete => false,
        Event::BigInsert => true,
        Event::BigDelete => true,
        Event::Replace => true,
    }
}

/// Decides whether the caller is notified for `event` at once.
pub fn diff_needed_now(event: &Event) -> (r: bool)
    ensures
        r == needs_diff_now(*event),
{
    match event {
        Event::SingleInsert { character_inserted_was_space_or_newline } => *character_inserted_was_space_or_newline,
        Event::SingleDelete => false,
        Event::BigInsert => true,
        Event::BigDelete => true,
        Event::Replace => true,
    }
}

} // verus!
