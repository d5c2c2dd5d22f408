//! Deciding when a diff is due: each edit is applied to a copy of the text
//! (positions count characters), and its kind decides what the diff timer is
//! told.

use vstd::prelude::*;
use vstd::utf8::{encode_scalar, encode_utf8, encode_utf8_first_scalar, length_of_first_scalar};

use crate::chars::{
    chars_of, lemma_utf8_boundary, lemma_utf8_concat, lemma_utf8_injective, lemma_utf8_single,
    lemma_utf8_split, string_insert, string_insert_str, string_remove, string_replace_range,
};
use crate::when_to_diff_timer::{DiffTimer, Signal};

verus! {

/// A single atomic edit, as reported by the caller in real time.
///
/// `letter` is a one-character String.
#[derive(Debug, Clone)]
pub enum WhenToDiffEvent {
    SingleInsert { position: u32, letter: String },
    SingleDelete { position: u32 },
    BigInsert { position: u32, text: String },
    BigDelete { start: u32, end: u32 },
    Replace { start: u32, end: u32, text: String },
}

/// Implemented by the caller; called whenever a real diff should be run.
pub trait DiffCallback: Send + Sync {
    fn on_diff_needed(&self);
}

/// What an edit asks of the diff timer.
#[derive(Clone, Copy, Debug, PartialEq, Eq, Structural)]
pub enum TimerAction {
    /// A small edit that is not a space: (re)start the countdown.
    Edit,
    /// A big insert, delete or replace: diff now and keep counting down.
    FireAndReset,
    /// A space typed or deleted: diff now and go idle.
    FireAndClear,
}

pub open spec fn clamp(index: int, len: int) -> int {
    if index < len {
        index
    } else {
        len
    }
}

/// `s` with `c` inserted before character `index` (at the end when `index` is
/// past it).
pub open spec fn inserted_char(s: Seq<char>, index: int, c: char) -> Seq<char> {
    s.take(clamp(index, s.len() as int)) + seq![c] + s.skip(clamp(index, s.len() as int))
}

/// `s` with `t` inserted before character `index` (at the end when `index` is
/// past it).
pub open spec fn inserted_str(s: Seq<char>, index: int, t: Seq<char>) -> Seq<char> {
    s.take(clamp(index, s.len() as int)) + t + s.skip(clamp(index, s.len() as int))
}

/// `s` without character `index` (unchanged when there is none).
pub open spec fn removed_char(s: Seq<char>, index: int) -> Seq<char> {
    if index < s.len() {
        s.take(index) + s.skip(index + 1)
    } else {
        s
    }
}

/// `s` without the characters from `start` up to `end`, both clamped to the
/// length.
pub open spec fn removed_range(s: Seq<char>, start: int, end: int) -> Seq<char> {
    s.take(clamp(start, s.len() as int)) + s.skip(clamp(end, s.len() as int))
}

/// A range that `remove_range` accepts: after clamping, start is not past end.
pub open spec fn range_in_order(s: Seq<char>, start: int, end: int) -> bool {
    clamp(start, s.len() as int) <= clamp(end, s.len() as int)
}

/// The character a single-letter insert puts in: the letter's first character,
/// or `'\0'` for an empty letter.
pub open spec fn letter_char(letter: Seq<char>) -> char {
    if letter.len() > 0 {
        letter[0]
    } else {
        '\0'
    }
}

/// The text after `event`.
pub open spec fn edited_text(text: Seq<char>, event: WhenToDiffEvent) -> Seq<char> {
    match event {
        WhenToDiffEvent::SingleInsert { position, letter } => inserted_char(
            text,
            position as int,
            letter_char(letter@),
        ),
        WhenToDiffEvent::SingleDelete { position } => removed_char(text, position as int),
        WhenToDiffEvent::BigInsert { position, text: inserted } => inserted_str(
            text,
            position as int,
            inserted@,
        ),
        WhenToDiffEvent::BigDelete { start, end } => removed_range(text, start as int, end as int),
        WhenToDiffEvent::Replace { start, end, text: new_text } => inserted_str(
            removed_range(text, start as int, end as int),
            start as int,
            new_text@,
        ),
    }
}

/// What `event` asks of the timer: a typed or deleted space fires and idles,
/// other single-character edits restart the countdown, and big edits fire and
/// keep counting down.
pub open spec fn edit_action(text: Seq<char>, event: WhenToDiffEvent) -> TimerAction {
    match event {
        WhenToDiffEvent::SingleInsert { position, letter } => if letter@ == seq![' '] {
            TimerAction::FireAndClear
        } else {
            TimerAction::Edit
        },
        WhenToDiffEvent::SingleDelete { position } => if position < text.len() && text[position as int]
            == ' ' {
            TimerAction::FireAndClear
        } else {
            TimerAction::Edit
        },
        _ => TimerAction::FireAndReset,
    }
}

/// The edits that `notify_edit` accepts: a range delete or replace whose
/// clamped start does not pass its clamped end.
pub open spec fn event_applies(text: Seq<char>, event: WhenToDiffEvent) -> bool {
    match event {
        WhenToDiffEvent::BigDelete { start, end } => range_in_order(text, start as int, end as int),
        WhenToDiffEvent::Replace { start, end, text: _ } => range_in_order(
            text,
            start as int,
            end as int,
        ),
        _ => true,
    }
}

/// The signal that carries `action` to the countdown loop.
pub open spec fn action_signal(action: TimerAction) -> Signal {
    match action {
        TimerAction::Edit => Signal::Reset,
        TimerAction::FireAndReset => Signal::FireAndReset,
        TimerAction::FireAndClear => Signal::FireAndClear,
    }
}

/// The character at character position `index`, if there is one.
pub fn char_at(s: &str, index: u32) -> (r: Option<char>)
    ensures
        r == (if index < s@.len() {
            Some(s@[index as int])
        } else {
            None
        }),
{
    let v = chars_of(s);
    if (index as usize) < v.len() {
        Some(v[index as usize])
    } else {
        None
    }
}

/// The number of UTF-8 bytes of `s`.
fn byte_len(s: &str) -> (n: usize)
    ensures
        n == encode_utf8(s@).len(),
{
    s.as_bytes().len()
}

/// The number of UTF-8 bytes of `c`.
fn utf8_width(c: char) -> (w: usize)
    ensures
        w == encode_scalar(c as u32).len(),
{
    let u = c as u32;
    if u <= 0x7F {
        1
    } else if u <= 0x7FF {
        2
    } else if u <= 0xFFFF {
        3
    } else {
        4
    }
}

/// The byte offset at which character `char_index` starts, or the byte length
/// of `s` when there is no such character.
pub fn char_to_byte_index(s: &str, char_index: u32) -> (r: usize)
    ensures
        r == encode_utf8(s@.take(clamp(char_index as int, s@.len() as int))).len(),
{
    let v = chars_of(s);
    let total = byte_len(s);
    proof {
        vstd::utf8::encode_utf8_valid_utf8(s@);
    }
    let mut i: usize = 0;
    let mut byte_idx: usize = 0;
    while i < v.len() && i < char_index as usize
        invariant
            v@ == s@,
            i <= v.len(),
            i <= char_index,
            total == encode_utf8(s@).len(),
            byte_idx == encode_utf8(s@.take(i as int)).len(),
        decreases v.len() - i,
    {
        proof {
            assert(s@.take(i + 1) =~= s@.take(i as int) + seq![s@[i as int]]);
            lemma_utf8_concat(s@.take(i as int), seq![s@[i as int]]);
            lemma_utf8_single(s@[i as int]);
            lemma_utf8_split(s@, i + 1);
        }
        byte_idx = byte_idx + utf8_width(v[i]);
        i = i + 1;
    }
    byte_idx
}

proof fn lemma_byte_index_of_end(s: Seq<char>)
    ensures
        encode_utf8(s.take(s.len() as int)).len() == encode_utf8(s).len(),
{
    assert(s.take(s.len() as int) =~= s);
}

/// Inserts `c` before character `index` (at the end when `index` is past it).
pub fn insert_char(s: &mut String, index: u32, c: char)
    ensures
        final(s)@ == inserted_char(old(s)@, index as int, c),
{
    let ghost old_s = s@;
    let ghost k = clamp(index as int, old_s.len() as int);
    let byte_idx = char_to_byte_index(s.as_str(), index);
    proof {
        lemma_utf8_boundary(old_s, k);
        lemma_utf8_split(old_s, k);
    }
    string_insert(s, byte_idx, c);
    proof {
        let want = inserted_char(old_s, index as int, c);
        lemma_utf8_single(c);
        lemma_utf8_concat(old_s.take(k), seq![c]);
        lemma_utf8_concat(old_s.take(k) + seq![c], old_s.skip(k));
        lemma_utf8_injective(s@, want);
    }
}

/// Inserts `text` before character `index` (at the end when `index` is past
/// it).
pub fn insert_str(s: &mut String, index: u32, text: &str)
    ensures
        final(s)@ == inserted_str(old(s)@, index as int, text@),
{
    let ghost old_s = s@;
    let ghost k = clamp(index as int, old_s.len() as int);
    let byte_idx = char_to_byte_index(s.as_str(), index);
    proof {
        lemma_utf8_boundary(old_s, k);
        lemma_utf8_split(old_s, k);
    }
    string_insert_str(s, byte_idx, text);
    proof {
        let want = inserted_str(old_s, index as int, text@);
        lemma_utf8_concat(old_s.take(k), text@);
        lemma_utf8_concat(old_s.take(k) + text@, old_s.skip(k));
        lemma_utf8_injective(s@, want);
    }
}

/// Removes the character at `index`; does nothing when there is none.
pub fn remove_char(s: &mut String, index: u32)
    ensures
        final(s)@ == removed_char(old(s)@, index as int),
{
    let ghost old_s = s@;
    let byte_idx = char_to_byte_index(s.as_str(), index);
    if byte_idx < byte_len(s.as_str()) {
        proof {
            let k = index as int;
            if k >= old_s.len() {
                lemma_byte_index_of_end(old_s);
            }
            assert(k < old_s.len());
            lemma_utf8_boundary(old_s, k);
            lemma_utf8_split(old_s, k);
            lemma_utf8_split(old_s, k + 1);
            encode_utf8_first_scalar(old_s.skip(k));
            assert(old_s.skip(k).drop_first() =~= old_s.skip(k + 1));
        }
        let _removed = string_remove(s, byte_idx);
        proof {
            let k = index as int;
            let want = old_s.take(k) + old_s.skip(k + 1);
            let e = encode_utf8(old_s);
            let l = encode_utf8(old_s.take(k)).len() as int;
            let w = length_of_first_scalar(e.skip(l));
            assert(e.skip(l + w) =~= encode_utf8(old_s.skip(k + 1)));
            lemma_utf8_concat(old_s.take(k), old_s.skip(k + 1));
            lemma_utf8_injective(s@, want);
        }
    } else {
        proof {
            let k = clamp(index as int, old_s.len() as int);
            if index < old_s.len() {
                lemma_utf8_split(old_s, k);
                lemma_utf8_split(old_s, k + 1);
                encode_utf8_first_scalar(old_s.skip(k));
                assert(old_s.skip(k).drop_first() =~= old_s.skip(k + 1));
                assert(encode_utf8(old_s.skip(k)).len() > 0);
            }
        }
    }
}

/// Removes the characters from `start` up to `end` (both clamped to the
/// length).
pub fn remove_range(s: &mut String, start: u32, end: u32)
    requires
        range_in_order(old(s)@, start as int, end as int),
    ensures
        final(s)@ == removed_range(old(s)@, start as int, end as int),
{
    let ghost old_s = s@;
    let ghost ks = clamp(start as int, old_s.len() as int);
    let ghost ke = clamp(end as int, old_s.len() as int);
    let start_byte = char_to_byte_index(s.as_str(), start);
    let end_byte = char_to_byte_index(s.as_str(), end);
    proof {
        lemma_utf8_boundary(old_s, ks);
        lemma_utf8_boundary(old_s, ke);
        lemma_utf8_split(old_s, ks);
        lemma_utf8_split(old_s, ke);
        assert(old_s.take(ke) =~= old_s.take(ks) + old_s.take(ke).skip(ks));
        lemma_utf8_concat(old_s.take(ks), old_s.take(ke).skip(ks));
    }
    string_replace_range(s, start_byte, end_byte, "");
    proof {
        let want = removed_range(old_s, start as int, end as int);
        reveal_strlit("");
        assert(""@ =~= Seq::<char>::empty());
        assert(encode_utf8(Seq::<char>::empty()) =~= Seq::<u8>::empty());
        lemma_utf8_concat(old_s.take(ks), old_s.skip(ke));
        assert(encode_utf8(s@) =~= encode_utf8(want));
        lemma_utf8_injective(s@, want);
    }
}

fn is_single_space(letter: &str) -> (r: bool)
    ensures
        r == (letter@ == seq![' ']),
{
    let v = chars_of(letter);
    let r = v.len() == 1 && v[0] == ' ';
    if r {
        assert(letter@ =~= seq![' ']);
    }
    r
}

/// A single letter typed at `position`.
pub fn apply_single_insert(text: &mut String, position: u32, letter: &str) -> (r: TimerAction)
    ensures
        final(text)@ == inserted_char(old(text)@, position as int, letter_char(letter@)),
        r == (if letter@ == seq![' '] {
            TimerAction::FireAndClear
        } else {
            TimerAction::Edit
        }),
{
    let v = chars_of(letter);
    let ch = if v.len() > 0 {
        v[0]
    } else {
        '\0'
    };
    insert_char(text, position, ch);
    if is_single_space(letter) {
        TimerAction::FireAndClear
    } else {
        TimerAction::Edit
    }
}

/// A single character deleted at `position`.
pub fn apply_single_delete(text: &mut String, position: u32) -> (r: TimerAction)
    ensures
        final(text)@ == removed_char(old(text)@, position as int),
        r == (if position < old(text)@.len() && old(text)@[position as int] == ' ' {
            TimerAction::FireAndClear
        } else {
            TimerAction::Edit
        }),
{
    let deleted = char_at(text.as_str(), position);
    remove_char(text, position);
    match deleted {
        Some(c) => if c == ' ' {
            TimerAction::FireAndClear
        } else {
            TimerAction::Edit
        },
        None => TimerAction::Edit,
    }
}

/// A pasted (or otherwise big) insert at `position`.
pub fn apply_big_insert(text: &mut String, position: u32, inserted: &str) -> (r: TimerAction)
    ensures
        final(text)@ == inserted_str(old(text)@, position as int, inserted@),
        r == TimerAction::FireAndReset,
{
    insert_str(text, position, inserted);
    TimerAction::FireAndReset
}

/// A delete of the characters from `start` up to `end`.
pub fn apply_big_delete(text: &mut String, start: u32, end: u32) -> (r: TimerAction)
    requires
        range_in_order(old(text)@, start as int, end as int),
    ensures
        final(text)@ == removed_range(old(text)@, start as int, end as int),
        r == TimerAction::FireAndReset,
{
    remove_range(text, start, end);
    TimerAction::FireAndReset
}

/// The characters from `start` up to `end` replaced by `new_text`.
pub fn apply_replace(text: &mut String, start: u32, end: u32, new_text: &str) -> (r: TimerAction)
    requires
        range_in_order(old(text)@, start as int, end as int),
    ensures
        final(text)@ == inserted_str(
            removed_range(old(text)@, start as int, end as int),
            start as int,
            new_text@,
        ),
        r == TimerAction::FireAndReset,
{
    remove_range(text, start, end);
    insert_str(text, start, new_text);
    TimerAction::FireAndReset
}

/// Typing a letter and then deleting at the same position gives back the
/// text, for any position within the text.
pub proof fn lemma_insert_then_delete_restores(text: Seq<char>, position: u32, letter: String)
    requires
        position <= text.len(),
    ensures
        edited_text(
            edited_text(text, WhenToDiffEvent::SingleInsert { position, letter }),
            WhenToDiffEvent::SingleDelete { position },
        ) == text,
{
    let p = position as int;
    let t1 = inserted_char(text, p, letter_char(letter@));
    assert(t1.take(p) + t1.skip(p + 1) =~= text);
}

/// Pasting a text and then deleting the characters it occupies gives back the
/// text as it was, for any position within the text.
pub proof fn lemma_big_insert_then_delete_restores(
    text: Seq<char>,
    position: u32,
    inserted: String,
    end: u32,
)
    requires
        position <= text.len(),
        end == position + inserted@.len(),
    ensures
        event_applies(
            edited_text(text, WhenToDiffEvent::BigInsert { position, text: inserted }),
            WhenToDiffEvent::BigDelete { start: position, end },
        ),
        edited_text(
            edited_text(text, WhenToDiffEvent::BigInsert { position, text: inserted }),
            WhenToDiffEvent::BigDelete { start: position, end },
        ) == text,
{
    let p = position as int;
    let t1 = inserted_str(text, p, inserted@);
    assert(t1.take(p) + t1.skip(end as int) =~= text);
}

/// Replacing a range by the very characters it holds leaves the text as it
/// was.
pub proof fn lemma_replace_with_same_text(text: Seq<char>, start: u32, end: u32, same: String)
    requires
        start <= end <= text.len(),
        same@ == text.subrange(start as int, end as int),
    ensures
        edited_text(text, WhenToDiffEvent::Replace { start, end, text: same }) == text,
{
    let r = removed_range(text, start as int, end as int);
    assert(r.take(start as int) + same@ + r.skip(start as int) =~= text);
}

/// Keeps a copy of the text as it stood before the latest edit, and tells the
/// diff timer what each edit calls for.
pub struct WhenToDiff {
    timer: DiffTimer,
    text_before_latest_change: String,
}

impl WhenToDiff {
    /// The text as it stands after the edits seen so far.
    pub closed spec fn text(&self) -> Seq<char> {
        self.text_before_latest_change@
    }

    /// The signals handed to the diff timer so far.
    pub closed spec fn signals(&self) -> Seq<Signal> {
        self.timer.sent()
    }

    /// Starts from `initial_text`, talking to the countdown loop behind
    /// `timer`.
    pub fn with_timer(timer: DiffTimer, initial_text: String) -> (r: WhenToDiff)
        ensures
            r.text() == initial_text@,
            r.signals() == timer.sent(),
    {
        WhenToDiff { timer, text_before_latest_change: initial_text }
    }

    /// Whether `notify_edit` accepts `event` now: a range delete or replace
    /// whose clamped start lies past its clamped end is refused.
    pub fn accepts(&self, event: &WhenToDiffEvent) -> (r: bool)
        ensures
            r == event_applies(self.text(), *event),
    {
        match event {
            WhenToDiffEvent::BigDelete { start, end } => self.range_ok(*start, *end),
            WhenToDiffEvent::Replace { start, end, text: _ } => self.range_ok(*start, *end),
            _ => true,
        }
    }

    fn range_ok(&self, start: u32, end: u32) -> (r: bool)
        ensures
            r == range_in_order(self.text(), start as int, end as int),
    {
        let len = chars_of(self.text_before_latest_change.as_str()).len();
        let s = if (start as usize) < len {
            start as usize
        } else {
            len
        };
        let e = if (end as usize) < len {
            end as usize
        } else {
            len
        };
        s <= e
    }

    /// Feeds in the next atomic edit: the edit is applied to the text, and the
    /// timer is told to restart (a small edit), to fire now and keep counting
    /// (a big edit), or to fire now and go idle (a space typed or deleted).
    pub fn notify_edit(&mut self, event: WhenToDiffEvent)
        requires
            event_applies(old(self).text(), event),
        ensures
            final(self).text() == edited_text(old(self).text(), event),
            final(self).signals() == old(self).signals().push(
                action_signal(edit_action(old(self).text(), event)),
            ),
    {
        let action = match &event {
            WhenToDiffEvent::SingleInsert { position, letter } => apply_single_insert(
                &mut self.text_before_latest_change,
                *position,
                letter.as_str(),
            ),
            WhenToDiffEvent::SingleDelete { position } => apply_single_delete(
                &mut self.text_before_latest_change,
                *position,
            ),
            WhenToDiffEvent::BigInsert { position, text: inserted } => apply_big_insert(
                &mut self.text_before_latest_change,
                *position,
                inserted.as_str(),
            ),
            WhenToDiffEvent::BigDelete { start, end } => apply_big_delete(
                &mut self.text_before_latest_change,
                *start,
                *end,
            ),
            WhenToDiffEvent::Replace { start, end, text: new_text } => apply_replace(
                &mut self.text_before_latest_change,
                *start,
                *end,
                new_text.as_str(),
            ),
        };
        match action {
            TimerAction::Edit => self.timer.reset(),
            TimerAction::FireAndReset => self.timer.fire_and_reset(),
            TimerAction::FireAndClear => self.timer.fire_and_clear(),
        }
    }

    /// Stops the countdown loop behind this handle.
    pub fn shutdown(&mut self)
        ensures
            final(self).text() == old(self).text(),
            final(self).signals() == old(self).signals().push(Signal::Shutdown),
    {
        self.timer.shutdown();
    }
}

} // verus!
