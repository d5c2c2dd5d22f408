//! The text boxes' diff reporting: a human-readable description of the edit
//! between two versions, and the small state machine that holds back the
//! report while the user is typing letters or deleting single characters.

use vstd::prelude::*;

use crate::chars::{chars_of, push_char, string_of};
use crate::diff_logic::{common_prefix_len, common_suffix_len, lemma_common_prefix, lemma_common_suffix, min_int};

verus! {

/// The decimal digit for `d` (below ten).
pub open spec fn digit_char(d: int) -> char {
    ((48 + d) as u8) as char
}

/// The decimal representation of `n`, without leading zeros.
pub open spec fn decimal(n: nat) -> Seq<char>
    decreases n,
{
    if n < 10 {
        seq![digit_char(n as int)]
    } else {
        decimal(n / 10).push(digit_char((n % 10) as int))
    }
}

/// Appends the decimal representation of `n` to `s`.
pub fn push_decimal(s: &mut String, n: usize)
    ensures
        final(s)@ == old(s)@ + decimal(n as nat),
    decreases n,
{
    if n >= 10 {
        push_decimal(s, n / 10);
    }
    let d = (n % 10) as u8;
    push_char(s, (48u8 + d) as char);
    proof {
        if n < 10 {
            assert(old(s)@ + decimal(n as nat) =~= old(s)@.push(digit_char(n as int)));
        } else {
            assert(old(s)@ + decimal(n as nat) =~= (old(s)@ + decimal((n / 10) as nat)).push(
                digit_char((n % 10) as int),
            ));
        }
    }
}

/// Appends the characters `t[from..to]` to `s`.
fn push_chars(s: &mut String, t: &Vec<char>, from: usize, to: usize)
    requires
        from <= to <= t.len(),
    ensures
        final(s)@ == old(s)@ + t@.subrange(from as int, to as int),
{
    let mut i: usize = from;
    while i < to
        invariant
            from <= i <= to,
            to <= t.len(),
            s@ == old(s)@ + t@.subrange(from as int, i as int),
        decreases to - i,
    {
        push_char(s, t[i]);
        assert(old(s)@ + t@.subrange(from as int, i as int) + seq![t@[i as int]] =~= old(s)@
            + t@.subrange(from as int, i + 1));
        i = i + 1;
    }
}

/// Appends the text `t` to `s`.
fn push_str(s: &mut String, t: &str)
    ensures
        final(s)@ == old(s)@ + t@,
{
    let v = chars_of(t);
    push_chars(s, &v, 0, v.len());
    assert(v@.subrange(0, v@.len() as int) =~= t@);
}

/// How many trailing characters the description leaves out: the common
/// suffix, but never reaching into the common prefix.
pub open spec fn reported_suffix(old: Seq<char>, new: Seq<char>) -> int {
    let first = common_prefix_len(old, new);
    min_int(
        common_suffix_len(old, new),
        min_int(old.len() - first, new.len() - first),
    )
}

/// The part of `old` that the edit replaced.
pub open spec fn old_changed(old: Seq<char>, new: Seq<char>) -> Seq<char> {
    old.subrange(common_prefix_len(old, new), old.len() - reported_suffix(old, new))
}

/// The part of `new` that the edit put in.
pub open spec fn new_changed(old: Seq<char>, new: Seq<char>) -> Seq<char> {
    new.subrange(common_prefix_len(old, new), new.len() - reported_suffix(old, new))
}

/// " at position {first} in box {box_index}"
pub open spec fn location(first: int, box_index: usize) -> Seq<char> {
    "' at position "@ + decimal(first as nat) + " in box "@ + decimal(box_index as nat)
}

/// The human-readable description of the edit from `old` to `new` in box
/// `box_index`; empty when nothing changed.
pub open spec fn diff_description(old: Seq<char>, new: Seq<char>, box_index: usize) -> Seq<char> {
    if old == new {
        Seq::empty()
    } else {
        let first = common_prefix_len(old, new);
        let o = old_changed(old, new);
        let n = new_changed(old, new);
        if o.len() == 0 && n.len() > 0 {
            "Inserted '"@ + n + location(first, box_index)
        } else if o.len() > 0 && n.len() == 0 {
            "Deleted '"@ + o + location(first, box_index)
        } else if o.len() > 0 && n.len() > 0 {
            "Replaced '"@ + o + "' with '"@ + n + location(first, box_index)
        } else {
            Seq::empty()
        }
    }
}

/// The description is empty exactly when the two versions are equal: any
/// real edit is reported as an insert, a delete or a replace.
pub proof fn lemma_description_empty_iff_equal(old: Seq<char>, new: Seq<char>, box_index: usize)
    ensures
        (diff_description(old, new, box_index).len() == 0) == (old == new),
{
    if old != new {
        lemma_common_prefix(old, new);
        lemma_common_suffix(old, new);
        let p = common_prefix_len(old, new);
        let cs = common_suffix_len(old, new);
        let o = old_changed(old, new);
        let n = new_changed(old, new);
        if o.len() == 0 && n.len() == 0 {
            assert(old.len() == new.len());
            if p == old.len() {
                assert(old =~= new);
            }
            if cs >= old.len() - p {
                let k = old.len() - 1 - p;
                assert(crate::diff_logic::from_back(old, k) == crate::diff_logic::from_back(new, k));
            }
        }
        assert(o.len() > 0 || n.len() > 0);
        let d = diff_description(old, new, box_index);
        if o.len() == 0 && n.len() > 0 {
            assert(d.len() >= n.len());
        } else if o.len() > 0 && n.len() == 0 {
            assert(d.len() >= o.len());
        } else {
            assert(d.len() >= o.len());
        }
    }
}

/// The description names exactly the changed spans. With `first` the length
/// of the shared prefix, `o` the removed span and `n` the added one: the old
/// text is the prefix, then `o`, then a tail, and the new text is the same
/// prefix, then `n`, then the same tail; when both spans are non-empty they
/// differ in their first and in their last character, so neither the prefix
/// nor the tail could be longer. The description starts with "I"
/// (Inserted `n`) only when nothing was removed, so the old text is the new
/// one with `n` taken out; with "D" (Deleted `o`) only when nothing was
/// added, so the new text is the old one with `o` taken out; and with "R"
/// (Replaced `o` with `n`) only when both spans are non-empty.
pub proof fn lemma_description_names_the_edit(old: Seq<char>, new: Seq<char>, box_index: usize)
    requires
        old != new,
    ensures
        ({
            let first = common_prefix_len(old, new);
            let o = old_changed(old, new);
            let n = new_changed(old, new);
            let d = diff_description(old, new, box_index);
            let tail = old.skip(first + o.len());
            &&& 0 <= first <= old.len()
            &&& first <= new.len()
            &&& old == old.take(first) + o + tail
            &&& new == old.take(first) + n + tail
            &&& (o.len() > 0 && n.len() > 0) ==> o[0] != n[0] && o.last() != n.last()
            &&& d.len() > 0
            &&& d[0] == 'I' ==> o.len() == 0 && n.len() > 0 && d == "Inserted '"@ + n + location(
                first,
                box_index,
            ) && old == new.take(first) + new.skip(first + n.len())
            &&& d[0] == 'D' ==> n.len() == 0 && o.len() > 0 && d == "Deleted '"@ + o + location(
                first,
                box_index,
            ) && new == old.take(first) + old.skip(first + o.len())
            &&& d[0] == 'R' ==> o.len() > 0 && n.len() > 0 && d == "Replaced '"@ + o
                + "' with '"@ + n + location(first, box_index)
            &&& (d[0] == 'I' || d[0] == 'D' || d[0] == 'R')
        }),
{
    lemma_common_prefix(old, new);
    lemma_common_suffix(old, new);
    lemma_description_empty_iff_equal(old, new, box_index);
    let first = common_prefix_len(old, new);
    let r = reported_suffix(old, new);
    let o = old_changed(old, new);
    let n = new_changed(old, new);
    let tail = old.skip(first + o.len());
    assert(first + o.len() == old.len() - r);
    assert(first + n.len() == new.len() - r);
    let ot = old.skip(old.len() - r);
    let nt = new.skip(new.len() - r);
    assert forall|k: int| 0 <= k < r implies #[trigger] ot[k] == nt[k] by {
        assert(crate::diff_logic::from_back(old, r - 1 - k) == crate::diff_logic::from_back(
            new,
            r - 1 - k,
        ));
    }
    assert(ot =~= nt);
    assert(old =~= old.take(first) + o + tail);
    assert(old.take(first) =~= new.take(first));
    assert(new =~= old.take(first) + n + tail);
    if o.len() > 0 && n.len() > 0 {
        assert(o[0] == old[first] && n[0] == new[first]);
        assert(r == common_suffix_len(old, new));
        assert(o.last() == crate::diff_logic::from_back(old, r));
        assert(n.last() == crate::diff_logic::from_back(new, r));
    }
    let d = diff_description(old, new, box_index);
    reveal_strlit("Inserted '");
    reveal_strlit("Deleted '");
    reveal_strlit("Replaced '");
    if o.len() == 0 && n.len() > 0 {
        assert(d[0] == 'I');
        assert(old =~= new.take(first) + new.skip(first + n.len()));
    } else if o.len() > 0 && n.len() == 0 {
        assert(d[0] == 'D');
        assert(new =~= old.take(first) + old.skip(first + o.len()));
    } else {
        assert(d[0] == 'R');
    }
}

fn push_location(s: &mut String, first: usize, box_index: usize)
    ensures
        final(s)@ == old(s)@ + location(first as int, box_index),
{
    push_str(s, "' at position ");
    push_decimal(s, first);
    push_str(s, " in box ");
    push_decimal(s, box_index);
    assert(final(s)@ =~= old(s)@ + location(first as int, box_index));
}

/// Returns a human-readable diff between `old` and `new`: what was inserted,
/// deleted or replaced, at which character position, in which box; the
/// empty string when the two are equal.
pub fn format_diff(old: &str, new: &str, box_index: usize) -> (r: String)
    ensures
        r@ == diff_description(old@, new@, box_index),
{
    let old_chars = chars_of(old);
    let new_chars = chars_of(new);
    proof {
        lemma_common_prefix(old@, new@);
        lemma_common_suffix(old@, new@);
    }
    let longest = if old_chars.len() > new_chars.len() {
        old_chars.len()
    } else {
        new_chars.len()
    };
    let mut first: usize = 0;
    while first < longest && first < old_chars.len() && first < new_chars.len()
        && old_chars[first] == new_chars[first]
        invariant
            old_chars@ == old@,
            new_chars@ == new@,
            first <= old_chars.len(),
            first <= new_chars.len(),
            longest == old_chars.len() || longest == new_chars.len(),
            old_chars.len() <= longest,
            new_chars.len() <= longest,
            forall|k: int| 0 <= k < first ==> old@[k] == new@[k],
            common_prefix_len(old@, new@) >= first,
        decreases longest - first,
    {
        proof {
            lemma_common_prefix(old@, new@);
        }
        first = first + 1;
    }
    if first == longest {
        assert(old@ =~= new@);
        return String::new();
    }
    assert(first == common_prefix_len(old@, new@)) by {
        if first < common_prefix_len(old@, new@) {
            assert(old@[first as int] == new@[first as int]);
        }
    }
    let old_suffix = old_chars.len() - first;
    let new_suffix = new_chars.len() - first;
    let bound = if old_suffix < new_suffix {
        old_suffix
    } else {
        new_suffix
    };
    let mut suffix: usize = 0;
    while suffix < bound && old_chars[old_chars.len() - 1 - suffix]
        == new_chars[new_chars.len() - 1 - suffix]
        invariant
            old_chars@ == old@,
            new_chars@ == new@,
            first == common_prefix_len(old@, new@),
            bound == min_int(old@.len() - first, new@.len() - first),
            suffix <= bound,
            suffix <= common_suffix_len(old@, new@),
        decreases bound - suffix,
    {
        assert(suffix < common_suffix_len(old@, new@)) by {
            lemma_common_suffix(old@, new@);
            if suffix == common_suffix_len(old@, new@) {
                assert(crate::diff_logic::from_back(old@, suffix as int)
                    != crate::diff_logic::from_back(new@, suffix as int));
            }
        }
        suffix = suffix + 1;
    }
    assert(suffix == reported_suffix(old@, new@)) by {
        if suffix < bound && suffix < common_suffix_len(old@, new@) {
            assert(crate::diff_logic::from_back(old@, suffix as int) == crate::diff_logic::from_back(
                new@,
                suffix as int,
            ));
        }
    }
    let old_end = old_chars.len() - suffix;
    let new_end = new_chars.len() - suffix;
    let mut out = String::new();
    if old_end == first && new_end > first {
        push_str(&mut out, "Inserted '");
        push_chars(&mut out, &new_chars, first, new_end);
        push_location(&mut out, first, box_index);
    } else if old_end > first && new_end == first {
        push_str(&mut out, "Deleted '");
        push_chars(&mut out, &old_chars, first, old_end);
        push_location(&mut out, first, box_index);
    } else if old_end > first && new_end > first {
        push_str(&mut out, "Replaced '");
        push_chars(&mut out, &old_chars, first, old_end);
        push_str(&mut out, "' with '");
        push_chars(&mut out, &new_chars, first, new_end);
        push_location(&mut out, first, box_index);
    }
    assert(out@ =~= diff_description(old@, new@, box_index));
    out
}

/// The Unicode `Alphabetic` property of a character, as `char::is_alphabetic`
/// reports it.
pub uninterp spec fn alphabetic(c: char) -> bool;

/// `char::is_alphabetic`: whether `c` has the Unicode `Alphabetic` property.
/// The property table itself is not restated here; the result is named.
#[verifier::external_body]
fn char_is_alphabetic(c: char) -> (r: bool)
    ensures
        r == alphabetic(c),
{
    c.is_alphabetic()
}

/// Whether two texts hold the same characters.
pub fn same_text(a: &str, b: &str) -> (r: bool)
    ensures
        r == (a@ == b@),
{
    let x = chars_of(a);
    let y = chars_of(b);
    if x.len() != y.len() {
        return false;
    }
    let mut i: usize = 0;
    while i < x.len()
        invariant
            x@ == a@,
            y@ == b@,
            x.len() == y.len(),
            i <= x.len(),
            forall|k: int| 0 <= k < i ==> x@[k] == y@[k],
        decreases x.len() - i,
    {
        if x[i] != y[i] {
            return false;
        }
        i = i + 1;
    }
    assert(x@ =~= y@);
    true
}

/// The kind of input event a keystroke produced.
pub open spec fn is_insert_text(input_type: Seq<char>) -> bool {
    input_type == "insertText"@
}

pub open spec fn is_single_delete_type(input_type: Seq<char>) -> bool {
    input_type == "deleteContentBackward"@ || input_type == "deleteContentForward"@
}

/// Whether a keystroke may wait before it is reported: a single alphabetic
/// character typed, or a single character deleted; everything else is
/// reported at once. `first_is_alphabetic` is whether the typed text's first
/// character is alphabetic.
pub open spec fn deferred(
    input_type: Seq<char>,
    data: Option<Seq<char>>,
    before: Seq<char>,
    after: Seq<char>,
    first_is_alphabetic: bool,
) -> bool {
    if is_insert_text(input_type) {
        match data {
            Some(d) => d.len() == 1 && first_is_alphabetic,
            None => false,
        }
    } else if is_single_delete_type(input_type) {
        before.len() == after.len() + 1
    } else {
        false
    }
}

pub open spec fn opt_view(data: Option<&str>) -> Option<Seq<char>> {
    match data {
        Some(d) => Some(d@),
        None => None,
    }
}

/// The decision of `is_deferred_edit`, given whether the typed text's first
/// character is alphabetic.
pub fn is_deferred_given(
    input_type: &str,
    data: Option<&str>,
    pre_keystroke_value: &str,
    new_value: &str,
    first_is_alphabetic: bool,
) -> (r: bool)
    ensures
        r == deferred(input_type@, opt_view(data), pre_keystroke_value@, new_value@, first_is_alphabetic),
{
    if same_text(input_type, "insertText") {
        match data {
            Some(d) => chars_of(d).len() == 1 && first_is_alphabetic,
            None => false,
        }
    } else if same_text(input_type, "deleteContentBackward") || same_text(
        input_type,
        "deleteContentForward",
    ) {
        let old_len = chars_of(pre_keystroke_value).len();
        let new_len = chars_of(new_value).len();
        old_len > new_len && old_len - new_len == 1
    } else {
        false
    }
}

/// Whether a keystroke's report may wait: a single alphabetic character typed
/// (`insertText`), or exactly one character removed by a backward or forward
/// delete.
pub fn is_deferred_edit(
    input_type: &str,
    data: Option<&str>,
    pre_keystroke_value: &str,
    new_value: &str,
) -> (r: bool)
    ensures
        r == deferred(
            input_type@,
            opt_view(data),
            pre_keystroke_value@,
            new_value@,
            match data {
                Some(d) => d@.len() > 0 && alphabetic(d@[0]),
                None => false,
            },
        ),
{
    let first_is_alphabetic = match data {
        Some(d) => {
            let v = chars_of(d);
            v.len() > 0 && char_is_alphabetic(v[0])
        },
        None => false,
    };
    is_deferred_given(input_type, data, pre_keystroke_value, new_value, first_is_alphabetic)
}

/// The text values of a box around a run of held-back keystrokes: the value
/// before the run began and the latest one.
#[derive(Debug, Clone, PartialEq)]
pub struct TypingSnapshot {
    pub old_value: String,
    pub new_value: String,
}

/// Whether keystrokes are being held back.
#[derive(Debug, Clone, PartialEq)]
pub enum WritingStatus {
    Typing(TypingSnapshot),
    Idle,
}

/// What the pending report timeout should do.
#[derive(Clone, Copy, Debug, PartialEq, Eq, Structural)]
pub enum TimeoutAction {
    /// Drop the pending timeout.
    Clear,
    /// Drop the pending timeout and start a new one.
    Restart,
}

/// The result of handling an input event: the new status, the report to show
/// (if any), and what happens to the pending timeout.
pub struct InputOutcome {
    pub status: WritingStatus,
    pub report: Option<String>,
    pub timeout: TimeoutAction,
}

/// The value a run of held-back keystrokes started from.
pub open spec fn run_start(status: WritingStatus, pre_keystroke_value: Seq<char>) -> Seq<char> {
    match status {
        WritingStatus::Idle => pre_keystroke_value,
        WritingStatus::Typing(snapshot) => snapshot.old_value@,
    }
}

fn clone_str(s: &str) -> (r: String)
    ensures
        r@ == s@,
{
    let v = chars_of(s);
    string_of(&v)
}

/// Handles an input event in box `box_index`: a keystroke that may wait
/// joins (or starts) the held-back run and restarts the timeout; any other
/// keystroke reports the edit from the start of the run to the new value at
/// once, ends the run and clears the timeout.
pub fn on_input(
    status: &WritingStatus,
    pre_keystroke_value: &str,
    new_value: &str,
    deferred_edit: bool,
    box_index: usize,
) -> (r: InputOutcome)
    ensures
        deferred_edit ==> r.report is None && r.timeout == TimeoutAction::Restart && (
        r.status matches WritingStatus::Typing(s) && s.old_value@ == run_start(
            *status,
            pre_keystroke_value@,
        ) && s.new_value@ == new_value@),
        !deferred_edit ==> r.status == WritingStatus::Idle && r.timeout == TimeoutAction::Clear && (
        r.report matches Some(rep) && rep@ == diff_description(
            run_start(*status, pre_keystroke_value@),
            new_value@,
            box_index,
        )),
{
    let old_value = match status {
        WritingStatus::Idle => clone_str(pre_keystroke_value),
        WritingStatus::Typing(snapshot) => snapshot.old_value.clone(),
    };
    if !deferred_edit {
        let report = format_diff(old_value.as_str(), new_value, box_index);
        InputOutcome { status: WritingStatus::Idle, report: Some(report), timeout: TimeoutAction::Clear }
    } else {
        InputOutcome {
            status: WritingStatus::Typing(
                TypingSnapshot { old_value: old_value, new_value: clone_str(new_value) },
            ),
            report: None,
            timeout: TimeoutAction::Restart,
        }
    }
}

/// Flushes a held-back run (on the timeout, or on Tab): reports the edit from
/// the start of the run to its latest value and goes idle; an idle box
/// reports nothing.
pub fn flush(status: &WritingStatus, box_index: usize) -> (r: (WritingStatus, Option<String>))
    ensures
        r.0 == WritingStatus::Idle,
        match *status {
            WritingStatus::Typing(s) => r.1 matches Some(rep) && rep@ == diff_description(
                s.old_value@,
                s.new_value@,
                box_index,
            ),
            WritingStatus::Idle => r.1 is None,
        },
{
    match status {
        WritingStatus::Typing(snapshot) => {
            let report = format_diff(
                snapshot.old_value.as_str(),
                snapshot.new_value.as_str(),
                box_index,
            );
            (WritingStatus::Idle, Some(report))
        },
        WritingStatus::Idle => (WritingStatus::Idle, None),
    }
}

} // verus!
