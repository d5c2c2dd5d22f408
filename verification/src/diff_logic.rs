//! Diff of two versions of a text block: where the two versions first differ,
//! where they last differ, and the single insert, delete or replace between
//! those two points.

use vstd::prelude::*;

use crate::chars::{chars_of, string_of};

verus! {

/// Length of the longest common prefix of `a` and `b`, counting from index `i`.
pub open spec fn common_prefix_from(a: Seq<char>, b: Seq<char>, i: int) -> int
    decreases a.len() - i,
{
    if 0 <= i && i < a.len() && i < b.len() && a[i] == b[i] {
        common_prefix_from(a, b, i + 1)
    } else {
        i
    }
}

/// Number of leading characters that `a` and `b` share.
pub open spec fn common_prefix_len(a: Seq<char>, b: Seq<char>) -> int {
    common_prefix_from(a, b, 0)
}

/// Length of the longest common suffix of `a` and `b`, counting from the `j`-th
/// character from the end.
pub open spec fn common_suffix_from(a: Seq<char>, b: Seq<char>, j: int) -> int
    decreases a.len() - j,
{
    if 0 <= j && j < a.len() && j < b.len() && a[a.len() - 1 - j] == b[b.len() - 1 - j] {
        common_suffix_from(a, b, j + 1)
    } else {
        j
    }
}

/// The `k`-th character counted from the end (0 is the last one).
pub open spec fn from_back(s: Seq<char>, k: int) -> char {
    s[s.len() - 1 - k]
}

/// Number of trailing characters that `a` and `b` share.
pub open spec fn common_suffix_len(a: Seq<char>, b: Seq<char>) -> int {
    common_suffix_from(a, b, 0)
}

pub open spec fn max_len(a: Seq<char>, b: Seq<char>) -> int {
    if a.len() > b.len() {
        a.len() as int
    } else {
        b.len() as int
    }
}

pub open spec fn min_int(x: int, y: int) -> int {
    if x < y {
        x
    } else {
        y
    }
}

/// The characters of `s` from `start` on, at most `amount` of them (what
/// `chars().skip(start).take(amount)` yields).
pub open spec fn char_window(s: Seq<char>, start: int, amount: int) -> Seq<char> {
    s.subrange(min_int(start, s.len() as int), min_int(start + amount, s.len() as int))
}

/// Where the first deviation is found: the length of the common prefix.
pub open spec fn first_deviation(a: Seq<char>, b: Seq<char>) -> int {
    common_prefix_len(a, b)
}

/// Where the last deviation is found: the longer length minus the length of
/// the common suffix.
pub open spec fn last_deviation(a: Seq<char>, b: Seq<char>) -> int {
    max_len(a, b) - common_suffix_len(a, b)
}

/// The abstract value of a [`DiffResult`].
pub ghost enum DiffView {
    Insert(Seq<char>, int),
    Delete(Seq<char>, int),
    Replace { old_text: Seq<char>, new_text: Seq<char>, position: int },
    NoDiff,
}

/// What `get_diff` returns for the two versions `old` and `new`.
pub open spec fn diff_spec(old: Seq<char>, new: Seq<char>) -> DiffView {
    if old == new {
        DiffView::NoDiff
    } else {
        let p = first_deviation(old, new);
        let amount = last_deviation(old, new) - p;
        if old.len() == new.len() {
            DiffView::Replace {
                old_text: char_window(old, p, amount),
                new_text: char_window(new, p, amount),
                position: p,
            }
        } else if old.len() < new.len() {
            DiffView::Insert(char_window(new, p, amount), p)
        } else {
            DiffView::Delete(char_window(old, p, amount), p)
        }
    }
}

/// `get_diff` computes `last_deviation - first_deviation` in `usize`, which
/// must not go below zero: true unless prefix and suffix overlap.
pub open spec fn diff_is_defined(old: Seq<char>, new: Seq<char>) -> bool {
    old == new || first_deviation(old, new) <= last_deviation(old, new)
}

/// Applies a diff to the text it was computed from.
pub open spec fn apply_diff(old: Seq<char>, d: DiffView) -> Seq<char> {
    match d {
        DiffView::Insert(text, pos) => old.take(pos) + text + old.skip(pos),
        DiffView::Delete(text, pos) => old.take(pos) + old.skip(pos + text.len()),
        DiffView::Replace { old_text, new_text, position } => old.take(position) + new_text
            + old.skip(position + old_text.len()),
        DiffView::NoDiff => old,
    }
}

/// One edit between two versions of a text; positions count characters.
#[derive(Debug, PartialEq)]
pub enum DiffResult {
    Insert(String, usize),
    Delete(String, usize),
    Replace { old_text: String, new_text: String, position: usize },
    NoDiff,
}

impl View for DiffResult {
    type V = DiffView;

    open spec fn view(&self) -> DiffView {
        match self {
            DiffResult::Insert(t, p) => DiffView::Insert(t@, *p as int),
            DiffResult::Delete(t, p) => DiffView::Delete(t@, *p as int),
            DiffResult::Replace { old_text, new_text, position } => DiffView::Replace {
                old_text: old_text@,
                new_text: new_text@,
                position: *position as int,
            },
            DiffResult::NoDiff => DiffView::NoDiff,
        }
    }
}

/// Where a scan for a deviation stopped.
pub struct DeviationResult {
    pub position: usize,
    pub identical_strings: bool,
}

proof fn lemma_prefix_bounds(a: Seq<char>, b: Seq<char>, i: int)
    requires
        0 <= i <= a.len(),
        i <= b.len(),
        forall|k: int| 0 <= k < i ==> a[k] == b[k],
    ensures
        i <= common_prefix_from(a, b, i) <= a.len(),
        common_prefix_from(a, b, i) <= b.len(),
        forall|k: int| 0 <= k < common_prefix_from(a, b, i) ==> a[k] == b[k],
        common_prefix_from(a, b, i) < a.len() && common_prefix_from(a, b, i) < b.len()
            ==> a[common_prefix_from(a, b, i)] != b[common_prefix_from(a, b, i)],
    decreases a.len() - i,
{
    if i < a.len() && i < b.len() && a[i] == b[i] {
        lemma_prefix_bounds(a, b, i + 1);
    }
}

/// The common prefix is shared, fits in both texts, and is maximal.
pub proof fn lemma_common_prefix(a: Seq<char>, b: Seq<char>)
    ensures
        0 <= common_prefix_len(a, b) <= a.len(),
        common_prefix_len(a, b) <= b.len(),
        forall|k: int| 0 <= k < common_prefix_len(a, b) ==> a[k] == b[k],
        common_prefix_len(a, b) < a.len() && common_prefix_len(a, b) < b.len()
            ==> a[common_prefix_len(a, b)] != b[common_prefix_len(a, b)],
{
    lemma_prefix_bounds(a, b, 0);
}

proof fn lemma_suffix_bounds(a: Seq<char>, b: Seq<char>, j: int)
    requires
        0 <= j <= a.len(),
        j <= b.len(),
        forall|k: int| 0 <= k < j ==> from_back(a, k) == from_back(b, k),
    ensures
        j <= common_suffix_from(a, b, j) <= a.len(),
        common_suffix_from(a, b, j) <= b.len(),
        forall|k: int|
            0 <= k < common_suffix_from(a, b, j) ==> from_back(a, k) == from_back(b, k),
        common_suffix_from(a, b, j) < a.len() && common_suffix_from(a, b, j) < b.len()
            ==> from_back(a, common_suffix_from(a, b, j)) != from_back(b, common_suffix_from(a, b, j)),
    decreases a.len() - j,
{
    if j < a.len() && j < b.len() && a[a.len() - 1 - j] == b[b.len() - 1 - j] {
        lemma_suffix_bounds(a, b, j + 1);
    }
}

/// The common suffix is shared and fits in both texts.
pub proof fn lemma_common_suffix(a: Seq<char>, b: Seq<char>)
    ensures
        0 <= common_suffix_len(a, b) <= a.len(),
        common_suffix_len(a, b) <= b.len(),
        forall|k: int|
            0 <= k < common_suffix_len(a, b) ==> from_back(a, k) == from_back(b, k),
        common_suffix_len(a, b) < a.len() && common_suffix_len(a, b) < b.len()
            ==> from_back(a, common_suffix_len(a, b)) != from_back(b, common_suffix_len(a, b)),
{
    lemma_suffix_bounds(a, b, 0);
}

/// A replace always reproduces the new text, and so does an insert or a delete
/// whenever the common prefix and the common suffix together cover exactly
/// the shorter text (a single contiguous edit that the two scans locate
/// without overlap): applying `get_diff(old, new)` to `old` gives `new`.
pub proof fn lemma_diff_roundtrip(old: Seq<char>, new: Seq<char>)
    requires
        old.len() == new.len() || common_prefix_len(old, new) + common_suffix_len(old, new)
            == min_int(old.len() as int, new.len() as int),
    ensures
        diff_is_defined(old, new),
        apply_diff(old, diff_spec(old, new)) == new,
{
    lemma_common_prefix(old, new);
    lemma_common_suffix(old, new);
    if old == new {
        return;
    }
    let p = common_prefix_len(old, new);
    let s = common_suffix_len(old, new);
    if old.len() == new.len() {
        let l = old.len() as int;
        if p == l {
            assert(old =~= new);
        }
        if s > l - 1 - p {
            assert(from_back(old, l - 1 - p) == from_back(new, l - 1 - p));
        }
        assert(p + s < l);
        let r = old.take(p) + new.subrange(p, l - s) + old.skip(l - s);
        assert forall|k: int| 0 <= k < l implies r[k] == new[k] by {
            if k >= l - s {
                assert(from_back(old, l - 1 - k) == from_back(new, l - 1 - k));
            }
        }
        assert(r =~= new);
    } else if old.len() < new.len() {
        let ln = new.len() as int;
        let lo = old.len() as int;
        let r = old.take(p) + new.subrange(p, ln - s) + old.skip(p);
        assert forall|k: int| 0 <= k < ln implies r[k] == new[k] by {
            if k >= ln - s {
                let j = ln - 1 - k;
                assert(from_back(old, j) == from_back(new, j));
                assert(r[k] == old[lo - 1 - j]);
            }
        }
        assert(r =~= new);
    } else {
        let ln = new.len() as int;
        let lo = old.len() as int;
        let r = old.take(p) + old.skip(lo - s);
        assert forall|k: int| 0 <= k < ln implies r[k] == new[k] by {
            if k >= p {
                let j = ln - 1 - k;
                assert(from_back(old, j) == from_back(new, j));
            }
        }
        assert(r =~= new);
    }
}

/// What the diff says of the two texts: everything before its position is
/// shared by both, and the position is where they first differ (or where
/// the shorter one ends); a replace's old text is exactly the span of the old text
/// it overwrites and its new text exactly the span of the new text that
/// takes its place (equal in length, different in their first character),
/// with the rest after them shared; an insert's text is exactly the span of
/// the new text at its position, and a delete's text exactly the span of the
/// old text at its position.
pub proof fn lemma_diff_spans(old: Seq<char>, new: Seq<char>)
    requires
        diff_is_defined(old, new),
    ensures
        match diff_spec(old, new) {
            DiffView::NoDiff => old == new,
            DiffView::Replace { old_text, new_text, position } => {
                &&& 0 <= position
                &&& position + old_text.len() <= old.len()
                &&& old.len() == new.len()
                &&& old_text.len() == new_text.len()
                &&& old_text.len() > 0
                &&& old.take(position) == new.take(position)
                &&& old[position] != new[position]
                &&& old_text == old.subrange(position, position + old_text.len())
                &&& new_text == new.subrange(position, position + new_text.len())
                &&& old_text[0] != new_text[0]
                &&& old.skip(position + old_text.len()) == new.skip(position + new_text.len())
            },
            DiffView::Insert(text, position) => {
                &&& 0 <= position
                &&& position + text.len() <= new.len()
                &&& old.len() < new.len()
                &&& old.take(position) == new.take(position)
                &&& position < old.len() ==> old[position] != new[position]
                &&& text == new.subrange(position, position + text.len())
            },
            DiffView::Delete(text, position) => {
                &&& 0 <= position
                &&& position + text.len() <= old.len()
                &&& new.len() < old.len()
                &&& old.take(position) == new.take(position)
                &&& position < new.len() ==> old[position] != new[position]
                &&& text == old.subrange(position, position + text.len())
            },
        },
{
    lemma_common_prefix(old, new);
    lemma_common_suffix(old, new);
    if old != new {
        let p = common_prefix_len(old, new);
        let s = common_suffix_len(old, new);
        assert(old.take(p) =~= new.take(p));
        if old.len() == new.len() {
            let l = old.len() as int;
            if p == l {
                assert(old =~= new);
            }
            if s > l - 1 - p {
                assert(from_back(old, l - 1 - p) == from_back(new, l - 1 - p));
            }
            assert(p + s < l);
            let ot = old.skip(l - s);
            let nt = new.skip(l - s);
            assert forall|k: int| 0 <= k < s implies #[trigger] ot[k] == nt[k] by {
                assert(from_back(old, s - 1 - k) == from_back(new, s - 1 - k));
            }
            assert(ot =~= nt);
            let w = char_window(old, p, l - s - p);
            assert(w =~= old.subrange(p, l - s));
            assert(w[0] == old[p]);
            assert(char_window(new, p, l - s - p)[0] == new[p]);
        }
    }
}

/// Scans both texts from the front; `position` is the first index where they
/// differ (or where the shorter one ends). Texts that are equal are reported
/// as identical with position 0.
pub fn find_first_deviation(old_text: &str, new_text: &str) -> (r: DeviationResult)
    ensures
        r.identical_strings == (old_text@ == new_text@),
        r.identical_strings ==> r.position == 0,
        !r.identical_strings ==> r.position == first_deviation(old_text@, new_text@),
{
    let a = chars_of(old_text);
    let b = chars_of(new_text);
    let mut position: usize = 0;
    loop
        invariant
            a@ == old_text@,
            b@ == new_text@,
            position <= a.len(),
            position <= b.len(),
            forall|k: int| 0 <= k < position ==> a@[k] == b@[k],
            common_prefix_from(a@, b@, position as int) == common_prefix_len(a@, b@),
        decreases a.len() - position,
    {
        let old_ended = position >= a.len();
        let new_ended = position >= b.len();
        if old_ended && new_ended {
            assert(a@ =~= b@);
            return DeviationResult { position: 0, identical_strings: true };
        }
        if old_ended || new_ended || a[position] != b[position] {
            assert(a@.len() != b@.len() || a@[position as int] != b@[position as int]);
            return DeviationResult { position: position, identical_strings: false };
        }
        position = position + 1;
    }
}

/// Scans both texts from the back, starting from the longer length; `position`
/// is that length minus the number of trailing characters the texts share.
pub fn find_last_deviation(old_text: &str, new_text: &str) -> (r: DeviationResult)
    ensures
        r.identical_strings == (old_text@ == new_text@),
        r.identical_strings ==> r.position == 0,
        !r.identical_strings ==> r.position == last_deviation(old_text@, new_text@),
{
    let a = chars_of(old_text);
    let b = chars_of(new_text);
    let mut position = get_longest_str_len(old_text, new_text);
    let mut j: usize = 0;
    loop
        invariant
            a@ == old_text@,
            b@ == new_text@,
            j <= a.len(),
            j <= b.len(),
            position == max_len(a@, b@) - j,
            forall|k: int| 0 <= k < j ==> from_back(a@, k) == from_back(b@, k),
            common_suffix_from(a@, b@, j as int) == common_suffix_len(a@, b@),
        decreases a.len() - j,
    {
        let old_ended = j >= a.len();
        let new_ended = j >= b.len();
        if old_ended && new_ended {
            assert forall|k: int| 0 <= k < a.len() implies a@[k] == b@[k] by {
                assert(from_back(a@, a.len() - 1 - k) == from_back(b@, a.len() - 1 - k));
            }
            assert(a@ =~= b@);
            return DeviationResult { position: 0, identical_strings: true };
        }
        if old_ended || new_ended || a[a.len() - 1 - j] != b[b.len() - 1 - j] {
            assert(a@.len() != b@.len() || a@[a.len() - 1 - j] != b@[b.len() - 1 - j]);
            return DeviationResult { position: position, identical_strings: false };
        }
        position = position - 1;
        j = j + 1;
    }
}

/// The characters of `old_text` from `position_to_start_from` on, at most
/// `amount` of them.
pub fn string_from_diff_result(old_text: &str, position_to_start_from: usize, amount: usize) -> (r:
    String)
    ensures
        r@ == char_window(old_text@, position_to_start_from as int, amount as int),
{
    let a = chars_of(old_text);
    let mut out: Vec<char> = Vec::new();
    let mut i = position_to_start_from;
    while i < a.len() && i - position_to_start_from < amount
        invariant
            a@ == old_text@,
            position_to_start_from <= i,
            i <= position_to_start_from + amount,
            position_to_start_from < a.len() ==> i <= a.len(),
            position_to_start_from >= a.len() ==> i == position_to_start_from,
            out@ == a@.subrange(min_int(position_to_start_from as int, a.len() as int),
                min_int(i as int, a.len() as int)),
        decreases a.len() - i,
    {
        out.push(a[i]);
        assert(a@.subrange(position_to_start_from as int, i as int).push(a@[i as int])
            =~= a@.subrange(position_to_start_from as int, i + 1));
        i = i + 1;
    }
    assert(out@ =~= char_window(a@, position_to_start_from as int, amount as int));
    string_of(&out)
}

/// The character count of the longer of the two strings.
pub fn get_longest_str_len(str1: &str, str2: &str) -> (r: usize)
    ensures
        r == max_len(str1@, str2@),
{
    let len1 = chars_of(str1).len();
    let len2 = chars_of(str2).len();
    if len1 > len2 {
        len1
    } else {
        len2
    }
}

/// Whether `get_diff` accepts the pair: the texts are equal, or the first
/// deviation does not lie past the last one.
pub fn can_diff(old_text: &str, new_text: &str) -> (r: bool)
    ensures
        r == diff_is_defined(old_text@, new_text@),
{
    let first = find_first_deviation(old_text, new_text);
    let last = find_last_deviation(old_text, new_text);
    first.identical_strings || first.position <= last.position
}

/// The edit that turns `old_text` into `new_text`: nothing when they are equal;
/// otherwise the span between the first and the last deviation, reported as a
/// replace when the lengths agree, as an insert (taken from `new_text`) when
/// the new text is longer, and as a delete (taken from `old_text`) when it is
/// shorter.
pub fn get_diff(old_text: &str, new_text: &str) -> (r: DiffResult)
    requires
        diff_is_defined(old_text@, new_text@),
    ensures
        r@ == diff_spec(old_text@, new_text@),
{
    let first_deviation = find_first_deviation(old_text, new_text);
    let last_deviation = find_last_deviation(old_text, new_text);

    if first_deviation.identical_strings {
        return DiffResult::NoDiff;
    }
    let diff_amount = last_deviation.position - first_deviation.position;

    let old_len = chars_of(old_text).len();
    let new_len = chars_of(new_text).len();
    if old_len == new_len {
        let old_middle = string_from_diff_result(old_text, first_deviation.position, diff_amount);
        let new_middle = string_from_diff_result(new_text, first_deviation.position, diff_amount);
        return DiffResult::Replace {
            old_text: old_middle,
            new_text: new_middle,
            position: first_deviation.position,
        };
    }
    if old_len < new_len {
        let diff_text = string_from_diff_result(new_text, first_deviation.position, diff_amount);
        DiffResult::Insert(diff_text, first_deviation.position)
    } else {
        let diff_text = string_from_diff_result(old_text, first_deviation.position, diff_amount);
        DiffResult::Delete(diff_text, first_deviation.position)
    }
}

} // verus!
